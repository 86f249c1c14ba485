use accepted::config::Command;
use accepted::test_run::{test_command, TestCommandError};

#[test]
fn the_configured_command_wins() {
    let c = Command { program: "cargo".to_string(), args: vec!["test".to_string()] };
    let r = match test_command(Some(c), "#!/bin/sh", "a.sh") {
        Ok(r) => r,
        Err(_) => panic!("no command"),
    };
    assert_eq!(r.program, "cargo");
    assert_eq!(r.args, vec!["test".to_string()]);
}

#[test]
fn a_shebang_line_gives_the_command() {
    let r = match test_command(None, "#!/usr/bin/env python3 -u", "t.py") {
        Ok(r) => r,
        Err(_) => panic!("no command"),
    };
    assert_eq!(r.program, "/usr/bin/env");
    assert_eq!(r.args, vec!["python3".to_string(), "-u".to_string(), "t.py".to_string()]);
}

#[test]
fn without_either_there_is_no_command() {
    let e = match test_command(None, "fn main() {}", "a.rs") {
        Ok(_) => panic!("a command"),
        Err(e) => e,
    };
    assert_eq!(e, TestCommandError::Undefined);
    assert_eq!(e.message(), "test_command is undefined");
}
