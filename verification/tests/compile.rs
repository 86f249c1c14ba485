use accepted::buffer::Buffer;
use accepted::compiler::{
    compile_command, diagnostic_output, parse_gcc_line, replace, CompileId, CompileResult,
    CompilerOutput, Diagnostic, DiagnosticSpan,
};
use accepted::config::{CompilerConfig, CompilerType};
use accepted::edit_core::buffer::RopeyCoreBuffer;
use accepted::edit_core::{Cursor, CursorRange, Id};

fn chars(s: &str) -> Vec<char> {
    s.chars().collect()
}

fn text(v: &[char]) -> String {
    v.iter().collect()
}

#[test]
fn gcc_line_is_read() {
    let o = parse_gcc_line("main.cpp:12:5: error: expected ';' after expression\n").unwrap();
    assert_eq!(o.line, 11);
    assert_eq!(o.level, "error");
    assert_eq!(o.message, "expected ';' after expression");
    assert_eq!(o.span, CursorRange(Cursor { row: 11, col: 4 }, Cursor { row: 11, col: 4 }));
}

#[test]
fn gcc_message_may_hold_colons() {
    let o = parse_gcc_line("a.c:1:1: warning: unused: x").unwrap();
    assert_eq!(o.level, "warning");
    assert_eq!(o.message, "unused: x");
}

#[test]
fn gcc_other_lines_are_skipped() {
    assert!(parse_gcc_line("In file included from a.c:3:").is_none());
    assert!(parse_gcc_line("1 error generated.").is_none());
    assert!(parse_gcc_line("a.c:x:1: error: y").is_none());
    assert!(parse_gcc_line("a.c:1:2:error: y").is_none());
    assert!(parse_gcc_line("a.c:0:2: error: y").is_none());
    assert!(parse_gcc_line("a.c::2: error: y").is_none());
}

fn span(ls: usize, cs: usize, le: usize, ce: usize, primary: bool) -> DiagnosticSpan {
    DiagnosticSpan { line_start: ls, line_end: le, column_start: cs, column_end: ce, is_primary: primary }
}

#[test]
fn rustc_diagnostic_at_primary_span() {
    let d = Diagnostic {
        message: "mismatched types".to_string(),
        level: "error".to_string(),
        spans: vec![span(1, 1, 1, 4, false), span(3, 9, 3, 14, true), span(5, 1, 5, 2, true)],
    };
    let o: CompilerOutput = diagnostic_output(d).unwrap();
    assert_eq!(o.line, 2);
    assert_eq!(o.message, "mismatched types");
    assert_eq!(o.level, "error");
    assert_eq!(o.span, CursorRange(Cursor { row: 2, col: 8 }, Cursor { row: 2, col: 12 }));
}

#[test]
fn rustc_diagnostic_end_column_stays_at_zero() {
    let d = Diagnostic {
        message: "m".to_string(),
        level: "warning".to_string(),
        spans: vec![span(2, 1, 4, 1, true)],
    };
    let o = diagnostic_output(d).unwrap();
    assert_eq!(o.span, CursorRange(Cursor { row: 1, col: 0 }, Cursor { row: 3, col: 0 }));
}

#[test]
fn rustc_diagnostic_without_primary_span() {
    let d = Diagnostic {
        message: "m".to_string(),
        level: "note".to_string(),
        spans: vec![span(2, 1, 4, 1, false)],
    };
    assert!(diagnostic_output(d).is_none());
}

#[test]
fn replace_every_occurrence() {
    assert_eq!(text(&replace(&chars("a$X$b$X$"), &chars("$X$"), &chars("yy"))), "ayybyy");
    assert_eq!(text(&replace(&chars("aaa"), &chars("aa"), &chars("b"))), "ba");
    assert_eq!(text(&replace(&chars("none"), &chars("zz"), &chars("b"))), "none");
}

fn words(ws: &[&str]) -> Vec<String> {
    ws.iter().map(|w| w.to_string()).collect()
}

#[test]
fn compile_command_fills_in_the_file() {
    let config = CompilerConfig {
        command: words(&["g++", "$FilePath$", "-o", "$FileStem$"]),
        optimize_option: words(&["-O2"]),
        output_type: Some(CompilerType::Gcc),
    };
    let (prog, args) = compile_command(&config, "src/a.cpp", false).unwrap();
    assert_eq!(prog, "g++");
    let args: Vec<String> = args.iter().map(|a| text(a)).collect();
    assert_eq!(args, vec!["src/a.cpp", "-o", "a"]);
    let (_, args) = compile_command(&config, "src/a.cpp", true).unwrap();
    let args: Vec<String> = args.iter().map(|a| text(a)).collect();
    assert_eq!(args, vec!["src/a.cpp", "-o", "a", "-O2"]);
    let empty = CompilerConfig { command: Vec::new(), optimize_option: Vec::new(), output_type: None };
    assert!(compile_command(&empty, "a.rs", false).is_none());
}

#[test]
fn compile_is_asked_once_per_edit() {
    let mut buf: Buffer<RopeyCoreBuffer> = Buffer::new(4, false);
    assert!(buf.compile(false).is_none());
    buf.set_path(Some("a.rs".to_string()));
    buf.core.insert('x');
    let id = buf.compile(false).unwrap();
    assert!(!id.is_optimize);
    assert!(buf.compile(false).is_none());
    assert!(buf.compile(true).is_some());
    assert_eq!(buf.last_compile_success(), None);
    let out = CompilerOutput {
        message: "boom".to_string(),
        line: 0,
        level: "error".to_string(),
        span: CursorRange(Cursor { row: 0, col: 0 }, Cursor { row: 0, col: 0 }),
    };
    buf.set_compile_result(CompileId { id: Id(1), is_optimize: false }, CompileResult { success: false, messages: vec![out] });
    assert_eq!(buf.last_compile_success(), Some(false));
    assert_eq!(buf.compiler_message_on_cursor(), Some(&"boom".to_string()));
}
