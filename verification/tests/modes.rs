use accepted::buffer::Buffer;
use accepted::buffer_mode::BufferMode;
use accepted::config::{ConfigWithDefault, HardTab};
use accepted::edit_core::buffer::RopeyCoreBuffer;
use accepted::event::{Event, Key};

fn run_with(indent_width: usize, hard_tab: bool, init: &str, commands: &str) -> String {
    let mut buf: Buffer<RopeyCoreBuffer> = Buffer::new(indent_width, hard_tab);
    buf.core.set_string(init.to_string(), true);
    let mut buffer = BufferMode::new(buf);
    for c in commands.chars() {
        buffer.event(Event::Key(Key::Char(c)));
    }
    buffer.event(Event::Key(Key::Esc));
    buffer.buf.core.get_string()
}

fn simple_run(init: &str, commands: &str) -> String {
    run_with(4, false, init, commands)
}

fn simple_run_config(config: &ConfigWithDefault, init: &str, commands: &str) -> String {
    let mut buf: Buffer<RopeyCoreBuffer> = Buffer::with_config(config);
    buf.core.set_string(init.to_string(), true);
    let mut buffer = BufferMode::new(buf);
    for c in commands.chars() {
        buffer.event(Event::Key(Key::Char(c)));
    }
    buffer.event(Event::Key(Key::Esc));
    buffer.buf.core.get_string()
}

#[test]
fn test_simples() {
    // Insertions
    assert_eq!(simple_run("123", "iHello World"), "Hello World123");
    assert_eq!(simple_run("123", "iHello\nWorld"), "Hello\nWorld123");
    assert_eq!(simple_run("123", "llllllIHello World"), "Hello World123");
    assert_eq!(
        simple_run("    123", "lllllllllllllllllllIHello World"),
        "    Hello World123"
    );
    assert_eq!(simple_run("123", "aHello World"), "1Hello World23");
    assert_eq!(simple_run("123", "AHello World"), "123Hello World");
    assert_eq!(simple_run("123", "oHello World"), "123\nHello World");
    assert_eq!(simple_run("123", "OHello World"), "Hello World\n123");

    // x
    assert_eq!(simple_run("", "x"), "");

    // r
    assert_eq!(simple_run("", "ra"), "a");
    assert_eq!(simple_run("123", "r8"), "823");

    // s, S, C
    assert_eq!(simple_run("123", "sHello World"), "Hello World23");
    assert_eq!(simple_run("123", "SHello World"), "Hello World");
    assert_eq!(simple_run("123 456 789", "wCabc"), "123 abc");

    // dd
    assert_eq!(simple_run("", "dd"), "");
    assert_eq!(simple_run("1", "ddP"), "1\n");
    assert_eq!(simple_run("1\n2\n3", "dd"), "2\n3");
    assert_eq!(simple_run("1\n2\n3", "ddp"), "2\n1\n3");
    assert_eq!(simple_run("1\n2\n3", "jdd"), "1\n3");
    assert_eq!(simple_run("1\n2", "jdd"), "1");
    // cc
    assert_eq!(simple_run("1", "cca"), "a");
    assert_eq!(simple_run("1\n2\n3", "cca"), "a\n2\n3");
    // dj
    assert_eq!(simple_run("1\n2", "djP"), "1\n2\n");
    assert_eq!(simple_run("1\n2\n3\n4", "jdj"), "1\n4");
    assert_eq!(simple_run("1\n2\n3\n4", "jdjp"), "1\n4\n2\n3");
    // cj
    assert_eq!(simple_run("1\n222\n333\n4", "jcja"), "1\na\n4");
    // dk
    assert_eq!(simple_run("1\n2\n3\n4", "jjdk"), "1\n4");
    assert_eq!(simple_run("1\n2\n3\n4", "jjdkp"), "1\n4\n2\n3");

    // word
    assert_eq!(simple_run("123 456 789", "wdw"), "123 789");
    assert_eq!(simple_run("123 456 789", "dw"), "456 789");
    assert_eq!(simple_run("123 456             789", "wdw"), "123 789");
    assert_eq!(simple_run("123 456 789", "wdaw"), "123 789");
    assert_eq!(simple_run("123 456 789", "daw"), "456 789");
    assert_eq!(simple_run("123 456 789", "ldaw"), "456 789");
    assert_eq!(simple_run("123 456             789", "wdaw"), "123 789");
    assert_eq!(simple_run("123 456 789", "wdiw"), "123  789");
    assert_eq!(simple_run("123 456 789", "diw"), " 456 789");
    assert_eq!(simple_run("123 456 789", "ldiw"), " 456 789");

    assert_eq!(simple_run("123 456 789", "wcw"), "123  789");
    assert_eq!(simple_run("123 456 789", "wcwabc"), "123 abc 789");
    assert_eq!(simple_run("123 456   789", "wcw"), "123    789");
    assert_eq!(simple_run("123 456 789", "wcaw"), "123  789");
    assert_eq!(simple_run("123 456   789", "wcaw"), "123    789");
    assert_eq!(simple_run("123 456 789", "wciw"), "123  789");
    assert_eq!(simple_run("123 456   789", "wciw"), "123    789");

    // parens
    assert_eq!(simple_run("(123 456 789)(abc)", "di)"), "()(abc)");
    assert_eq!(simple_run("(123 456 789)(abc)", "da)"), "(abc)");
    assert_eq!(simple_run("((123 456 789)(qwe))(abc)", "da)"), "(abc)");

    // Quote
    assert_eq!(
        simple_run("\"123 456 789\"\"abc\"", "di\""),
        "\"\"\"abc\""
    );
    assert_eq!(simple_run("\"123 456 789\"\"abc\"", "da\""), "\"abc\"");

    // f,t
    assert_eq!(simple_run("123456", "df4"), "56");
    assert_eq!(simple_run("123456", "dt4"), "456");
    assert_eq!(simple_run("123456abc", "dta"), "abc");

    // Yanks
    assert_eq!(simple_run("123\n456\n789", "yyp"), "123\n123\n456\n789");
    assert_eq!(simple_run("123\n456\n789", "ddp"), "456\n123\n789");
    assert_eq!(simple_run("123 456 789", "dwwP"), "456 123 789");

    // 0, $
    assert_eq!(simple_run("123 456 789", "ww0iabc "), "abc 123 456 789");
    assert_eq!(simple_run("123 456 789", "$i abc"), "123 456 789 abc");

    // Auto indent
    assert_eq!(simple_run("123", "A\n"), "123\n");
    assert_eq!(simple_run("123{", "A\n"), "123{\n    ");

    // g
    assert_eq!(simple_run("123\n456", "wwwwwgiabc"), "abc123\n456");
    assert_eq!(simple_run("123\n456", "Giabc"), "123\n456abc");

    // f, F
    assert_eq!(simple_run("123456", "f4ia"), "123a456");
    assert_eq!(simple_run("123456", "$F4ia"), "123a456");

    // search
    assert_eq!(simple_run("123\nabc\n456", "/abc\nniz"), "123\nzabc\n456");
    assert_eq!(simple_run("123\nabc\n456", "G/abc\nNiz"), "123\nzabc\n456");

    // Run
    // Not crash
    assert_eq!(
        simple_run("#!/bin/sh\n\necho Hello", " tgG"),
        "#!/bin/sh\n\necho Hello"
    );

    // Visual
    assert_eq!(simple_run("", "vx"), "");
    assert_eq!(simple_run("", "Vx"), "");
    assert_eq!(simple_run("123 456 789", "ved"), " 456 789");
    assert_eq!(simple_run("123 456 789", "vesabc"), "abc 456 789");
    assert_eq!(simple_run("123\n456\n789", "Vd"), "456\n789");
    assert_eq!(simple_run("123\n456\n789", "Vjd"), "789");
    assert_eq!(simple_run("123\n456\n789", "Vyp"), "123\n123\n456\n789");
    // Visual S
    assert_eq!(simple_run("abc", "veS)"), "(abc)");

    // Goto
    assert_eq!(simple_run("123\n456\n789", " g2\nix"), "123\nx456\n789");
}

#[test]
fn test_hard_tab_setting() {
    let mut config = ConfigWithDefault::default();
    config.set::<HardTab>(true);
    let buf: Buffer<RopeyCoreBuffer> = Buffer::with_config(&config);
    let state = BufferMode::new(buf);

    assert_eq!(state.buf.hard_tab(), true);

    assert_eq!(simple_run_config(&config, "", "i\t"), "\t");
    assert_eq!(
        simple_run_config(&config, "", "i{\nabc"),
        "{\n\tabc\n}"
    );
}

#[test]
fn test_crlf() {
    assert_eq!(simple_run("a\r\na", "xxx"), "");
    assert_eq!(simple_run("a\r\na", "dd"), "a");
    assert_eq!(simple_run("ab\r\na", "vlld"), "a");
}

#[test]
fn fuzz_1() {
    let mut buf: Buffer<RopeyCoreBuffer> = Buffer::new(4, false);
    buf.core.set_string(String::new(), true);
    let mut buffer = BufferMode::new(buf);
    for c in ['b', '%', ')', 'A'] {
        buffer.event(Event::Key(Key::Char(c)));
    }
}

#[test]
fn enter_indents_after_an_opening_bracket() {
    assert_eq!(simple_run("", "i{\nx"), "{\n    x\n}");
    assert_eq!(simple_run("", "i[(\nx"), "[(\n    x\n)]");
    assert_eq!(run_with(2, false, "", "i{\n{\nx"), "{\n  {\n    x\n  }\n}");
    assert_eq!(simple_run("    a", "A\nb"), "    a\n    b");
    assert_eq!(simple_run("a", "A\nb"), "a\nb");
}
