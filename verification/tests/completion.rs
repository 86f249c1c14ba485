use accepted::buffer::Buffer;
use accepted::buffer_mode::BufferMode;
use accepted::edit_core::buffer::RopeyCoreBuffer;
use accepted::event::{Event, Key};
use accepted::mode::{Completion, Mode, TabNineCompletion};

fn editor(init: &str) -> BufferMode<RopeyCoreBuffer> {
    let mut buf: Buffer<RopeyCoreBuffer> = Buffer::new(4, false);
    buf.core.set_string(init.to_string(), true);
    buf.snippet.insert("fn".to_string(), "fn main() {\n}\n".to_string());
    buf.snippet.insert("for".to_string(), "for i in 0..n {}".to_string());
    BufferMode::new(buf)
}

fn keys(b: &mut BufferMode<RopeyCoreBuffer>, s: &str) {
    for c in s.chars() {
        b.event(Event::Key(Key::Char(c)));
    }
}

fn snippet_offers(b: &BufferMode<RopeyCoreBuffer>) -> Vec<String> {
    match &b.mode {
        Mode::Insert(i) => i.snippet_completions.clone(),
        _ => panic!("not in insert mode"),
    }
}

#[test]
fn snippets_are_offered_for_the_word() {
    let mut b = editor("");
    keys(&mut b, "if");
    assert_eq!(snippet_offers(&b), vec!["fn", "for"]);
    keys(&mut b, "o");
    assert_eq!(snippet_offers(&b), vec!["for"]);
    keys(&mut b, " ");
    assert_eq!(snippet_offers(&b).len(), 0);
}

#[test]
fn taking_a_snippet_replaces_the_word() {
    let mut b = editor("");
    keys(&mut b, "ifo\t\n");
    b.event(Event::Key(Key::Esc));
    assert_eq!(b.buf.core.get_string(), "for i in 0..n {}");
}

#[test]
fn tab_cycles_through_snippets() {
    let mut b = editor("x");
    keys(&mut b, "if\t\t\n");
    b.event(Event::Key(Key::Esc));
    assert_eq!(b.buf.core.get_string(), "for i in 0..n {}x");
}

#[test]
fn completion_request_after_a_word_or_dot() {
    let mut b = editor("");
    keys(&mut b, "i");
    assert!(!b.take_completion_request());
    keys(&mut b, "a");
    assert!(b.take_completion_request());
    assert!(!b.take_completion_request());
    keys(&mut b, " ");
    assert!(!b.take_completion_request());
    keys(&mut b, ".");
    assert!(b.take_completion_request());
}

#[test]
fn language_server_words_but_the_word_itself() {
    let mut b = editor("");
    keys(&mut b, "ipri");
    let offer = |w: &str| Completion { keyword: w.to_string(), doc: String::new() };
    b.poll_completions(Some(vec![offer("print"), offer("pri"), offer("private")]), None);
    match &b.mode {
        Mode::Insert(i) => {
            let words: Vec<String> = i.completions.iter().map(|c| c.keyword.clone()).collect();
            assert_eq!(words, vec!["print", "private"]);
        }
        _ => panic!("not in insert mode"),
    }
    keys(&mut b, "\t\t\n");
    b.event(Event::Key(Key::Esc));
    assert_eq!(b.buf.core.get_string(), "private");
}

#[test]
fn tabnine_word_replaces_its_old_prefix() {
    let mut b = editor("");
    keys(&mut b, "ilet x = foo  ");
    let t = TabNineCompletion {
        keyword: "foo_bar()".to_string(),
        doc: String::new(),
        old_prefix: "foo".to_string(),
    };
    b.poll_completions(None, Some(vec![t]));
    keys(&mut b, "\t\n");
    b.event(Event::Key(Key::Esc));
    assert_eq!(b.buf.core.get_string(), "let x = foo_bar()");
}

#[test]
fn tabnine_prefix_longer_than_the_text() {
    let mut b = editor("");
    keys(&mut b, "iab");
    let t = TabNineCompletion {
        keyword: "xyz".to_string(),
        doc: String::new(),
        old_prefix: "abcd".to_string(),
    };
    b.poll_completions(None, Some(vec![t]));
    keys(&mut b, "\t\n");
    b.event(Event::Key(Key::Esc));
    assert_eq!(b.buf.core.get_string(), "xyz");
}

#[test]
fn pick_wraps_when_offers_change() {
    let mut b = editor("");
    keys(&mut b, "iq");
    let offer = |w: &str| Completion { keyword: w.to_string(), doc: String::new() };
    b.poll_completions(Some(vec![offer("a"), offer("b"), offer("c")]), None);
    keys(&mut b, "\t\t\t");
    b.poll_completions(Some(vec![offer("x"), offer("y")]), None);
    match &b.mode {
        Mode::Insert(i) => assert_eq!(i.completion_index, Some(0)),
        _ => panic!("not in insert mode"),
    }
}
