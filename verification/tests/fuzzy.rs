use accepted::buffer::Buffer;
use accepted::buffer_mode::{BufferMode, TabOperation};
use accepted::edit_core::buffer::RopeyCoreBuffer;
use accepted::event::{Event, Key};
use accepted::fuzzy::{fuzzy_match, FuzzyOpen};
use accepted::mode::{Mode, Request, Transition};

fn chars(s: &str) -> Vec<char> {
    s.chars().collect()
}

fn opener(names: &[&str]) -> FuzzyOpen {
    let mut f = FuzzyOpen::new();
    for n in names {
        f.push_line(n.to_string());
    }
    f
}

fn type_query(f: &mut FuzzyOpen, q: &str) {
    for c in q.chars() {
        assert!(matches!(f.event(Event::Key(Key::Char(c))), Transition::Nothing));
    }
}

fn names(f: &FuzzyOpen) -> Vec<String> {
    f.result.iter().map(|m| m.line.clone()).collect()
}

#[test]
fn every_word_must_match() {
    assert!(fuzzy_match("./src/main.rs", &chars("main")).is_some());
    assert!(fuzzy_match("./README.md", &chars("main")).is_none());
    assert!(fuzzy_match("./src/main.rs", &chars("src main")).is_some());
    assert!(fuzzy_match("./src/main.rs", &chars("src zzz")).is_none());
    let (score, idx) = fuzzy_match("abc", &chars("   ")).unwrap();
    assert_eq!(score, i64::MIN);
    assert!(idx.is_empty());
}

#[test]
fn matched_positions_are_reported() {
    let (_, idx) = fuzzy_match("xaxbx", &chars("ab")).unwrap();
    let mut idx = idx;
    idx.sort();
    assert_eq!(idx, vec![1, 3]);
}

#[test]
fn empty_query_lists_in_order_found() {
    let mut f = opener(&["./b", "./a", "./c"]);
    assert_eq!(names(&f), vec!["./b", "./a", "./c"]);
    f.update();
    assert_eq!(names(&f), vec!["./b", "./a", "./c"]);
    assert!(f.result.iter().all(|m| m.score == 0));
}

#[test]
fn query_keeps_only_matches() {
    let mut f = opener(&["./a.txt", "./src/main.rs", "./README.md"]);
    type_query(&mut f, "main");
    assert_eq!(names(&f), vec!["./src/main.rs"]);
    f.event(Event::Key(Key::Backspace));
    assert_eq!(f.line_buf, chars("mai"));
    f.push_line("./domain.rs".to_string());
    assert!(names(&f).contains(&"./domain.rs".to_string()));
}

#[test]
fn ranking_is_by_score_then_order() {
    let mut f = opener(&["./x/abc_def", "./abc", "./zzz", "./abc"]);
    type_query(&mut f, "abc");
    let r = &f.result;
    assert_eq!(r.len(), 3);
    for w in r.windows(2) {
        assert!(w[0].score > w[1].score || (w[0].score == w[1].score && w[0].index < w[1].index));
    }
}

#[test]
fn picking_and_opening() {
    let mut f = opener(&["./one", "./two", "./three"]);
    assert_eq!(f.index, 0);
    f.event(Event::Key(Key::Up));
    f.event(Event::Key(Key::Up));
    f.event(Event::Key(Key::Up));
    assert_eq!(f.index, 2);
    f.event(Event::Key(Key::Down));
    assert_eq!(f.index, 1);
    match f.event(Event::Key(Key::Char('\n'))) {
        Transition::Request(Request::Open(p)) => assert_eq!(p, "./two"),
        _ => panic!("expected a file to open"),
    }
    let mut empty = FuzzyOpen::new();
    assert!(matches!(empty.event(Event::Key(Key::Char('\n'))), Transition::Trans(Mode::Normal(_))));
    assert!(matches!(f.event(Event::Key(Key::Esc)), Transition::Trans(Mode::Normal(_))));
}

#[test]
fn fuzzy_open_from_the_prefix_key() {
    let buf: Buffer<RopeyCoreBuffer> = Buffer::new(4, false);
    let mut b = BufferMode::new(buf);
    b.event(Event::Key(Key::Char(' ')));
    b.event(Event::Key(Key::Char('f')));
    assert!(matches!(b.mode, Mode::FuzzyOpen(_)));
    assert!(b.take_file_list_request());
    assert!(!b.take_file_list_request());
    b.push_file("./lib.rs".to_string());
    b.push_file("./main.rs".to_string());
    for c in "main".chars() {
        b.event(Event::Key(Key::Char(c)));
    }
    match b.event(Event::Key(Key::Char('\n'))) {
        TabOperation::Request(Request::Open(p)) => assert_eq!(p, "./main.rs"),
        _ => panic!("expected a file to open"),
    }
    assert!(matches!(b.mode, Mode::Normal(_)));
}
