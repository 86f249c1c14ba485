use accepted::completers::{CompletionItem, CompletionResponse};
use accepted::lsp::{lsp_dispatch, lsp_frame, lsp_step, LspAction, LspError, LspInput, LspReader};

fn line(s: &str) -> LspInput {
    LspInput::Line(s.to_string())
}

#[test]
fn a_message_is_read_by_its_length() {
    let mut r = LspReader::new();
    assert!(matches!(r.need(), LspAction::ReadLine));
    assert!(matches!(lsp_step(&mut r, line("Content-Length: 2\r\n")), LspAction::ReadLine));
    assert!(matches!(lsp_step(&mut r, line("Content-Type: x\r\n")), LspAction::ReadLine));
    assert!(matches!(lsp_step(&mut r, line("\r\n")), LspAction::ReadExact(2)));
    match lsp_step(&mut r, LspInput::Body(b"{}".to_vec())) {
        LspAction::Message(m) => assert_eq!(m, "{}"),
        _ => panic!("no message"),
    }
    assert!(matches!(r.need(), LspAction::ReadLine));
    assert!(matches!(lsp_step(&mut r, LspInput::Eof), LspAction::Stop));
}

#[test]
fn bad_headers_stop_the_reading() {
    let mut r = LspReader::new();
    assert!(matches!(lsp_step(&mut r, line("no separator")), LspAction::Error(LspError::BadHeader)));
    let mut r = LspReader::new();
    assert!(matches!(lsp_step(&mut r, line("a: b: c")), LspAction::Error(LspError::BadHeader)));
    let mut r = LspReader::new();
    assert!(matches!(lsp_step(&mut r, line("\n")), LspAction::Error(LspError::NoLength)));
    let mut r = LspReader::new();
    lsp_step(&mut r, line("Content-Length: x"));
    assert!(matches!(lsp_step(&mut r, line("")), LspAction::Error(LspError::BadLength)));
    let mut r = LspReader::new();
    lsp_step(&mut r, line("Content-Length: 1"));
    lsp_step(&mut r, line(""));
    assert!(matches!(lsp_step(&mut r, LspInput::Body(vec![0xff])), LspAction::Error(LspError::NotUtf8)));
    let mut r = LspReader::new();
    lsp_step(&mut r, line("Content-Length: 3"));
    lsp_step(&mut r, line(""));
    assert!(matches!(lsp_step(&mut r, LspInput::Eof), LspAction::Error(LspError::UnexpectedEof)));
}

#[test]
fn answers_are_dispatched_by_id() {
    assert!(matches!(lsp_dispatch(Some(0), None), LspAction::Initialized));
    assert!(matches!(lsp_dispatch(Some(7), None), LspAction::Ignore));
    assert!(matches!(lsp_dispatch(None, None), LspAction::Ignore));
    assert!(matches!(lsp_dispatch(Some(1), None), LspAction::Error(LspError::BadCompletion)));
    let items = vec![
        CompletionItem { label: "push".to_string(), detail: Some("fn".to_string()) },
        CompletionItem { label: "pop".to_string(), detail: None },
    ];
    match lsp_dispatch(Some(1), Some(CompletionResponse::Array(items))) {
        LspAction::Completions(c) => {
            assert_eq!(c.len(), 2);
            assert_eq!(c[0].keyword, "push");
            assert_eq!(c[0].doc, "fn");
            assert_eq!(c[1].doc, "");
        }
        _ => panic!("no completions"),
    }
}

#[test]
fn requests_are_framed_with_their_byte_length() {
    assert_eq!(lsp_frame("{}"), "Content-Length: 2\r\n\r\n{}");
    assert_eq!(lsp_frame("é"), "Content-Length: 2\r\n\r\né");
}
