use accepted::buffer::Buffer;
use accepted::completers::{
    autocomplete_args, extract_completion, tabnine_completions, AutocompleteResponse,
    CompletionItem, CompletionResponse, Documentation, ResultEntry,
};
use accepted::edit_core::buffer::RopeyCoreBuffer;
use accepted::edit_core::Cursor;

fn item(label: &str, detail: Option<&str>) -> CompletionItem {
    CompletionItem { label: label.to_string(), detail: detail.map(|d| d.to_string()) }
}

#[test]
fn language_server_answers() {
    let a = CompletionResponse::Array(vec![item("push", Some("fn push(&mut self)")), item("pop", None)]);
    let c = extract_completion(&a);
    assert_eq!(c.len(), 2);
    assert_eq!(c[0].keyword, "push");
    assert_eq!(c[0].doc, "fn push(&mut self)");
    assert_eq!(c[1].doc, "");
    let l = CompletionResponse::List { is_incomplete: true, items: vec![item("len", None)] };
    let c = extract_completion(&l);
    assert_eq!(c.len(), 1);
    assert_eq!(c[0].keyword, "len");
}

#[test]
fn tabnine_answers() {
    let r = AutocompleteResponse {
        old_prefix: "pr".to_string(),
        results: vec![
            ResultEntry { new_prefix: "println!".to_string(), documentation: None },
            ResultEntry {
                new_prefix: "print!".to_string(),
                documentation: Some(Documentation::MarkupContent("macro".to_string())),
            },
            ResultEntry {
                new_prefix: "pr".to_string(),
                documentation: Some(Documentation::String("text".to_string())),
            },
        ],
    };
    let c = tabnine_completions(&r);
    assert_eq!(c.len(), 3);
    assert_eq!(c[0].keyword, "println!");
    assert_eq!(c[0].doc, "TabNine");
    assert_eq!(c[1].doc, "macro");
    assert_eq!(c[2].doc, "text");
    assert!(c.iter().all(|t| t.old_prefix == "pr"));
}

#[test]
fn tabnine_question_splits_at_the_cursor() {
    let mut buf: Buffer<RopeyCoreBuffer> = Buffer::new(4, false);
    buf.core.set_string("ab\ncd".to_string(), true);
    buf.core.set_cursor(Cursor { row: 1, col: 1 });
    buf.set_path(Some("x.rs".to_string()));
    let a = autocomplete_args(&buf);
    assert_eq!(a.before, "ab\nc");
    assert_eq!(a.after, "d");
    assert_eq!(a.filename, Some("x.rs".to_string()));
    assert!(a.region_includes_beginning && a.region_includes_end);
    assert!(a.max_num_results.is_none());
}
