//! What the editor sends to the completers (a language server, TabNine)
//! and how it reads their answers.
use vstd::prelude::*;

use crate::buffer::Buffer;
use crate::edit_core::buffer::{cursor_index, CoreBuffer};
use crate::edit_core::CursorBound;
use crate::mode::{Completion, TabNineCompletion};

verus! {

/// An entry of a language server's completion answer: the word, and its
/// detail if any.
pub struct CompletionItem {
    pub label: String,
    pub detail: Option<String>,
}

/// A language server's completion answer: the entries, bare or in a list.
pub enum CompletionResponse {
    Array(Vec<CompletionItem>),
    List { is_incomplete: bool, items: Vec<CompletionItem> },
}

/// The text of an optional string, empty when there is none.
pub open spec fn text_or_empty(s: Option<String>) -> Seq<char> {
    match s {
        Some(t) => t@,
        None => Seq::empty(),
    }
}

fn clone_or_empty(s: &Option<String>) -> (r: String)
    ensures
        r@ == text_or_empty(*s),
{
    match s {
        Some(t) => t.clone(),
        None => String::new(),
    }
}

/// `r` holds the words of a language server's answer with their details
/// (empty when missing), in the answer's order.
pub open spec fn extracted(response: CompletionResponse, r: Seq<Completion>) -> bool {
    let items = match response {
        CompletionResponse::Array(a) => a@,
        CompletionResponse::List { items, .. } => items@,
    };
    &&& r.len() == items.len()
    &&& forall|i: int|
        0 <= i < items.len() ==> (#[trigger] r[i]).keyword@ == items[i].label@ && r[i].doc@ == text_or_empty(
            items[i].detail,
        )
}

/// The language server's words with their details (empty when missing),
/// in the answer's order.
pub fn extract_completion(response: &CompletionResponse) -> (r: Vec<Completion>)
    ensures
        extracted(*response, r@),
{
    let items = match response {
        CompletionResponse::Array(a) => a,
        CompletionResponse::List { items, .. } => items,
    };
    let mut r: Vec<Completion> = Vec::new();
    let mut i: usize = 0;
    while i < items.len()
        invariant
            i <= items@.len(),
            r@.len() == i,
            forall|k: int|
                0 <= k < i ==> (#[trigger] r@[k]).keyword@ == items@[k].label@ && r@[k].doc@ == text_or_empty(
                    items@[k].detail,
                ),
        decreases items@.len() - i,
    {
        r.push(Completion { keyword: items[i].label.clone(), doc: clone_or_empty(&items[i].detail) });
        i += 1;
    }
    r
}

/// TabNine's description of an entry: plain text or markup.
pub enum Documentation {
    String(String),
    MarkupContent(String),
}

/// An entry of TabNine's answer: the text that replaces the old prefix,
/// and its description if any.
pub struct ResultEntry {
    pub new_prefix: String,
    pub documentation: Option<Documentation>,
}

/// TabNine's answer: the text before the cursor that its entries replace,
/// and the entries.
pub struct AutocompleteResponse {
    pub old_prefix: String,
    pub results: Vec<ResultEntry>,
}

/// The description shown for a TabNine entry: its documentation, else
/// `TabNine`.
pub open spec fn tabnine_doc(d: Option<Documentation>) -> Seq<char> {
    match d {
        Some(Documentation::String(s)) => s@,
        Some(Documentation::MarkupContent(s)) => s@,
        None => "TabNine"@,
    }
}

/// TabNine's entries as completions, each replacing the answer's old
/// prefix.
pub fn tabnine_completions(response: &AutocompleteResponse) -> (r: Vec<TabNineCompletion>)
    ensures
        r@.len() == response.results@.len(),
        forall|i: int|
            0 <= i < response.results@.len() ==> {
                let e = response.results@[i];
                &&& (#[trigger] r@[i]).keyword@ == e.new_prefix@
                &&& r@[i].doc@ == tabnine_doc(e.documentation)
                &&& r@[i].old_prefix@ == response.old_prefix@
            },
{
    let mut r: Vec<TabNineCompletion> = Vec::new();
    let n = response.results.len();
    let mut i: usize = 0;
    while i < n
        invariant
            n == response.results@.len(),
            i <= n,
            r@.len() == i,
            forall|k: int|
                0 <= k < i ==> {
                    let e = response.results@[k];
                    &&& (#[trigger] r@[k]).keyword@ == e.new_prefix@
                    &&& r@[k].doc@ == tabnine_doc(e.documentation)
                    &&& r@[k].old_prefix@ == response.old_prefix@
                },
        decreases n - i,
    {
        let e = &response.results[i];
        let doc = match &e.documentation {
            Some(Documentation::String(s)) => s.clone(),
            Some(Documentation::MarkupContent(s)) => s.clone(),
            None => {
                let t = String::from_str("TabNine");
                t
            },
        };
        r.push(TabNineCompletion { keyword: e.new_prefix.clone(), doc, old_prefix: response.old_prefix.clone() });
        i += 1;
    }
    r
}

/// What TabNine is asked: the text before and after the cursor and the
/// file's name.
pub struct AutocompleteArgs {
    pub before: String,
    pub after: String,
    pub filename: Option<String>,
    pub region_includes_beginning: bool,
    pub region_includes_end: bool,
    pub max_num_results: Option<usize>,
}

/// The question for TabNine about the cursor's place in the buffer.
pub fn autocomplete_args<B: CoreBuffer>(buf: &Buffer<B>) -> (r: AutocompleteArgs)
    requires
        buf.wf(),
    ensures
        ({
            let s = buf.core.text();
            let p = cursor_index(s, buf.core.cur());
            &&& r.before@ == s.take(p)
            &&& r.after@ == s.skip(p)
        }),
        r.filename == buf.path,
        r.region_includes_beginning,
        r.region_includes_end,
        r.max_num_results is None,
{
    proof {
        buf.core.lemma_wf();
    }
    let cur = buf.core.cursor();
    let before = buf.core.get_string_range((CursorBound::Unbounded, CursorBound::Excluded(cur)));
    let after = buf.core.get_string_range((CursorBound::Included(cur), CursorBound::Unbounded));
    let filename = match &buf.path {
        Some(p) => Some(p.clone()),
        None => None,
    };
    AutocompleteArgs {
        before,
        after,
        filename,
        region_includes_beginning: true,
        region_includes_end: true,
        max_num_results: None,
    }
}

} // verus!
