//! The wire format of a language server's answers: header lines up to a
//! blank one, `Content-Length` bytes of UTF-8, and what the editor does
//! with an answer; and the framing of what it sends. The program around
//! runs the server, reads and writes, and parses the JSON.
use vstd::prelude::*;

use crate::char_class::{is_whitespace, is_whitespace_spec};
use crate::completers::{extract_completion, extracted, CompletionResponse};
use crate::mode::{parse_usize, parse_usize_spec, Completion};
use crate::numfmt::decimal;
use crate::rmate::{find_sep, find_separator, literal, string_from_utf8, substring, trim_end, trim_end_spec};
use crate::snippets::SnippetMap;
use crate::strings::string_push;

verus! {

/// The id of the initialize request.
pub const ID_INIT: u64 = 0;

/// The id of the completion requests.
pub const ID_COMPLETION: u64 = 1;

/// What was read from the server.
pub enum LspInput {
    /// A line (its line break may be there or not).
    Line(String),
    /// The bytes of a message's content.
    Body(Vec<u8>),
    /// The server closed its output.
    Eof,
}

/// Why reading from the server stops.
#[derive(Debug, Clone, Copy, PartialEq, Eq, Structural)]
pub enum LspError {
    /// A header line that is not `name: value`.
    BadHeader,
    /// The headers end without `Content-Length`.
    NoLength,
    /// `Content-Length` is not a number.
    BadLength,
    /// The content is not UTF-8.
    NotUtf8,
    /// The output ended inside a message.
    UnexpectedEof,
    /// A line where the content was awaited, or the other way round.
    WrongInput,
    /// A completion answer whose result is not a completion list.
    BadCompletion,
}

/// What to do next.
pub enum LspAction {
    /// Read a line.
    ReadLine,
    /// Read exactly this many bytes.
    ReadExact(usize),
    /// A message's content, to be parsed as JSON.
    Message(String),
    /// The server is initialized.
    Initialized,
    /// The server's completions.
    Completions(Vec<Completion>),
    /// An answer of no interest.
    Ignore,
    /// The server's output ended between messages.
    Stop,
    Error(LspError),
}

/// Where the reader stands: in the headers, or awaiting the content.
#[derive(Debug, Clone, Copy, PartialEq, Eq, Structural)]
pub enum LspState {
    Headers,
    Body(usize),
}

/// Reads a language server's output, one line or content at a time.
pub struct LspReader {
    pub state: LspState,
    /// The headers of the message being read.
    pub headers: SnippetMap,
}

/// `s` without the whitespace at its start.
pub open spec fn trim_start_spec(s: Seq<char>) -> Seq<char>
    decreases s.len(),
{
    if s.len() > 0 && is_whitespace_spec(s[0]) {
        trim_start_spec(s.drop_first())
    } else {
        s
    }
}

/// `s` without the whitespace at either end.
pub open spec fn trim_spec(s: Seq<char>) -> Seq<char> {
    trim_end_spec(trim_start_spec(s))
}

/// A header line cut at its `": "`: the name and the value; `None` unless
/// the line holds exactly one `": "` (splitting at `": "` gives two parts).
pub open spec fn split_header(line: Seq<char>) -> Option<(Seq<char>, Seq<char>)> {
    match find_sep(line, 0) {
        Some(i) => {
            let rest = line.skip(i + 2 as int);
            if find_sep(rest, 0) is None {
                Some((line.take(i as int), rest))
            } else {
                None
            }
        },
        None => None,
    }
}

/// The content length the headers give.
pub open spec fn content_length(h: SnippetMap) -> Option<Option<nat>> {
    match h.get_spec("Content-Length"@) {
        Some(v) => Some(parse_usize_spec(v)),
        None => None,
    }
}

/// `s` without the whitespace at either end.
fn trim(s: &str) -> (r: String)
    ensures
        r@ == trim_spec(s@),
{
    let n = s.unicode_len();
    let mut k: usize = 0;
    assert(s@.skip(0) =~= s@);
    while k < n && is_whitespace(s.get_char(k))
        invariant
            n == s@.len(),
            k <= n,
            trim_start_spec(s@) == trim_start_spec(s@.skip(k as int)),
        decreases n - k,
    {
        assert(s@.skip(k as int).drop_first() =~= s@.skip(k + 1));
        k += 1;
    }
    let rest = substring(s, k, n);
    assert(rest@ =~= s@.skip(k as int));
    trim_end(rest.as_str())
}

impl LspReader {
    /// At the start of a message.
    pub fn new() -> (r: Self)
        ensures
            r.state == LspState::Headers,
            r.headers.wf(),
            r.headers.entries@.len() == 0,
    {
        LspReader { state: LspState::Headers, headers: SnippetMap::new() }
    }

    /// What to read first.
    pub fn need(&self) -> (a: LspAction)
        ensures
            match self.state {
                LspState::Headers => a is ReadLine,
                LspState::Body(n) => a == LspAction::ReadExact(n),
            },
    {
        match self.state {
            LspState::Headers => LspAction::ReadLine,
            LspState::Body(n) => LspAction::ReadExact(n),
        }
    }
}

/// Takes what was read and says what to do next. In the headers a
/// trimmed line `name: value` is kept; the blank line ends them and asks
/// for `Content-Length` bytes; the content, decoded as UTF-8, is handed
/// out for parsing and a new message begins. The end of the output
/// between messages stops the reading; anything else that does not fit
/// is an error.
pub fn lsp_step(reader: &mut LspReader, input: LspInput) -> (a: LspAction)
    requires
        old(reader).headers.wf(),
    ensures
        final(reader).headers.wf(),
        match (old(reader).state, input) {
            (LspState::Headers, LspInput::Line(l)) => {
                let t = trim_spec(l@);
                if t.len() == 0 {
                    match content_length(old(reader).headers) {
                        Some(Some(n)) => {
                            &&& a == LspAction::ReadExact(n as usize)
                            &&& final(reader).state == LspState::Body(n as usize)
                            &&& final(reader).headers == old(reader).headers
                        },
                        Some(None) => a == LspAction::Error(LspError::BadLength),
                        None => a == LspAction::Error(LspError::NoLength),
                    }
                } else {
                    match split_header(t) {
                        Some(h) => {
                            &&& a is ReadLine
                            &&& final(reader).state == LspState::Headers
                            &&& forall|q: Seq<char>| #[trigger]
                                final(reader).headers.get_spec(q) == if q == h.0 {
                                    Some(h.1)
                                } else {
                                    old(reader).headers.get_spec(q)
                                }
                        },
                        None => a == LspAction::Error(LspError::BadHeader),
                    }
                }
            },
            (LspState::Headers, LspInput::Eof) => a is Stop,
            (LspState::Body(n), LspInput::Body(b)) => if b@.len() != n {
                a == LspAction::Error(LspError::WrongInput)
            } else if vstd::utf8::valid_utf8(b@) {
                &&& a matches LspAction::Message(m) && m@ == vstd::utf8::decode_utf8(b@)
                &&& final(reader).state == LspState::Headers
                &&& final(reader).headers.entries@.len() == 0
            } else {
                a == LspAction::Error(LspError::NotUtf8)
            },
            (LspState::Body(_), LspInput::Eof) => a == LspAction::Error(LspError::UnexpectedEof),
            _ => a == LspAction::Error(LspError::WrongInput),
        },
{
    match (reader.state, input) {
        (LspState::Headers, LspInput::Line(l)) => {
            let t = trim(l.as_str());
            if t.as_str().unicode_len() == 0 {
                let v = match reader.headers.get("Content-Length") {
                    Some(v) => v,
                    None => {
                        return LspAction::Error(LspError::NoLength);
                    },
                };
                let digits = crate::buffer_draw::chars_of(v.as_str());
                match parse_usize(&digits) {
                    Some(n) => {
                        reader.state = LspState::Body(n);
                        LspAction::ReadExact(n)
                    },
                    None => LspAction::Error(LspError::BadLength),
                }
            } else {
                let s = t.as_str();
                let n = s.unicode_len();
                let i = match find_separator(s, 0) {
                    Some(i) => i,
                    None => {
                        return LspAction::Error(LspError::BadHeader);
                    },
                };
                let rest = substring(s, i + 2, n);
                assert(rest@ =~= t@.skip(i + 2));
                if find_separator(rest.as_str(), 0).is_some() {
                    return LspAction::Error(LspError::BadHeader);
                }
                let name = substring(s, 0, i);
                assert(name@ =~= t@.take(i as int));
                reader.headers.insert(name, rest);
                LspAction::ReadLine
            }
        },
        (LspState::Headers, LspInput::Eof) => LspAction::Stop,
        (LspState::Body(n), LspInput::Body(b)) => {
            if b.len() != n {
                return LspAction::Error(LspError::WrongInput);
            }
            match string_from_utf8(b) {
                Some(m) => {
                    reader.state = LspState::Headers;
                    reader.headers = SnippetMap::new();
                    LspAction::Message(m)
                },
                None => LspAction::Error(LspError::NotUtf8),
            }
        },
        (LspState::Body(_), LspInput::Eof) => LspAction::Error(LspError::UnexpectedEof),
        _ => LspAction::Error(LspError::WrongInput),
    }
}

/// What to do with an answer: the initialize request's answer says the
/// server is ready; the completion request's answer gives its words (an
/// error where its result is not a completion list); other answers are of
/// no interest.
pub fn lsp_dispatch(id: Option<u64>, result: Option<CompletionResponse>) -> (a: LspAction)
    ensures
        id == Some(ID_INIT) ==> a is Initialized,
        id == Some(ID_COMPLETION) ==> match result {
            Some(r) => a matches LspAction::Completions(v) && extracted(r, v@),
            None => a == LspAction::Error(LspError::BadCompletion),
        },
        !(id == Some(ID_INIT) || id == Some(ID_COMPLETION)) ==> a is Ignore,
{
    match id {
        Some(0) => LspAction::Initialized,
        Some(1) => match result {
            Some(r) => LspAction::Completions(extract_completion(&r)),
            None => LspAction::Error(LspError::BadCompletion),
        },
        _ => LspAction::Ignore,
    }
}

/// A message as sent to the server: the `Content-Length` header (the
/// content's length in bytes), a blank line, then the content.
pub open spec fn frame_spec(content: Seq<char>, content_bytes: nat) -> Seq<char> {
    "Content-Length: "@ + decimal(content_bytes) + "\r\n\r\n"@ + content
}

/// Frames `content` for the server.
pub fn lsp_frame(content: &str) -> (r: String)
    ensures
        r@ == frame_spec(content@, content.len() as nat),
{
    let mut r = literal("Content-Length: ");
    let digits = crate::numfmt::decimal_chars(content.len());
    let mut i: usize = 0;
    let ghost before = r@;
    while i < digits.len()
        invariant
            i <= digits@.len(),
            r@ == before + digits@.take(i as int),
        decreases digits@.len() - i,
    {
        string_push(&mut r, digits[i]);
        assert(digits@.take(i + 1) =~= digits@.take(i as int).push(digits@[i as int]));
        i += 1;
    }
    assert(digits@.take(digits@.len() as int) =~= digits@);
    r.append(literal("\r\n\r\n").as_str());
    r.append(content);
    assert(r@ =~= frame_spec(content@, content.len() as nat));
    r
}

} // verus!
