//! Remote editing with `rmate`: reading the files a remote `rmate` sends
//! (line by line, and the text by its length in bytes) and writing what is
//! sent back when a file is saved.
use vstd::prelude::*;

use vstd::utf8::{decode_utf8, valid_utf8};
use vstd::string::StringSliceAdditionalSpecFns;

use crate::char_class::{is_whitespace, is_whitespace_spec};
use crate::numfmt::decimal;
use crate::snippets::{compare_keys, KeyOrder, SnippetMap};
use crate::strings::string_push;

verus! {

/// `s` without the whitespace at its end (as `str::trim_end` gives it).
pub open spec fn trim_end_spec(s: Seq<char>) -> Seq<char>
    decreases s.len(),
{
    if s.len() > 0 && is_whitespace_spec(s.last()) {
        trim_end_spec(s.drop_last())
    } else {
        s
    }
}

/// The index of the first `": "` in `s` at or after `from`.
pub open spec fn find_sep(s: Seq<char>, from: nat) -> Option<nat>
    decreases s.len() - from,
{
    if from + 1 >= s.len() {
        None
    } else if s[from as int] == ':' && s[from + 1 as int] == ' ' {
        Some(from)
    } else {
        find_sep(s, from + 1)
    }
}

/// A header line, `name: value`: the name (up to the first `": "`) and the
/// value (up to the next `": "`, without the whitespace at its end).
pub open spec fn header_spec(line: Seq<char>) -> Option<(Seq<char>, Seq<char>)> {
    match find_sep(line, 0) {
        Some(i) => {
            let rest = line.skip(i + 2 as int);
            let value = match find_sep(rest, 0) {
                Some(j) => rest.take(j as int),
                None => rest,
            };
            Some((line.take(i as int), trim_end_spec(value)))
        },
        None => None,
    }
}

/// A file sent by `rmate`: the name to show, its path on the remote
/// machine, the token to save it back with, and its text.
pub struct RmateFile {
    pub display_name: String,
    pub real_path: String,
    pub token: String,
    pub data: String,
}

/// What the reader needs next from the connection.
#[derive(Debug, Clone, Copy, PartialEq, Eq, Structural)]
pub enum Need {
    /// A line (with its line break).
    Line,
    /// That many bytes.
    Bytes(usize),
}

/// Where the reader is in a message.
#[derive(Debug, Clone, Copy, PartialEq, Eq, Structural)]
pub enum ReaderState {
    /// Waiting for `open`.
    Start,
    /// Reading header lines, up to the line `.`.
    Headers,
    /// Reading the text, of this many bytes.
    Data(usize),
    /// Reading the line break after the text.
    Tail,
}

/// Why the connection ends.
#[derive(Debug, Clone, Copy, PartialEq, Eq, Structural)]
pub enum RmateError {
    /// A message did not start with `open`.
    NotOpen,
    /// A header line without `": "`.
    BadHeader,
    /// The text's length is not a number.
    BadLength,
    /// The text is not UTF-8.
    BadData,
    /// A file came without a token.
    NoToken,
    /// A line came when bytes were needed, or bytes when a line was.
    WrongState,
}

/// Reads the messages of one `rmate` connection.
pub struct RmateReader {
    pub state: ReaderState,
    /// The headers of the message being read.
    pub headers: SnippetMap,
}

/// Calls `String::from_utf8`, which gives the string when the bytes are
/// UTF-8 and an error otherwise.
#[verifier::external_body]
pub(crate) fn string_from_utf8(bytes: Vec<u8>) -> (r: Option<String>)
    ensures
        match r {
            Some(s) => valid_utf8(bytes@) && s@ == decode_utf8(bytes@),
            None => !valid_utf8(bytes@),
        },
{
    match String::from_utf8(bytes) {
        Ok(s) => Some(s),
        Err(_) => None,
    }
}

/// The value of a header, or nothing.
pub open spec fn header_or_empty(h: SnippetMap, name: Seq<char>) -> Seq<char> {
    match h.get_spec(name) {
        Some(v) => v,
        None => Seq::empty(),
    }
}

pub(crate) fn get_or_empty(h: &SnippetMap, name: &str) -> (r: String)
    requires
        h.wf(),
    ensures
        r@ == header_or_empty(*h, name@),
{
    match h.get(name) {
        Some(v) => v.clone(),
        None => String::new(),
    }
}

/// The chars of `s` from `a` up to `b`, as a string.
pub(crate) fn substring(s: &str, a: usize, b: usize) -> (r: String)
    requires
        a <= b <= s@.len(),
    ensures
        r@ == s@.subrange(a as int, b as int),
{
    let mut r = String::new();
    let mut i = a;
    while i < b
        invariant
            a <= i <= b,
            b <= s@.len(),
            r@ == s@.subrange(a as int, i as int),
        decreases b - i,
    {
        string_push(&mut r, s.get_char(i));
        assert(s@.subrange(a as int, i + 1) =~= s@.subrange(a as int, i as int).push(s@[i as int]));
        i += 1;
    }
    r
}

/// Finds the first `": "` at or after `from`.
pub(crate) fn find_separator(s: &str, from: usize) -> (r: Option<usize>)
    requires
        from <= s@.len(),
    ensures
        match r {
            Some(i) => find_sep(s@, from as nat) == Some(i as nat) && i + 1 < s@.len(),
            None => find_sep(s@, from as nat) is None,
        },
{
    let n = s.unicode_len();
    let mut i = from;
    while i < n && n - i > 1
        invariant
            n == s@.len(),
            from <= i <= n,
            find_sep(s@, from as nat) == find_sep(s@, i as nat),
        decreases n - i,
    {
        if s.get_char(i) == ':' && s.get_char(i + 1) == ' ' {
            return Some(i);
        }
        i += 1;
    }
    None
}

/// `s` without the whitespace at its end.
pub(crate) fn trim_end(s: &str) -> (r: String)
    ensures
        r@ == trim_end_spec(s@),
{
    let mut k = s.unicode_len();
    assert(s@.take(k as int) =~= s@);
    while k > 0 && is_whitespace(s.get_char(k - 1))
        invariant
            k <= s@.len(),
            trim_end_spec(s@) == trim_end_spec(s@.take(k as int)),
        decreases k,
    {
        assert(s@.take(k as int).drop_last() =~= s@.take(k - 1));
        k -= 1;
    }
    assert(s@.take(k as int) =~= s@.subrange(0, k as int));
    substring(s, 0, k)
}

/// Reads a header line.
fn parse_header(line: &str) -> (r: Option<(String, String)>)
    ensures
        match r {
            Some(h) => header_spec(line@) == Some((h.0@, h.1@)),
            None => header_spec(line@) is None,
        },
{
    let n = line.unicode_len();
    let i = match find_separator(line, 0) {
        Some(i) => i,
        None => {
            return None;
        },
    };
    let name = substring(line, 0, i);
    let rest = substring(line, i + 2, n);
    assert(rest@ =~= line@.skip(i + 2));
    let value = match find_separator(rest.as_str(), 0) {
        Some(j) => substring(rest.as_str(), 0, j),
        None => substring(rest.as_str(), 0, rest.as_str().unicode_len()),
    };
    proof {
        assert(line@.take(i as int) =~= line@.subrange(0, i as int));
        match find_sep(rest@, 0) {
            Some(j) => {
                assert(rest@.take(j as int) =~= rest@.subrange(0, j as int));
            },
            None => {
                assert(rest@ =~= rest@.subrange(0, rest@.len() as int));
            },
        }
    }
    let trimmed = trim_end(value.as_str());
    Some((name, trimmed))
}

/// The file that the headers describe (none without a token).
pub open spec fn file_spec(h: SnippetMap) -> Option<(Seq<char>, Seq<char>, Seq<char>, Seq<char>)> {
    match h.get_spec("token"@) {
        Some(t) => Some(
            (header_or_empty(h, "display-name"@), header_or_empty(h, "real-path"@), t, header_or_empty(h, "data"@)),
        ),
        None => None,
    }
}

/// The chars of a string literal, revealed.
pub(crate) fn literal(s: &str) -> (r: String)
    ensures
        r@ == s@,
{
    String::from_str(s)
}

impl RmateReader {
    pub fn new() -> (r: Self)
        ensures
            r.state == ReaderState::Start,
            r.headers.wf(),
            r.headers.entries@.len() == 0,
    {
        RmateReader { state: ReaderState::Start, headers: SnippetMap::new() }
    }

    /// What to read next.
    pub fn need(&self) -> (n: Need)
        ensures
            n == match self.state {
                ReaderState::Data(len) => Need::Bytes(len),
                ReaderState::Tail => Need::Bytes(1),
                _ => Need::Line,
            },
    {
        match self.state {
            ReaderState::Data(len) => Need::Bytes(len),
            ReaderState::Tail => Need::Bytes(1),
            _ => Need::Line,
        }
    }

    /// A line read (with its line break): `open` starts a message; a header
    /// line is kept (`data: n` announces the text's length in bytes); the
    /// line `.` ends the message, which gives the file.
    pub fn feed_line(&mut self, line: &str) -> (r: Result<Option<RmateFile>, RmateError>)
        requires
            old(self).headers.wf(),
        ensures
            final(self).headers.wf(),
            old(self).state == ReaderState::Start ==> if trim_end_spec(line@) == "open"@ {
                &&& r == Ok::<Option<RmateFile>, RmateError>(None)
                &&& final(self).state == ReaderState::Headers
                &&& final(self).headers.entries@.len() == 0
            } else {
                r == Err::<Option<RmateFile>, RmateError>(RmateError::NotOpen)
            },
            old(self).state == ReaderState::Headers && line@ == ".\n"@ ==> match file_spec(old(self).headers) {
                Some(f) => {
                    &&& r matches Ok(Some(file)) && file.display_name@ == f.0 && file.real_path@ == f.1
                        && file.token@ == f.2 && file.data@ == f.3
                    &&& final(self).state == ReaderState::Start
                    &&& final(self).headers.entries@.len() == 0
                },
                None => r == Err::<Option<RmateFile>, RmateError>(RmateError::NoToken),
            },
            old(self).state == ReaderState::Headers && line@ != ".\n"@ ==> match header_spec(line@) {
                Some(h) => if h.0 == "data"@ {
                    match crate::mode::parse_usize_spec(h.1) {
                        Some(n) => {
                            &&& r == Ok::<Option<RmateFile>, RmateError>(None)
                            &&& final(self).state == ReaderState::Data(n as usize)
                            &&& final(self).headers == old(self).headers
                        },
                        None => r == Err::<Option<RmateFile>, RmateError>(RmateError::BadLength),
                    }
                } else {
                    &&& r == Ok::<Option<RmateFile>, RmateError>(None)
                    &&& final(self).state == ReaderState::Headers
                    &&& forall|q: Seq<char>| #[trigger]
                        final(self).headers.get_spec(q) == if q == h.0 {
                            Some(h.1)
                        } else {
                            old(self).headers.get_spec(q)
                        }
                },
                None => r == Err::<Option<RmateFile>, RmateError>(RmateError::BadHeader),
            },
            (old(self).state is Data || old(self).state is Tail) ==> r == Err::<Option<RmateFile>, RmateError>(
                RmateError::WrongState,
            ),
    {
        match self.state {
            ReaderState::Start => {
                let t = trim_end(line);
                let open = literal("open");
                if compare_keys(t.as_str(), open.as_str()) == KeyOrder::Equal {
                    self.state = ReaderState::Headers;
                    self.headers = SnippetMap::new();
                    Ok(None)
                } else {
                    Err(RmateError::NotOpen)
                }
            },
            ReaderState::Headers => {
                let end = literal(".\n");
                if compare_keys(line, end.as_str()) == KeyOrder::Equal {
                    let token = match self.headers.get("token") {
                        Some(t) => t.clone(),
                        None => {
                            return Err(RmateError::NoToken);
                        },
                    };
                    let file = RmateFile {
                        display_name: get_or_empty(&self.headers, "display-name"),
                        real_path: get_or_empty(&self.headers, "real-path"),
                        token,
                        data: get_or_empty(&self.headers, "data"),
                    };
                    self.state = ReaderState::Start;
                    self.headers = SnippetMap::new();
                    return Ok(Some(file));
                }
                match parse_header(line) {
                    Some((name, value)) => {
                        let data = literal("data");
                        if compare_keys(name.as_str(), data.as_str()) == KeyOrder::Equal {
                            let digits = crate::buffer_draw::chars_of(value.as_str());
                            match crate::mode::parse_usize(&digits) {
                                Some(n) => {
                                    self.state = ReaderState::Data(n);
                                    Ok(None)
                                },
                                None => Err(RmateError::BadLength),
                            }
                        } else {
                            self.headers.insert(name, value);
                            Ok(None)
                        }
                    },
                    None => Err(RmateError::BadHeader),
                }
            },
            _ => Err(RmateError::WrongState),
        }
    }

    /// Bytes read: the text of the message (kept as the `data` header), or
    /// the line break after it.
    pub fn feed_bytes(&mut self, bytes: Vec<u8>) -> (r: Result<(), RmateError>)
        requires
            old(self).headers.wf(),
        ensures
            final(self).headers.wf(),
            match old(self).state {
                ReaderState::Data(len) => if bytes@.len() != len {
                    r == Err::<(), RmateError>(RmateError::WrongState)
                } else if valid_utf8(bytes@) {
                    &&& r == Ok::<(), RmateError>(())
                    &&& final(self).state == ReaderState::Tail
                    &&& forall|q: Seq<char>| #[trigger]
                        final(self).headers.get_spec(q) == if q == "data"@ {
                            Some(decode_utf8(bytes@))
                        } else {
                            old(self).headers.get_spec(q)
                        }
                } else {
                    r == Err::<(), RmateError>(RmateError::BadData)
                },
                ReaderState::Tail => if bytes@.len() == 1 {
                    r == Ok::<(), RmateError>(()) && final(self).state == ReaderState::Headers
                        && final(self).headers == old(self).headers
                } else {
                    r == Err::<(), RmateError>(RmateError::WrongState)
                },
                _ => r == Err::<(), RmateError>(RmateError::WrongState),
            },
    {
        match self.state {
            ReaderState::Data(len) => {
                if bytes.len() != len {
                    return Err(RmateError::WrongState);
                }
                match string_from_utf8(bytes) {
                    Some(s) => {
                        self.headers.insert(literal("data"), s);
                        self.state = ReaderState::Tail;
                        Ok(())
                    },
                    None => Err(RmateError::BadData),
                }
            },
            ReaderState::Tail => {
                if bytes.len() == 1 {
                    self.state = ReaderState::Headers;
                    Ok(())
                } else {
                    Err(RmateError::WrongState)
                }
            },
            _ => Err(RmateError::WrongState),
        }
    }
}

/// The message that saves a file back: `save`, its token, the length of
/// the text in bytes, and the text, each on a line.
pub open spec fn save_message_spec(token: Seq<char>, data: Seq<char>, data_bytes: nat) -> Seq<char> {
    "save\ntoken: "@ + token + "\ndata: "@ + decimal(data_bytes) + "\n"@ + data + "\n"@
}

/// Writes the message that saves `data` back under `token`.
pub fn save_message(token: &str, data: &str) -> (r: String)
    ensures
        r@ == save_message_spec(token@, data@, data.len() as nat),
{
    let mut r = literal("save\ntoken: ");
    r.append(token);
    r.append(literal("\ndata: ").as_str());
    let digits = crate::numfmt::decimal_chars(data.len());
    let mut i: usize = 0;
    let ghost before = r@;
    while i < digits.len()
        invariant
            i <= digits@.len(),
            r@ == before + digits@.take(i as int),
        decreases digits@.len() - i,
    {
        string_push(&mut r, digits[i]);
        assert(digits@.take(i + 1) =~= digits@.take(i as int).push(digits@[i as int]));
        i += 1;
    }
    assert(digits@.take(digits@.len() as int) =~= digits@);
    let ghost with_digits = r@;
    r.append(literal("\n").as_str());
    r.append(data);
    r.append(literal("\n").as_str());
    assert(with_digits =~= "save\ntoken: "@ + token@ + "\ndata: "@ + decimal(data.len() as nat));
    assert(r@ =~= save_message_spec(token@, data@, data.len() as nat));
    r
}

} // verus!
