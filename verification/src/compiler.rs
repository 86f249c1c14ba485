//! Diagnostics of a compiler run and the identity of a run.
use vstd::prelude::*;

use crate::edit_core::{Cursor, CursorRange, Id};

verus! {

/// One diagnostic: its message, the line it is on (from 0), its level
/// ("error", "warning", ...) and the span of text it is about.
#[derive(Debug, Clone)]
pub struct CompilerOutput {
    pub message: String,
    pub line: usize,
    pub level: String,
    pub span: CursorRange,
}

/// Which edit of the text a compiler run was started for, and whether it
/// was an optimised build.
#[derive(Debug, Clone, Copy, PartialEq, Eq, Structural, Default)]
pub struct CompileId {
    pub id: Id,
    pub is_optimize: bool,
}

/// What a compiler run gave: whether it succeeded and its diagnostics.
#[derive(Debug, Default)]
pub struct CompileResult {
    pub success: bool,
    pub messages: Vec<CompilerOutput>,
}

/// The index of the first `c` in `s` at or after `from`.
pub open spec fn find_from(s: Seq<char>, c: char, from: nat) -> Option<nat>
    decreases s.len() - from,
{
    if from >= s.len() {
        None
    } else if s[from as int] == c {
        Some(from)
    } else {
        find_from(s, c, from + 1)
    }
}

/// Where the run of ASCII digits starting at `from` ends.
pub open spec fn digits_end(s: Seq<char>, from: nat) -> nat
    decreases s.len() - from,
{
    if from < s.len() && '0' <= s[from as int] && s[from as int] <= '9' {
        digits_end(s, from + 1)
    } else {
        from
    }
}

/// The fields of a gcc or clang diagnostic line, `file:line:col: level:
/// message`: the line digits, the column digits, the level and the
/// message (up to the end of the line).
pub open spec fn gcc_fields(s: Seq<char>) -> Option<(Seq<char>, Seq<char>, Seq<char>, Seq<char>)> {
    match find_from(s, ':', 0) {
        None => None,
        Some(a) => {
            let b1 = digits_end(s, a + 1);
            if !(b1 < s.len() && s[b1 as int] == ':') {
                None
            } else {
                let b2 = digits_end(s, b1 + 1);
                if !(b2 + 1 < s.len() && s[b2 as int] == ':' && s[b2 + 1 as int] == ' ') {
                    None
                } else {
                    match find_from(s, ':', b2 + 2) {
                        None => None,
                        Some(c) => if !(c + 1 < s.len() && s[c + 1 as int] == ' ') {
                            None
                        } else {
                            let e = match find_from(s, '\n', c + 2) {
                                Some(e) => e,
                                None => s.len(),
                            };
                            Some(
                                (
                                    s.subrange(a + 1 as int, b1 as int),
                                    s.subrange(b1 + 1 as int, b2 as int),
                                    s.subrange(b2 + 2 as int, c as int),
                                    s.subrange(c + 2 as int, e as int),
                                ),
                            )
                        },
                    }
                }
            }
        },
    }
}

/// A diagnostic line of gcc or clang as a diagnostic: line and column
/// counted from 1 in the line, from 0 in the diagnostic (a line whose
/// numbers are missing, zero or too large gives none).
pub open spec fn gcc_output_spec(s: Seq<char>) -> Option<(nat, nat, Seq<char>, Seq<char>)> {
    match gcc_fields(s) {
        Some(f) => match (crate::mode::parse_usize_spec(f.0), crate::mode::parse_usize_spec(f.1)) {
            (Some(l), Some(c)) => if l >= 1 && c >= 1 && f.0.len() > 0 && f.0[0] != '+' && f.1.len() > 0
                && f.1[0] != '+' {
                Some(((l - 1) as nat, (c - 1) as nat, f.2, f.3))
            } else {
                None
            },
            _ => None,
        },
        None => None,
    }
}

/// Finds `c` at or after `from`.
fn find_char(s: &Vec<char>, c: char, from: usize) -> (r: Option<usize>)
    requires
        from <= s@.len(),
    ensures
        match r {
            Some(i) => find_from(s@, c, from as nat) == Some(i as nat),
            None => find_from(s@, c, from as nat) is None,
        },
        r matches Some(i) ==> from <= i < s@.len() && s@[i as int] == c,
{
    let mut i = from;
    while i < s.len()
        invariant
            from <= i <= s@.len(),
            find_from(s@, c, from as nat) == find_from(s@, c, i as nat),
        decreases s@.len() - i,
    {
        if s[i] == c {
            return Some(i);
        }
        i += 1;
    }
    None
}

/// Skips the ASCII digits from `from` on.
fn skip_digits(s: &Vec<char>, from: usize) -> (r: usize)
    requires
        from <= s@.len(),
    ensures
        r == digits_end(s@, from as nat),
        from <= r <= s@.len(),
{
    let mut i = from;
    while i < s.len() && '0' <= s[i] && s[i] <= '9'
        invariant
            from <= i <= s@.len(),
            digits_end(s@, from as nat) == digits_end(s@, i as nat),
        decreases s@.len() - i,
    {
        i += 1;
    }
    i
}

/// The chars of `s` from `a` up to `b`, as a string.
fn chars_between(s: &Vec<char>, a: usize, b: usize) -> (r: String)
    requires
        a <= b <= s@.len(),
    ensures
        r@ == s@.subrange(a as int, b as int),
{
    let mut r = String::new();
    let mut i = a;
    while i < b
        invariant
            a <= i <= b,
            b <= s@.len(),
            r@ == s@.subrange(a as int, i as int),
        decreases b - i,
    {
        crate::strings::string_push(&mut r, s[i]);
        assert(s@.subrange(a as int, i + 1) =~= s@.subrange(a as int, i as int).push(s@[i as int]));
        i += 1;
    }
    r
}

/// The chars of `s` from `a` up to `b`.
fn slice_chars(s: &Vec<char>, a: usize, b: usize) -> (r: Vec<char>)
    requires
        a <= b <= s@.len(),
    ensures
        r@ == s@.subrange(a as int, b as int),
{
    let mut r: Vec<char> = Vec::new();
    let mut i = a;
    while i < b
        invariant
            a <= i <= b,
            b <= s@.len(),
            r@ == s@.subrange(a as int, i as int),
        decreases b - i,
    {
        r.push(s[i]);
        assert(s@.subrange(a as int, i + 1) =~= s@.subrange(a as int, i as int).push(s@[i as int]));
        i += 1;
    }
    r
}

/// Reads a diagnostic line of gcc or clang.
pub fn parse_gcc_line(line: &str) -> (r: Option<CompilerOutput>)
    ensures
        match r {
            Some(o) => gcc_output_spec(line@) == Some((o.line as nat, o.span.0.col as nat, o.level@, o.message@))
                && o.span.0 == o.span.1 && o.span.0.row == o.line,
            None => gcc_output_spec(line@) is None,
        },
{
    let s = crate::buffer_draw::chars_of(line);
    let a = match find_char(&s, ':', 0) {
        Some(a) => a,
        None => {
            return None;
        },
    };
    let b1 = skip_digits(&s, a + 1);
    if !(b1 < s.len() && s[b1] == ':') {
        return None;
    }
    let b2 = skip_digits(&s, b1 + 1);
    if !(b2 < s.len() && s[b2] == ':' && b2 + 1 < s.len() && s[b2 + 1] == ' ') {
        return None;
    }
    let c = match find_char(&s, ':', b2 + 2) {
        Some(c) => c,
        None => {
            return None;
        },
    };
    if !(c + 1 < s.len() && s[c + 1] == ' ') {
        return None;
    }
    let e = match find_char(&s, '\n', c + 2) {
        Some(e) => e,
        None => s.len(),
    };
    let ld = slice_chars(&s, a + 1, b1);
    let cd = slice_chars(&s, b1 + 1, b2);
    if ld.len() == 0 || cd.len() == 0 || ld[0] == '+' || cd[0] == '+' {
        return None;
    }
    let l = match crate::mode::parse_usize(&ld) {
        Some(l) => l,
        None => {
            return None;
        },
    };
    let col = match crate::mode::parse_usize(&cd) {
        Some(c) => c,
        None => {
            return None;
        },
    };
    if l == 0 || col == 0 {
        return None;
    }
    let at = Cursor { row: l - 1, col: col - 1 };
    Some(
        CompilerOutput {
            message: chars_between(&s, c + 2, e),
            line: l - 1,
            level: chars_between(&s, b2 + 2, c),
            span: CursorRange(at, at),
        },
    )
}

/// A span of a rustc diagnostic: lines and columns counted from 1, and
/// whether it is where the problem is.
pub struct DiagnosticSpan {
    pub line_start: usize,
    pub line_end: usize,
    pub column_start: usize,
    pub column_end: usize,
    pub is_primary: bool,
}

/// A rustc diagnostic (from `--error-format=json`): the fields the editor
/// reads.
pub struct Diagnostic {
    pub message: String,
    pub level: String,
    pub spans: Vec<DiagnosticSpan>,
}

/// The index of the first primary span.
pub open spec fn first_primary(spans: Seq<DiagnosticSpan>) -> Option<int> {
    if exists|i: int| 0 <= i < spans.len() && (#[trigger] spans[i]).is_primary {
        Some(
            choose|i: int|
                0 <= i < spans.len() && (#[trigger] spans[i]).is_primary && forall|j: int|
                    0 <= j < i ==> !(#[trigger] spans[j]).is_primary,
        )
    } else {
        None
    }
}

/// The span's numbers are counted from 1, as rustc writes them.
pub open spec fn span_ok(sp: DiagnosticSpan) -> bool {
    sp.line_start >= 1 && sp.line_end >= 1 && sp.column_start >= 1 && sp.column_end >= 1
}

/// A rustc diagnostic as the editor shows it: at its first primary span,
/// from its start to the char before its end (counted from 0).
pub fn diagnostic_output(d: Diagnostic) -> (r: Option<CompilerOutput>)
    requires
        forall|i: int| 0 <= i < d.spans@.len() && (#[trigger] d.spans@[i]).is_primary ==> span_ok(d.spans@[i]),
    ensures
        match first_primary(d.spans@) {
            Some(i) => {
                let sp = d.spans@[i];
                &&& r matches Some(o)
                &&& o.message == d.message
                &&& o.level == d.level
                &&& o.line == sp.line_start - 1
                &&& o.span.0 == Cursor { row: (sp.line_start - 1) as usize, col: (sp.column_start - 1) as usize }
                &&& o.span.1 == Cursor {
                    row: (sp.line_end - 1) as usize,
                    col: (if sp.column_end >= 2 {
                        sp.column_end - 2
                    } else {
                        0
                    }) as usize,
                }
            },
            None => r is None,
        },
{
    let n = d.spans.len();
    let mut i: usize = 0;
    while i < n
        invariant
            n == d.spans@.len(),
            i <= n,
            forall|j: int| 0 <= j < i ==> !(#[trigger] d.spans@[j]).is_primary,
            forall|j: int| 0 <= j < d.spans@.len() && (#[trigger] d.spans@[j]).is_primary ==> span_ok(d.spans@[j]),
        decreases n - i,
    {
        if d.spans[i].is_primary {
            let sp = &d.spans[i];
            let start = Cursor { row: sp.line_start - 1, col: sp.column_start - 1 };
            let mut end = Cursor { row: sp.line_end - 1, col: sp.column_end - 1 };
            if end.col > 0 {
                end.col = end.col - 1;
            }
            let line = sp.line_start - 1;
            proof {
                assert(d.spans@[i as int].is_primary);
                let k = first_primary(d.spans@)->0;
                assert(k == i) by {
                    if k < i {
                        assert(!d.spans@[k].is_primary);
                    }
                    if k > i {
                        assert(!d.spans@[i as int].is_primary);
                    }
                }
            }
            return Some(CompilerOutput { message: d.message, line, level: d.level, span: CursorRange(start, end) });
        }
        i += 1;
    }
    None
}

/// `s` with every occurrence of `pat` replaced by `rep`, from the left,
/// occurrences not overlapping (as `str::replace` does).
pub open spec fn replace_all(s: Seq<char>, pat: Seq<char>, rep: Seq<char>) -> Seq<char>
    decreases s.len(),
{
    if s.len() == 0 {
        Seq::empty()
    } else if pat.len() > 0 && pat.len() <= s.len() && s.take(pat.len() as int) == pat {
        rep + replace_all(s.skip(pat.len() as int), pat, rep)
    } else {
        seq![s[0]] + replace_all(s.drop_first(), pat, rep)
    }
}

/// `pat` starts at index `i` of `s`.
fn starts_at(s: &Vec<char>, i: usize, pat: &Vec<char>) -> (r: bool)
    requires
        i <= s@.len(),
    ensures
        r == (pat@.len() <= s@.skip(i as int).len() && s@.skip(i as int).take(pat@.len() as int) == pat@),
{
    let sl = s.len();
    if pat.len() > sl - i {
        return false;
    }
    let mut k: usize = 0;
    while k < pat.len()
        invariant
            sl == s@.len(),
            i + pat@.len() <= s@.len(),
            k <= pat@.len(),
            forall|j: int| 0 <= j < k ==> s@[i + j] == pat@[j],
        decreases pat@.len() - k,
    {
        assert(i + k < s@.len());
        if s[i + k] != pat[k] {
            assert(s@.skip(i as int).take(pat@.len() as int)[k as int] == s@[i + k]);
            return false;
        }
        k += 1;
    }
    assert(s@.skip(i as int).take(pat@.len() as int) =~= pat@);
    true
}

/// Replaces every occurrence of `pat` in `s` by `rep`.
pub fn replace(s: &Vec<char>, pat: &Vec<char>, rep: &Vec<char>) -> (r: Vec<char>)
    requires
        pat@.len() > 0,
    ensures
        r@ == replace_all(s@, pat@, rep@),
{
    let mut out: Vec<char> = Vec::new();
    let mut i: usize = 0;
    assert(s@.skip(0) =~= s@);
    while i < s.len()
        invariant
            i <= s@.len(),
            pat@.len() > 0,
            replace_all(s@, pat@, rep@) == out@ + replace_all(s@.skip(i as int), pat@, rep@),
        decreases s@.len() - i,
    {
        let ghost t = s@.skip(i as int);
        if starts_at(s, i, pat) {
            let ghost before = out@;
            let mut k: usize = 0;
            while k < rep.len()
                invariant
                    k <= rep@.len(),
                    out@ == before + rep@.take(k as int),
                decreases rep@.len() - k,
            {
                out.push(rep[k]);
                assert(rep@.take(k + 1) =~= rep@.take(k as int).push(rep@[k as int]));
                k += 1;
            }
            assert(rep@.take(rep@.len() as int) =~= rep@);
            assert(t.skip(pat@.len() as int) =~= s@.skip(i + pat@.len()));
            assert(out@ + replace_all(s@.skip(i + pat@.len()), pat@, rep@) =~= before + (rep@
                + replace_all(t.skip(pat@.len() as int), pat@, rep@)));
            i = i + pat.len();
        } else {
            let ghost before = out@;
            out.push(s[i]);
            assert(t.drop_first() =~= s@.skip(i + 1));
            assert(t[0] == s@[i as int]);
            assert(out@ + replace_all(s@.skip(i + 1), pat@, rep@) =~= before + (seq![t[0]] + replace_all(
                t.drop_first(),
                pat@,
                rep@,
            )));
            i = i + 1;
        }
    }
    assert(s@.skip(i as int) =~= Seq::<char>::empty());
    assert(out@ + Seq::<char>::empty() =~= out@);
    out
}

/// An argument of the compile command with the file's path and stem put
/// in for `$FilePath$` and `$FileStem$`.
pub open spec fn filled_arg(a: Seq<char>, path: Seq<char>, stem: Seq<char>) -> Seq<char> {
    replace_all(replace_all(a, "$FilePath$"@, path), "$FileStem$"@, stem)
}

/// The stem of the file, or nothing.
pub open spec fn stem_or_empty(path: Seq<char>) -> Seq<char> {
    match crate::paths::file_stem_spec(path) {
        Some(s) => s,
        None => Seq::empty(),
    }
}

/// The program and the arguments that compile the file at `path`: the
/// first word of the command, then the others (and, for an optimized
/// build, the optimize options), each with the file's path and stem put in;
/// none for an empty command.
pub fn compile_command(config: &crate::config::CompilerConfig, path: &str, is_optimize: bool) -> (r: Option<
    (String, Vec<Vec<char>>),
>)
    ensures
        r is None <==> config.command@.len() == 0,
        r matches Some(c) ==> ({
            let stem = stem_or_empty(path@);
            let words = if is_optimize {
                config.command@.drop_first() + config.optimize_option@
            } else {
                config.command@.drop_first()
            };
            &&& c.0@ == config.command@[0]@
            &&& c.1@.len() == words.len()
            &&& forall|k: int| 0 <= k < words.len() ==> (#[trigger] c.1@[k])@ == filled_arg(words[k]@, path@, stem)
        }),
{
    if config.command.len() == 0 {
        return None;
    }
    let stem = match crate::paths::file_stem(path) {
        Some(s) => crate::buffer_draw::chars_of(s.as_str()),
        None => Vec::new(),
    };
    let p = crate::buffer_draw::chars_of(path);
    let fp = crate::buffer_draw::chars_of("$FilePath$");
    let fs = crate::buffer_draw::chars_of("$FileStem$");
    proof {
        reveal_strlit("$FilePath$");
        reveal_strlit("$FileStem$");
    }
    let ghost words = if is_optimize {
        config.command@.drop_first() + config.optimize_option@
    } else {
        config.command@.drop_first()
    };
    let mut args: Vec<Vec<char>> = Vec::new();
    let n1 = config.command.len() - 1;
    let mut i: usize = 0;
    while i < n1
        invariant
            n1 == config.command@.len() - 1,
            i <= n1,
            fp@ == "$FilePath$"@,
            fs@ == "$FileStem$"@,
            fp@.len() > 0,
            fs@.len() > 0,
            p@ == path@,
            stem@ == stem_or_empty(path@),
            args@.len() == i,
            forall|k: int| 0 <= k < i ==> (#[trigger] args@[k])@ == filled_arg(
                config.command@[k + 1]@,
                path@,
                stem_or_empty(path@),
            ),
        decreases n1 - i,
    {
        let a = crate::buffer_draw::chars_of(config.command[i + 1].as_str());
        let a1 = replace(&a, &fp, &p);
        let a2 = replace(&a1, &fs, &stem);
        args.push(a2);
        i += 1;
    }
    if is_optimize {
        let n2 = config.optimize_option.len();
        let mut j: usize = 0;
        while j < n2
            invariant
                n1 == config.command@.len() - 1,
                n2 == config.optimize_option@.len(),
                j <= n2,
                fp@ == "$FilePath$"@,
                fs@ == "$FileStem$"@,
                fp@.len() > 0,
                fs@.len() > 0,
                p@ == path@,
                stem@ == stem_or_empty(path@),
                args@.len() == n1 + j,
                forall|k: int| 0 <= k < n1 ==> (#[trigger] args@[k])@ == filled_arg(
                    config.command@[k + 1]@,
                    path@,
                    stem_or_empty(path@),
                ),
                forall|k: int| n1 <= k < n1 + j ==> (#[trigger] args@[k])@ == filled_arg(
                    config.optimize_option@[k - n1]@,
                    path@,
                    stem_or_empty(path@),
                ),
            decreases n2 - j,
        {
            let a = crate::buffer_draw::chars_of(config.optimize_option[j].as_str());
            let a1 = replace(&a, &fp, &p);
            let a2 = replace(&a1, &fs, &stem);
            args.push(a2);
            j += 1;
        }
    }
    Some((config.command[0].clone(), args))
}

} // verus!
