//! The command that runs the current file as a test (`Space t`): the one
//! the settings give, else the file's `#!` line with the file's path added;
//! each word goes through shell expansion.
use vstd::prelude::*;

use crate::config::{words, Command};
use crate::fuzzy::{split_whitespace, string_of, words_of};

verus! {

/// Why no test command could be made.
#[derive(Debug, Clone, Copy, PartialEq, Eq, Structural)]
pub enum TestCommandError {
    /// No command in the settings and no `#!` line.
    Undefined,
    /// A word of the `#!` line could not be expanded.
    ExpandShebang,
    /// The command's program could not be expanded.
    ExpandProgram,
    /// An argument of the command could not be expanded.
    ExpandArgs,
}

impl TestCommandError {
    /// The message shown for the error.
    pub open spec fn message_spec(self) -> Seq<char> {
        match self {
            TestCommandError::Undefined => "test_command is undefined"@,
            TestCommandError::ExpandShebang => "Failed to expand shebang"@,
            TestCommandError::ExpandProgram => "Failed to expand test_command"@,
            TestCommandError::ExpandArgs => "Failed to Expand test_command"@,
        }
    }

    pub fn message(&self) -> (s: String)
        ensures
            s@ == self.message_spec(),
    {
        match self {
            TestCommandError::Undefined => String::from_str("test_command is undefined"),
            TestCommandError::ExpandShebang => String::from_str("Failed to expand shebang"),
            TestCommandError::ExpandProgram => String::from_str("Failed to expand test_command"),
            TestCommandError::ExpandArgs => String::from_str("Failed to Expand test_command"),
        }
    }
}

/// The line starts with `#!`.
pub open spec fn has_shebang(line: Seq<char>) -> bool {
    line.len() >= 2 && line[0] == '#' && line[1] == '!'
}

/// `s` without the `#!` marks at its start (however many there are).
pub open spec fn strip_marks(s: Seq<char>) -> Seq<char>
    decreases s.len(),
{
    if has_shebang(s) {
        strip_marks(s.skip(2))
    } else {
        s
    }
}

/// A word that shell expansion leaves as it is: no `$` in it and no `~`
/// at its start.
pub open spec fn plain_word(w: Seq<char>) -> bool {
    !w.contains('$') && !(w.len() > 0 && w[0] == '~')
}

/// Calls `shellexpand::full`, which expands a leading `~` to the home
/// directory and `$NAME` / `${NAME}` to environment variables; `None` where
/// a variable lookup fails. What comes out depends on the environment; the
/// contract states only that a word with no `$` and no leading `~` comes
/// back unchanged, as the crate's source shows for every environment.
#[verifier::external_body]
fn shell_expand(s: &str) -> (r: Option<String>)
    ensures
        plain_word(s@) ==> r is Some && r->0@ == s@,
{
    match shellexpand::full(s) {
        Ok(t) => Some(t.into_owned()),
        Err(_) => None,
    }
}

/// Each word shell-expanded; `None` where one fails.
pub fn expand_words(ws: &Vec<String>) -> (r: Option<Vec<String>>)
    ensures
        r matches Some(v) ==> (v@.len() == ws@.len() && forall|i: int|
            0 <= i < ws@.len() && plain_word(#[trigger] ws@[i]@) ==> v@[i]@ == ws@[i]@),
        (forall|i: int| 0 <= i < ws@.len() ==> plain_word(#[trigger] ws@[i]@)) ==> r is Some,
{
    let mut v: Vec<String> = Vec::new();
    let mut i: usize = 0;
    while i < ws.len()
        invariant
            i <= ws@.len(),
            v@.len() == i,
            forall|j: int| 0 <= j < i && plain_word(#[trigger] ws@[j]@) ==> v@[j]@ == ws@[j]@,
        decreases ws@.len() - i,
    {
        match shell_expand(ws[i].as_str()) {
            Some(t) => v.push(t),
            None => {
                return None;
            },
        }
        i += 1;
    }
    Some(v)
}

/// The words of a `#!` line after its marks, if the line has them.
pub fn shebang_words(line: &str) -> (r: Option<Vec<String>>)
    ensures
        r is None <==> !has_shebang(line@),
        r matches Some(ws) ==> words(ws@) == words_of(strip_marks(line@)),
{
    let n = line.unicode_len();
    if !(n >= 2 && line.get_char(0) == '#' && line.get_char(1) == '!') {
        return None;
    }
    let mut k: usize = 0;
    assert(line@.skip(0) =~= line@);
    while k < n && n - k >= 2 && line.get_char(k) == '#' && line.get_char(k + 1) == '!'
        invariant
            n == line@.len(),
            k <= n,
            strip_marks(line@) == strip_marks(line@.skip(k as int)),
        decreases n - k,
    {
        assert(line@.skip(k as int).skip(2) =~= line@.skip(k + 2));
        k += 2;
    }
    proof {
        let t = line@.skip(k as int);
        if has_shebang(t) {
            assert(t[0] == line@[k as int] && t[1] == line@[k + 1]);
        }
    }
    let rest = crate::buffer_draw::chars_of(line.substring_char(k, n));
    assert(rest@ =~= line@.skip(k as int));
    let parts = split_whitespace(&rest);
    let mut out: Vec<String> = Vec::new();
    let mut i: usize = 0;
    while i < parts.len()
        invariant
            i <= parts@.len(),
            out@.len() == i,
            forall|j: int| 0 <= j < i ==> (#[trigger] out@[j])@ == parts@[j]@,
        decreases parts@.len() - i,
    {
        let w = string_of(&parts[i]);
        out.push(w);
        i += 1;
    }
    assert(words(out@) =~= parts@.map_values(|w: Vec<char>| w@));
    Some(out)
}

/// The command of a `#!` line whose words are `expanded`: its words with
/// the file's path added.
pub fn shebang_command(expanded: Vec<String>, path: &str) -> (c: Command)
    ensures
        c.words() == words(expanded@).push(path@),
{
    let mut v = expanded;
    v.push(String::from_str(path));
    let ghost all = v@;
    assert(words(all) =~= words(expanded@).push(path@));
    let program = v.remove(0);
    assert(v@ =~= all.skip(1));
    let c = Command { program, args: v };
    assert(c.words() =~= words(all));
    c
}

/// The command made of the expanded program and arguments; the first that
/// failed to expand gives the error.
pub fn expanded_command(program: Option<String>, args: Vec<Option<String>>) -> (r: Result<Command, TestCommandError>)
    ensures
        program is None ==> r == Err::<Command, TestCommandError>(TestCommandError::ExpandProgram),
        program is Some && (forall|i: int| 0 <= i < args@.len() ==> (#[trigger] args@[i]) is Some) ==> (r matches Ok(c)
            && c.program == program->0 && c.args@.len() == args@.len() && forall|i: int|
            0 <= i < args@.len() ==> Some(#[trigger] c.args@[i]) == args@[i]),
        program is Some && !(forall|i: int| 0 <= i < args@.len() ==> (#[trigger] args@[i]) is Some) ==> r == Err::<
            Command,
            TestCommandError,
        >(TestCommandError::ExpandArgs),
{
    let p = match program {
        Some(p) => p,
        None => {
            return Err(TestCommandError::ExpandProgram);
        },
    };
    let mut out: Vec<String> = Vec::new();
    let mut i: usize = 0;
    while i < args.len()
        invariant
            i <= args@.len(),
            out@.len() == i,
            forall|j: int| 0 <= j < i ==> Some(#[trigger] out@[j]) == args@[j],
            program is Some,
            p == program->0,
        decreases args@.len() - i,
    {
        match &args[i] {
            Some(a) => out.push(a.clone()),
            None => {
                return Err(TestCommandError::ExpandArgs);
            },
        }
        i += 1;
    }
    assert forall|i: int| 0 <= i < args@.len() implies (#[trigger] args@[i]) is Some by {
        assert(Some(out@[i]) == args@[i]);
    }
    Ok(Command { program: p, args: out })
}

/// Each word of `ws` shell-expanded, `None` for those that failed.
fn expand_each(ws: &Vec<String>) -> (r: Vec<Option<String>>)
    ensures
        r@.len() == ws@.len(),
        forall|i: int| 0 <= i < ws@.len() && plain_word(#[trigger] ws@[i]@) ==> (r@[i] matches Some(t) && t@ == ws@[i]@),
{
    let mut v: Vec<Option<String>> = Vec::new();
    let mut i: usize = 0;
    while i < ws.len()
        invariant
            i <= ws@.len(),
            v@.len() == i,
            forall|j: int| 0 <= j < i && plain_word(#[trigger] ws@[j]@) ==> (v@[j] matches Some(t) && t@ == ws@[j]@),
        decreases ws@.len() - i,
    {
        v.push(shell_expand(ws[i].as_str()));
        i += 1;
    }
    v
}

/// The test command: the configured one, else the file's `#!` line (its
/// words expanded, the path added); then the program and each argument
/// expanded. Which error comes where no expansion fails is fixed; what the
/// expansions give depends on the environment, and plain words come
/// through unchanged.
pub fn test_command(configured: Option<Command>, first_line: &str, path: &str) -> (r: Result<Command, TestCommandError>)
    ensures
        r == Err::<Command, TestCommandError>(TestCommandError::Undefined) <==> configured is None && !has_shebang(
            first_line@,
        ),
        r == Err::<Command, TestCommandError>(TestCommandError::ExpandShebang) ==> configured is None,
        configured matches Some(c) ==> ((forall|w: Seq<char>| #[trigger] c.words().contains(w) ==> plain_word(w)) ==> (
        r matches Ok(d) && d.words() == c.words())),
        (configured is None && has_shebang(first_line@) && (forall|w: Seq<char>|
            #[trigger] words_of(strip_marks(first_line@)).contains(w) ==> plain_word(w)) && plain_word(path@))
            ==> (r matches Ok(c) && c.words() == words_of(strip_marks(first_line@)).push(path@)),
{
    let cmd = match configured {
        Some(c) => c,
        None => match shebang_words(first_line) {
            None => {
                return Err(TestCommandError::Undefined);
            },
            Some(ws) => {
                proof {
                    if forall|w: Seq<char>| #[trigger] words_of(strip_marks(first_line@)).contains(w) ==> plain_word(w) {
                        assert forall|i: int| 0 <= i < ws@.len() implies plain_word(#[trigger] ws@[i]@) by {
                            assert(words(ws@)[i] == ws@[i]@);
                            assert(words_of(strip_marks(first_line@)).contains(ws@[i]@));
                        }
                    }
                }
                match expand_words(&ws) {
                    None => {
                        return Err(TestCommandError::ExpandShebang);
                    },
                    Some(ex) => {
                        proof {
                            if forall|w: Seq<char>| #[trigger] words_of(strip_marks(first_line@)).contains(w) ==> plain_word(w) {
                                assert(words(ex@) =~= words(ws@));
                            }
                        }
                        shebang_command(ex, path)
                    },
                }
            },
        },
    };
    let ghost cw = cmd.words();
    let program = shell_expand(cmd.program.as_str());
    let args = expand_each(&cmd.args);
    let ghost gp = program;
    let ghost ga = args@;
    let r = expanded_command(program, args);
    proof {
        if forall|w: Seq<char>| #[trigger] cw.contains(w) ==> plain_word(w) {
            assert(cw[0] == cmd.program@);
            assert(cw.contains(cmd.program@));
            assert forall|i: int| 0 <= i < cmd.args@.len() implies plain_word(#[trigger] cmd.args@[i]@) by {
                assert(cw[i + 1] == cmd.args@[i]@);
                assert(cw.contains(cmd.args@[i]@));
            }
            assert(gp is Some);
            assert forall|i: int| 0 <= i < ga.len() implies (#[trigger] ga[i]) is Some by {
                assert(plain_word(cmd.args@[i]@));
            }
            let c = r->Ok_0;
            assert forall|i: int| 0 <= i < c.args@.len() implies (#[trigger] c.args@[i])@ == cmd.args@[i]@ by {
                assert(Some(c.args@[i]) == ga[i]);
                assert(plain_word(cmd.args@[i]@));
            }
            assert(c.words() =~= cw);
        }
    }
    r
}

} // verus!
