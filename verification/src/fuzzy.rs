//! Opening a file by a fuzzy search over the file names under the working
//! directory: the query, the ranked matches, and the pick.
use vstd::prelude::*;

use fuzzy_matcher::clangd;

use crate::char_class::{is_control, is_control_spec, is_whitespace, is_whitespace_spec};
use crate::event::{Event, Key};
use crate::mode::{Mode, Normal, Request, Transition};

verus! {

/// The score and the matched char positions that the clangd-style matcher
/// of `fuzzy-matcher` gives `pattern` in `line`, ignoring case (`None`
/// when it does not match).
pub uninterp spec fn fuzzy_indices_spec(line: Seq<char>, pattern: Seq<char>) -> Option<(i64, Seq<usize>)>;

/// Calls `fuzzy_matcher::clangd::fuzzy_indices`. The result is named by
/// `fuzzy_indices_spec`; nothing more is stated of the matcher's scoring.
#[verifier::external_body]
fn fuzzy_indices(line: &str, pattern: &str) -> (r: Option<(i64, Vec<usize>)>)
    ensures
        match r {
            Some(m) => fuzzy_indices_spec(line@, pattern@) == Some((m.0, m.1@)),
            None => fuzzy_indices_spec(line@, pattern@) is None,
        },
{
    clangd::fuzzy_indices(line, pattern)
}

/// The words of `s`: its runs of non-whitespace chars, as
/// `str::split_whitespace` gives them.
pub open spec fn words_of(s: Seq<char>) -> Seq<Seq<char>>
    decreases s.len(),
{
    if s.len() == 0 {
        Seq::empty()
    } else {
        let w = words_of(s.drop_last());
        let c = s.last();
        if is_whitespace_spec(c) {
            w
        } else if s.len() >= 2 && !is_whitespace_spec(s[s.len() - 2]) {
            w.drop_last().push(w.last().push(c))
        } else {
            w.push(seq![c])
        }
    }
}

proof fn lemma_words_of_nonempty(s: Seq<char>)
    ensures
        s.len() > 0 && !is_whitespace_spec(s.last()) ==> words_of(s).len() > 0,
    decreases s.len(),
{
    if s.len() > 0 {
        lemma_words_of_nonempty(s.drop_last());
    }
}

/// Splits `s` into its words.
pub(crate) fn split_whitespace(s: &Vec<char>) -> (r: Vec<Vec<char>>)
    ensures
        r@.map_values(|w: Vec<char>| w@) == words_of(s@),
{
    let mut r: Vec<Vec<char>> = Vec::new();
    let n = s.len();
    let mut i: usize = 0;
    assert(s@.take(0) =~= Seq::<char>::empty());
    while i < n
        invariant
            n == s@.len(),
            i <= n,
            r@.map_values(|w: Vec<char>| w@) == words_of(s@.take(i as int)),
        decreases n - i,
    {
        let c = s[i];
        let ghost t = s@.take(i + 1);
        assert(t.drop_last() =~= s@.take(i as int));
        assert(t.last() == c);
        let ghost before = r@;
        if is_whitespace(c) {
        } else if i >= 1 && !is_whitespace(s[i - 1]) {
            assert(t[t.len() - 2] == s@[i - 1]);
            proof {
                lemma_words_of_nonempty(s@.take(i as int));
                assert(s@.take(i as int).last() == s@[i - 1]);
            }
            let last = r.len() - 1;
            let mut w = r.remove(last);
            w.push(c);
            r.push(w);
            assert(r@.map_values(|w: Vec<char>| w@) =~= words_of(t));
        } else {
            let mut w: Vec<char> = Vec::new();
            w.push(c);
            r.push(w);
            assert(r@.map_values(|w: Vec<char>| w@) =~= words_of(t));
        }
        i += 1;
    }
    assert(s@.take(n as int) =~= s@);
    r
}

/// Matching every word of the query: the best score among the words and
/// all the positions they matched; `None` when a word does not match.
pub open spec fn fuzzy_fold(line: Seq<char>, words: Seq<Seq<char>>) -> Option<(i64, Set<usize>)>
    decreases words.len(),
{
    if words.len() == 0 {
        Some((i64::MIN, Set::empty()))
    } else {
        match fuzzy_fold(line, words.drop_last()) {
            Some(acc) => match fuzzy_indices_spec(line, words.last()) {
                Some(m) => Some(
                    (
                        if acc.0 < m.0 {
                            m.0
                        } else {
                            acc.0
                        },
                        acc.1 + m.1.to_set(),
                    ),
                ),
                None => None,
            },
            None => None,
        }
    }
}

/// Once a word does not match, the query does not match.
proof fn lemma_fold_none_extends(line: Seq<char>, ws: Seq<Seq<char>>, j: int)
    requires
        0 <= j <= ws.len(),
        fuzzy_fold(line, ws.take(j)) is None,
    ensures
        fuzzy_fold(line, ws) is None,
    decreases ws.len() - j,
{
    if j < ws.len() {
        assert(ws.take(j + 1).drop_last() =~= ws.take(j));
        lemma_fold_none_extends(line, ws, j + 1);
    } else {
        assert(ws.take(j) =~= ws);
    }
}

/// How `line` matches the query: each of its words must match.
pub open spec fn fuzzy_match_spec(line: Seq<char>, query: Seq<char>) -> Option<(i64, Set<usize>)> {
    fuzzy_fold(line, words_of(query))
}

/// Matches `line` against each word of `query`.
pub fn fuzzy_match(line: &str, query: &Vec<char>) -> (r: Option<(i64, Vec<usize>)>)
    ensures
        match r {
            Some(m) => fuzzy_match_spec(line@, query@) == Some((m.0, m.1@.to_set())),
            None => fuzzy_match_spec(line@, query@) is None,
        },
{
    let words = split_whitespace(query);
    let ghost ws = words_of(query@);
    let mut maxi: i64 = i64::MIN;
    let mut set: Vec<usize> = Vec::new();
    let n = words.len();
    let mut i: usize = 0;
    assert(ws.take(0) =~= Seq::<Seq<char>>::empty());
    assert(set@.to_set() =~= Set::<usize>::empty());
    while i < n
        invariant
            n == words@.len(),
            words@.map_values(|w: Vec<char>| w@) == ws,
            ws == words_of(query@),
            i <= n,
            fuzzy_fold(line@, ws.take(i as int)) == Some((maxi, set@.to_set())),
        decreases n - i,
    {
        assert(ws.take(i + 1).drop_last() =~= ws.take(i as int));
        assert(ws.take(i + 1).last() == words@[i as int]@);
        let q = string_of(&words[i]);
        match fuzzy_indices(line, q.as_str()) {
            Some((score, idxs)) => {
                if maxi < score {
                    maxi = score;
                }
                let ghost before = set@;
                let mut k: usize = 0;
                while k < idxs.len()
                    invariant
                        k <= idxs@.len(),
                        set@ == before + idxs@.take(k as int),
                    decreases idxs@.len() - k,
                {
                    set.push(idxs[k]);
                    assert(idxs@.take(k + 1) =~= idxs@.take(k as int).push(idxs@[k as int]));
                    assert(set@ =~= before + idxs@.take(k + 1));
                    k += 1;
                }
                assert(idxs@.take(idxs@.len() as int) =~= idxs@);
                assert(set@.to_set() =~= before.to_set() + idxs@.to_set()) by {
                    assert forall|x: usize| set@.to_set().contains(x) <==> (before.to_set()
                        + idxs@.to_set()).contains(x) by {
                        if set@.contains(x) {
                            let j = choose|j: int| 0 <= j < set@.len() && set@[j] == x;
                            if j >= before.len() {
                                assert(idxs@[j - before.len()] == x);
                            }
                        }
                        if before.contains(x) {
                            let j = choose|j: int| 0 <= j < before.len() && before[j] == x;
                            assert(set@[j] == x);
                        }
                        if idxs@.contains(x) {
                            let j = choose|j: int| 0 <= j < idxs@.len() && idxs@[j] == x;
                            assert(set@[before.len() + j] == x);
                        }
                    }
                }
            },
            None => {
                proof {
                    let t = ws.take(i + 1);
                    assert(fuzzy_indices_spec(line@, t.last()) is None);
                    assert(fuzzy_fold(line@, t.drop_last()) == Some((maxi, set@.to_set())));
                    assert(fuzzy_fold(line@, t) is None);
                    lemma_fold_none_extends(line@, ws, i + 1);
                }
                return None;
            },
        }
        i += 1;
    }
    assert(ws.take(n as int) =~= ws);
    Some((maxi, set))
}

/// The string of the chars of `v`.
pub(crate) fn string_of(v: &Vec<char>) -> (s: String)
    ensures
        s@ == v@,
{
    let mut s = String::new();
    let mut i: usize = 0;
    while i < v.len()
        invariant
            i <= v@.len(),
            s@ == v@.take(i as int),
        decreases v@.len() - i,
    {
        crate::strings::string_push(&mut s, v[i]);
        assert(v@.take(i + 1) =~= v@.take(i as int).push(v@[i as int]));
        i += 1;
    }
    assert(v@.take(v@.len() as int) =~= v@);
    s
}

/// A file name that matched the query: its score, its place among the
/// file names found, the name, and the positions of the matched chars.
pub struct MatchedItem {
    pub score: i64,
    pub index: usize,
    pub line: String,
    pub match_indices: Vec<usize>,
}

/// `a` ranks before `b`: a higher score, or the same score and found
/// earlier.
pub open spec fn ranks_before(a: MatchedItem, b: MatchedItem) -> bool {
    a.score > b.score || (a.score == b.score && a.index < b.index)
}

/// The matches are in rank order, each once.
pub open spec fn ranked(r: Seq<MatchedItem>) -> bool {
    forall|i: int, j: int| 0 <= i < j < r.len() ==> ranks_before(#[trigger] r[i], #[trigger] r[j])
}

/// The match no other match has the same place of.
pub open spec fn fresh_index(r: Seq<MatchedItem>, item: MatchedItem) -> bool {
    forall|j: int| 0 <= j < r.len() ==> (#[trigger] r[j]).index != item.index
}

/// Puts `item` among the ranked matches `v` at its rank.
fn insert_ranked(v: &mut Vec<MatchedItem>, item: MatchedItem)
    ensures
        exists|p: int| 0 <= p <= old(v)@.len() && final(v)@ == old(v)@.insert(p, item),
        ranked(old(v)@) && fresh_index(old(v)@, item) ==> ranked(final(v)@),
{
    let n = v.len();
    let mut i: usize = 0;
    let mut done = false;
    while i < n && !done
        invariant
            n == v@.len(),
            *v == *old(v),
            i <= n,
            forall|j: int| 0 <= j < i ==> !ranks_before(item, #[trigger] v@[j]),
            done ==> i < n && ranks_before(item, v@[i as int]),
        decreases n - i + (if done {
            0int
        } else {
            1int
        }),
    {
        if item.score > v[i].score || (item.score == v[i].score && item.index < v[i].index) {
            done = true;
        } else {
            i += 1;
        }
    }
    let ghost old_v = v@;
    v.insert(i, item);
    proof {
        assert(v@ == old_v.insert(i as int, item));
        if ranked(old_v) && fresh_index(old_v, item) {
            assert forall|a: int, b: int| 0 <= a < b < v@.len() implies ranks_before(
                #[trigger] v@[a],
                #[trigger] v@[b],
            ) by {
                if b < i {
                    assert(ranks_before(old_v[a], old_v[b]));
                } else if b == i {
                    assert(!ranks_before(item, old_v[a]));
                    assert(old_v[a].index != item.index);
                } else if a == i {
                    assert(ranks_before(old_v[i as int], old_v[b - 1]) || b - 1 == i);
                } else if a < i {
                    assert(ranks_before(old_v[a], old_v[b - 1]));
                } else {
                    assert(ranks_before(old_v[a - 1], old_v[b - 1]));
                }
            }
        }
    }
}

/// How a file name ranks for the query: every file name with score 0 for
/// an empty query, else as the query's words match it.
pub open spec fn entry_spec(line: Seq<char>, query: Seq<char>) -> Option<(i64, Set<usize>)> {
    if query.len() == 0 {
        Some((0, Set::empty()))
    } else {
        fuzzy_match_spec(line, query)
    }
}

/// `r` is the ranking of the first `n` file names for the query: in rank
/// order, each match with the file name's place, name, score and matched
/// positions, and every file name that ranks among them.
pub open spec fn ranking_of(r: Seq<MatchedItem>, finds: Seq<String>, query: Seq<char>, n: nat) -> bool {
    &&& n <= finds.len()
    &&& ranked(r)
    &&& forall|j: int|
        0 <= j < r.len() ==> {
            let it = #[trigger] r[j];
            &&& it.index < n
            &&& it.line@ == finds[it.index as int]@
            &&& entry_spec(finds[it.index as int]@, query) == Some((it.score, it.match_indices@.to_set()))
        }
    &&& forall|i: int|
        0 <= i < n && (#[trigger] entry_spec(finds[i]@, query)) is Some ==> exists|j: int|
            0 <= j < r.len() && r[j].index == i
}

/// The fuzzy file opener.
pub struct FuzzyOpen {
    /// The file names found so far.
    pub finds: Vec<String>,
    /// The query.
    pub line_buf: Vec<char>,
    /// The pick, counted from the best match.
    pub index: usize,
    pub result: Vec<MatchedItem>,
    /// The file names are to be listed (the program around does it).
    pub wants_files: bool,
}

impl FuzzyOpen {
    /// No file names yet, an empty query, and a request for the list.
    pub fn new() -> (r: Self)
        ensures
            r.finds@.len() == 0,
            r.line_buf@.len() == 0,
            r.index == 0,
            r.result@.len() == 0,
            r.wants_files,
    {
        FuzzyOpen { finds: Vec::new(), line_buf: Vec::new(), index: 0, result: Vec::new(), wants_files: true }
    }

    /// The ranking of a file name for the current query.
    fn entry(&self, i: usize) -> (r: Option<(i64, Vec<usize>)>)
        requires
            i < self.finds@.len(),
        ensures
            match r {
                Some(m) => entry_spec(self.finds@[i as int]@, self.line_buf@) == Some((m.0, m.1@.to_set())),
                None => entry_spec(self.finds@[i as int]@, self.line_buf@) is None,
            },
    {
        if self.line_buf.len() == 0 {
            let v: Vec<usize> = Vec::new();
            assert(v@.to_set() =~= Set::<usize>::empty());
            Some((0, v))
        } else {
            fuzzy_match(self.finds[i].as_str(), &self.line_buf)
        }
    }

    /// Ranks all the file names found for the current query.
    pub fn update(&mut self)
        ensures
            final(self).finds == old(self).finds,
            final(self).line_buf == old(self).line_buf,
            final(self).index == old(self).index,
            final(self).wants_files == old(self).wants_files,
            ranking_of(final(self).result@, final(self).finds@, final(self).line_buf@, final(self).finds@.len()),
    {
        let mut result: Vec<MatchedItem> = Vec::new();
        let n = self.finds.len();
        let mut i: usize = 0;
        while i < n
            invariant
                n == self.finds@.len(),
                i <= n,
                *self == *old(self),
                ranking_of(result@, self.finds@, self.line_buf@, i as nat),
            decreases n - i,
        {
            match self.entry(i) {
                Some((score, indices)) => {
                    let item = MatchedItem { score, index: i, line: self.finds[i].clone(), match_indices: indices };
                    let ghost before = result@;
                    insert_ranked(&mut result, item);
                    proof {
                        let p = choose|p: int| 0 <= p <= before.len() && result@ == before.insert(p, item);
                        assert forall|j: int| 0 <= j < result@.len() implies {
                            let it = #[trigger] result@[j];
                            &&& it.index < i + 1
                            &&& it.line@ == self.finds@[it.index as int]@
                            &&& entry_spec(self.finds@[it.index as int]@, self.line_buf@) == Some(
                                (it.score, it.match_indices@.to_set()),
                            )
                        } by {
                            if j < p {
                                assert(result@[j] == before[j]);
                            } else if j > p {
                                assert(result@[j] == before[j - 1]);
                            }
                        }
                        assert forall|k: int|
                            0 <= k < i + 1 && (#[trigger] entry_spec(self.finds@[k]@, self.line_buf@)) is Some implies exists|j: int|
                            0 <= j < result@.len() && result@[j].index == k by {
                            if k < i {
                                let j = choose|j: int| 0 <= j < before.len() && before[j].index == k;
                                if j < p {
                                    assert(result@[j] == before[j]);
                                } else {
                                    assert(result@[j + 1] == before[j]);
                                }
                            } else {
                                assert(result@[p] == item);
                            }
                        }
                    }
                },
                None => {},
            }
            i += 1;
        }
        self.result = result;
    }

    /// A file name found: it is ranked in among the matches for the
    /// current query (each query word must match it; an empty query gives
    /// it the lowest score) and kept.
    pub fn push_line(&mut self, line: String)
        ensures
            final(self).finds@ == old(self).finds@.push(line),
            final(self).line_buf == old(self).line_buf,
            final(self).index == old(self).index,
            final(self).wants_files == old(self).wants_files,
            match fuzzy_match_spec(line@, old(self).line_buf@) {
                Some(m) => exists|p: int, it: MatchedItem|
                    0 <= p <= old(self).result@.len() && final(self).result@ == old(self).result@.insert(p, it)
                        && it.score == m.0 && it.index == old(self).finds@.len() && it.line@ == line@
                        && it.match_indices@.to_set() == m.1,
                None => final(self).result@ == old(self).result@,
            },
            ranked(old(self).result@) && (forall|j: int|
                0 <= j < old(self).result@.len() ==> (#[trigger] old(self).result@[j]).index < old(self).finds@.len())
                ==> ranked(final(self).result@),
    {
        let index = self.finds.len();
        match fuzzy_match(line.as_str(), &self.line_buf) {
            Some((score, indices)) => {
                let item = MatchedItem { score, index, line: line.clone(), match_indices: indices };
                let ghost it = item;
                insert_ranked(&mut self.result, item);
            },
            None => {},
        }
        self.finds.push(line);
    }
}

/// Back to normal mode, with no message.
pub open spec fn to_normal(t: Transition) -> bool {
    t matches Transition::Trans(Mode::Normal(n)) && n.message@.len() == 0
}

/// What a key does while the fuzzy opener shows: Enter opens the picked
/// file (back in normal mode without one), Esc goes back, a printable
/// char extends the query and Backspace shortens it (the ranking follows),
/// Up picks the next match (not past the last) and Down the one before.
pub open spec fn fuzzy_post(f0: FuzzyOpen, f1: FuzzyOpen, ev: Event, t: Transition) -> bool {
    &&& f1.finds == f0.finds
    &&& f1.wants_files == f0.wants_files
    &&& match ev {
        Event::Key(Key::Char(c)) => if c == '\n' {
            &&& f1 == f0
            &&& if f0.index < f0.result@.len() {
                t matches Transition::Request(Request::Open(p)) && p@ == f0.result@[f0.index as int].line@
            } else {
                to_normal(t)
            }
        } else if !is_control_spec(c) {
            &&& t is Nothing
            &&& f1.line_buf@ == f0.line_buf@.push(c)
            &&& f1.index == f0.index
            &&& ranking_of(f1.result@, f1.finds@, f1.line_buf@, f1.finds@.len())
        } else {
            t is Nothing && f1 == f0
        },
        Event::Key(Key::Backspace) => {
            &&& t is Nothing
            &&& f1.index == f0.index
            &&& if f0.line_buf@.len() > 0 {
                &&& f1.line_buf@ == f0.line_buf@.drop_last()
                &&& ranking_of(f1.result@, f1.finds@, f1.line_buf@, f1.finds@.len())
            } else {
                f1 == f0
            }
        },
        Event::Key(Key::Esc) => to_normal(t) && f1 == f0,
        Event::Key(Key::Up) => {
            &&& t is Nothing
            &&& f1.line_buf == f0.line_buf
            &&& f1.result == f0.result
            &&& f1.index == if f0.result@.len() > 0 {
                if f0.index + 1 < f0.result@.len() {
                    (f0.index + 1) as usize
                } else {
                    (f0.result@.len() - 1) as usize
                }
            } else {
                f0.index
            }
        },
        Event::Key(Key::Down) => {
            &&& t is Nothing
            &&& f1.line_buf == f0.line_buf
            &&& f1.result == f0.result
            &&& f1.index == if f0.index > 0 {
                (f0.index - 1) as usize
            } else {
                0
            }
        },
        _ => t is Nothing && f1 == f0,
    }
}

impl FuzzyOpen {
    /// Hands a key to the fuzzy opener.
    pub fn event(&mut self, ev: Event) -> (t: Transition)
        ensures
            fuzzy_post(*old(self), *final(self), ev, t),
    {
        match ev {
            Event::Key(Key::Char(c)) => {
                if c == '\n' {
                    if self.index < self.result.len() {
                        let p = self.result[self.index].line.clone();
                        return Transition::Request(Request::Open(p));
                    }
                    return Transition::Trans(Mode::Normal(Normal::default()));
                }
                if !is_control(c) {
                    self.line_buf.push(c);
                    self.update();
                }
                Transition::Nothing
            },
            Event::Key(Key::Backspace) => {
                if self.line_buf.len() > 0 {
                    self.line_buf.pop();
                    self.update();
                }
                Transition::Nothing
            },
            Event::Key(Key::Esc) => Transition::Trans(Mode::Normal(Normal::default())),
            Event::Key(Key::Up) => {
                if self.result.len() > 0 {
                    self.index = if self.index < self.result.len() - 1 {
                        self.index + 1
                    } else {
                        self.result.len() - 1
                    };
                }
                Transition::Nothing
            },
            Event::Key(Key::Down) => {
                if self.index > 0 {
                    self.index = self.index - 1;
                }
                Transition::Nothing
            },
            _ => Transition::Nothing,
        }
    }
}

} // verus!
