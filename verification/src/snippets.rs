//! Snippets: the text each prefix expands to, kept in the order of the
//! prefixes, as a sorted map gives them.
use vstd::prelude::*;

verus! {

/// `a` comes before `b`: at the first place where they differ, `a` has the
/// smaller char, or `a` is a proper prefix of `b`. For UTF-8 text this is
/// the order of the bytes too.
pub open spec fn key_lt(a: Seq<char>, b: Seq<char>) -> bool {
    exists|i: int|
        #![trigger a.take(i), b.take(i)]
        0 <= i <= a.len() && i <= b.len() && a.take(i) == b.take(i) && ((i == a.len() && i < b.len()) || (i
            < a.len() && i < b.len() && a[i] < b[i]))
}

/// The order is strict.
pub proof fn lemma_key_lt_irreflexive(a: Seq<char>)
    ensures
        !key_lt(a, a),
{
}

/// The order is transitive.
pub proof fn lemma_key_lt_transitive(a: Seq<char>, b: Seq<char>, c: Seq<char>)
    requires
        key_lt(a, b),
        key_lt(b, c),
    ensures
        key_lt(a, c),
{
    let i = choose|i: int|
        #![trigger a.take(i), b.take(i)]
        0 <= i <= a.len() && i <= b.len() && a.take(i) == b.take(i) && ((i == a.len() && i < b.len()) || (i
            < a.len() && i < b.len() && a[i] < b[i]));
    let j = choose|j: int|
        #![trigger b.take(j), c.take(j)]
        0 <= j <= b.len() && j <= c.len() && b.take(j) == c.take(j) && ((j == b.len() && j < c.len()) || (j
            < b.len() && j < c.len() && b[j] < c[j]));
    if i < j {
        assert(c.take(i) =~= c.take(j).take(i));
        assert(b.take(i) =~= b.take(j).take(i));
        assert(b[i] == b.take(j)[i]);
        assert(c[i] == c.take(j)[i]);
        assert(a.take(i) == c.take(i));
    } else if j < i {
        assert(a.take(j) =~= a.take(i).take(j));
        assert(b.take(j) =~= b.take(i).take(j));
        assert(a[j] == a.take(i)[j]);
        assert(b[j] == b.take(i)[j]);
        assert(a.take(j) == c.take(j));
    } else {
        assert(a.take(i) == c.take(i));
    }
}

/// How two keys compare.
#[derive(Debug, Clone, Copy, PartialEq, Eq, Structural)]
pub enum KeyOrder {
    Less,
    Equal,
    Greater,
}

/// Compares two keys char by char.
pub fn compare_keys(a: &str, b: &str) -> (r: KeyOrder)
    ensures
        match r {
            KeyOrder::Less => key_lt(a@, b@),
            KeyOrder::Equal => a@ == b@,
            KeyOrder::Greater => key_lt(b@, a@),
        },
{
    let la = a.unicode_len();
    let lb = b.unicode_len();
    let mut i: usize = 0;
    while i < la && i < lb
        invariant
            la == a@.len(),
            lb == b@.len(),
            i <= la,
            i <= lb,
            a@.take(i as int) == b@.take(i as int),
        decreases la - i,
    {
        let ca = a.get_char(i);
        let cb = b.get_char(i);
        if ca < cb {
            assert(key_lt(a@, b@)) by {
                assert(a@.take(i as int) == b@.take(i as int));
            }
            return KeyOrder::Less;
        }
        if cb < ca {
            assert(key_lt(b@, a@)) by {
                assert(b@.take(i as int) == a@.take(i as int));
            }
            return KeyOrder::Greater;
        }
        assert(a@.take(i + 1) =~= a@.take(i as int).push(ca));
        assert(b@.take(i + 1) =~= b@.take(i as int).push(cb));
        i += 1;
    }
    if la == lb {
        assert(a@ =~= a@.take(la as int));
        assert(b@ =~= b@.take(lb as int));
        KeyOrder::Equal
    } else if la < lb {
        assert(key_lt(a@, b@)) by {
            assert(a@.take(la as int) == b@.take(la as int));
        }
        KeyOrder::Less
    } else {
        assert(key_lt(b@, a@)) by {
            assert(b@.take(lb as int) == a@.take(lb as int));
        }
        KeyOrder::Greater
    }
}

/// `p` is a prefix of `s`.
pub open spec fn is_prefix(p: Seq<char>, s: Seq<char>) -> bool {
    p.len() <= s.len() && s.take(p.len() as int) == p
}

/// Tells whether `p` is a prefix of `s`.
pub fn starts_with(s: &str, p: &Vec<char>) -> (r: bool)
    ensures
        r == is_prefix(p@, s@),
{
    let ls = s.unicode_len();
    let lp = p.len();
    if lp > ls {
        return false;
    }
    let mut i: usize = 0;
    while i < lp
        invariant
            ls == s@.len(),
            lp == p@.len(),
            lp <= ls,
            i <= lp,
            s@.take(i as int) == p@.take(i as int),
        decreases lp - i,
    {
        if s.get_char(i) != p[i] {
            assert(s@.take(lp as int)[i as int] == s@[i as int]);
            return false;
        }
        assert(s@.take(i + 1) =~= s@.take(i as int).push(s@[i as int]));
        assert(p@.take(i + 1) =~= p@.take(i as int).push(p@[i as int]));
        i += 1;
    }
    assert(p@.take(lp as int) =~= p@);
    true
}

/// Prefixes and their texts, in increasing order of prefix, each prefix
/// once.
pub struct SnippetMap {
    pub entries: Vec<(String, String)>,
}

impl SnippetMap {
    /// The prefixes, in order.
    pub open spec fn keys(&self) -> Seq<Seq<char>> {
        self.entries@.map_values(|e: (String, String)| e.0@)
    }

    /// Each prefix comes before the ones after it.
    pub open spec fn wf(&self) -> bool {
        forall|i: int, j: int|
            0 <= i < j < self.entries@.len() ==> key_lt(
                #[trigger] self.entries@[i].0@,
                #[trigger] self.entries@[j].0@,
            )
    }

    /// Where `k` is among the prefixes.
    pub open spec fn index_of(&self, k: Seq<char>) -> Option<int> {
        if exists|i: int| 0 <= i < self.entries@.len() && (#[trigger] self.entries@[i]).0@ == k {
            Some(choose|i: int| 0 <= i < self.entries@.len() && (#[trigger] self.entries@[i]).0@ == k)
        } else {
            None
        }
    }

    /// The text of prefix `k`.
    pub open spec fn get_spec(&self, k: Seq<char>) -> Option<Seq<char>> {
        match self.index_of(k) {
            Some(i) => Some(self.entries@[i].1@),
            None => None,
        }
    }

    /// In a well-formed map a prefix stands at one place only.
    pub proof fn lemma_index_of(&self, i: int)
        requires
            self.wf(),
            0 <= i < self.entries@.len(),
        ensures
            self.index_of(self.entries@[i].0@) == Some(i),
    {
        let k = self.entries@[i].0@;
        let j = choose|j: int| 0 <= j < self.entries@.len() && (#[trigger] self.entries@[j]).0@ == k;
        if j < i {
            lemma_key_lt_irreflexive(k);
            assert(key_lt(self.entries@[j].0@, self.entries@[i].0@));
        } else if i < j {
            lemma_key_lt_irreflexive(k);
            assert(key_lt(self.entries@[i].0@, self.entries@[j].0@));
        }
    }

    pub fn new() -> (m: Self)
        ensures
            m.wf(),
            m.entries@.len() == 0,
            forall|k: Seq<char>| m.get_spec(k) is None,
    {
        SnippetMap { entries: Vec::new() }
    }

    /// Sets the text of prefix `k` to `v`, in place of any it had.
    pub fn insert(&mut self, k: String, v: String)
        requires
            old(self).wf(),
        ensures
            final(self).wf(),
            forall|q: Seq<char>|
                #[trigger] final(self).get_spec(q) == if q == k@ {
                    Some(v@)
                } else {
                    old(self).get_spec(q)
                },
    {
        let ghost k0 = k@;
        let ghost v0 = v@;
        let n = self.entries.len();
        let mut i: usize = 0;
        while i < n
            invariant
                n == self.entries@.len(),
                i <= n,
                *self == *old(self),
                old(self).wf(),
                k@ == k0,
                v@ == v0,
                forall|j: int| 0 <= j < i ==> key_lt(#[trigger] self.entries@[j].0@, k0),
            ensures
                n == self.entries@.len(),
                i <= n,
                *self == *old(self),
                k@ == k0,
                v@ == v0,
                forall|j: int| 0 <= j < i ==> key_lt(#[trigger] self.entries@[j].0@, k0),
                i < n ==> key_lt(k0, self.entries@[i as int].0@),
            decreases n - i,
        {
            match compare_keys(self.entries[i].0.as_str(), k.as_str()) {
                KeyOrder::Less => {
                    i += 1;
                },
                KeyOrder::Equal => {
                    let ghost old_entries = self.entries@;
                    self.entries.set(i, (k, v));
                    proof {
                        assert(self.wf()) by {
                            assert forall|a: int, b: int| 0 <= a < b < self.entries@.len() implies key_lt(
                                #[trigger] self.entries@[a].0@,
                                #[trigger] self.entries@[b].0@,
                            ) by {
                                assert(key_lt(old_entries[a].0@, old_entries[b].0@));
                            }
                        }
                        assert forall|q: Seq<char>| #[trigger]
                            self.get_spec(q) == if q == k0 {
                                Some(v0)
                            } else {
                                old(self).get_spec(q)
                            } by {
                            if q == k0 {
                                self.lemma_index_of(i as int);
                                old(self).lemma_index_of(i as int);
                            } else {
                                if let Some(j) = old(self).index_of(q) {
                                    self.lemma_index_of(j);
                                } else if let Some(j) = self.index_of(q) {
                                    assert(old(self).entries@[j].0@ == q);
                                }
                            }
                        }
                    }
                    return;
                },
                KeyOrder::Greater => {
                    break;
                },
            }
        }
        let ghost old_entries = self.entries@;
        self.entries.insert(i, (k, v));
        proof {
            assert(self.entries@ =~= old_entries.insert(i as int, (k, v)));
            assert(self.wf()) by {
                assert forall|a: int, b: int| 0 <= a < b < self.entries@.len() implies key_lt(
                    #[trigger] self.entries@[a].0@,
                    #[trigger] self.entries@[b].0@,
                ) by {
                    if b < i {
                        assert(key_lt(old_entries[a].0@, old_entries[b].0@));
                    } else if b == i {
                    } else if a == i {
                        if b - 1 > i {
                            assert(key_lt(old_entries[i as int].0@, old_entries[b - 1].0@));
                            lemma_key_lt_transitive(k0, old_entries[i as int].0@, old_entries[b - 1].0@);
                        }
                    } else if a < i {
                        assert(key_lt(old_entries[a].0@, old_entries[b - 1].0@));
                    } else {
                        assert(key_lt(old_entries[a - 1].0@, old_entries[b - 1].0@));
                    }
                }
            }
            assert forall|q: Seq<char>| #[trigger]
                self.get_spec(q) == if q == k0 {
                    Some(v0)
                } else {
                    old(self).get_spec(q)
                } by {
                if q == k0 {
                    self.lemma_index_of(i as int);
                    if let Some(j) = old(self).index_of(q) {
                        if j < i {
                            lemma_key_lt_irreflexive(k0);
                        } else {
                            lemma_key_lt_irreflexive(k0);
                            if j > i {
                                assert(key_lt(old_entries[i as int].0@, old_entries[j].0@));
                                lemma_key_lt_transitive(k0, old_entries[i as int].0@, old_entries[j].0@);
                            }
                        }
                    }
                } else {
                    if let Some(j) = old(self).index_of(q) {
                        if j < i {
                            self.lemma_index_of(j);
                        } else {
                            assert(self.entries@[j + 1] == old_entries[j]);
                            self.lemma_index_of(j + 1);
                        }
                    } else if let Some(j) = self.index_of(q) {
                        if j < i {
                            assert(old_entries[j].0@ == q);
                        } else if j > i {
                            assert(old_entries[j - 1].0@ == q);
                        }
                    }
                }
            }
        }
    }

    /// The text of prefix `k`.
    pub fn get(&self, k: &str) -> (r: Option<&String>)
        requires
            self.wf(),
        ensures
            match r {
                Some(t) => self.get_spec(k@) == Some(t@),
                None => self.get_spec(k@) is None,
            },
    {
        let n = self.entries.len();
        let mut i: usize = 0;
        while i < n
            invariant
                n == self.entries@.len(),
                i <= n,
                self.wf(),
                forall|j: int| 0 <= j < i ==> (#[trigger] self.entries@[j]).0@ != k@,
            decreases n - i,
        {
            if compare_keys(self.entries[i].0.as_str(), k) == KeyOrder::Equal {
                proof {
                    self.lemma_index_of(i as int);
                }
                return Some(&self.entries[i].1);
            }
            i += 1;
        }
        None
    }

    /// The prefixes that start with `p`, in order.
    pub fn keys_with_prefix(&self, p: &Vec<char>) -> (r: Vec<String>)
        ensures
            r@.map_values(|s: String| s@) == self.keys().filter(|k: Seq<char>| is_prefix(p@, k)),
    {
        let ghost pred = |k: Seq<char>| is_prefix(p@, k);
        let n = self.entries.len();
        let mut r: Vec<String> = Vec::new();
        let mut i: usize = 0;
        while i < n
            invariant
                n == self.entries@.len(),
                i <= n,
                pred == (|k: Seq<char>| is_prefix(p@, k)),
                r@.map_values(|s: String| s@) == self.keys().take(i as int).filter(pred),
            decreases n - i,
        {
            let ghost before = r@;
            let ghost ki = self.entries@[i as int].0@;
            assert(self.keys().take(i + 1).drop_last() =~= self.keys().take(i as int));
            assert(self.keys().take(i + 1).last() == ki);
            assert(self.keys().take(i + 1).len() == i + 1);
            assert(self.keys().take(i + 1).filter(pred) == if pred(ki) {
                self.keys().take(i as int).filter(pred).push(ki)
            } else {
                self.keys().take(i as int).filter(pred)
            }) by {
                reveal(Seq::filter);
            }
            if starts_with(self.entries[i].0.as_str(), p) {
                r.push(self.entries[i].0.clone());
                assert(r@.map_values(|s: String| s@) =~= before.map_values(|s: String| s@).push(
                    self.entries@[i as int].0@,
                ));
            }
            i += 1;
        }
        assert(self.keys().take(n as int) =~= self.keys());
        r
    }

    /// Puts every prefix of `other` in, its text taking the place of the
    /// one already there.
    pub fn append(&mut self, other: &SnippetMap)
        requires
            old(self).wf(),
            other.wf(),
        ensures
            final(self).wf(),
            forall|q: Seq<char>|
                #[trigger] final(self).get_spec(q) == match other.get_spec(q) {
                    Some(t) => Some(t),
                    None => old(self).get_spec(q),
                },
    {
        let n = other.entries.len();
        let mut i: usize = 0;
        while i < n
            invariant
                n == other.entries@.len(),
                i <= n,
                other.wf(),
                self.wf(),
                forall|q: Seq<char>|
                    #[trigger] self.get_spec(q) == match other.index_of(q) {
                        Some(j) => if j < i {
                            Some(other.entries@[j].1@)
                        } else {
                            old(self).get_spec(q)
                        },
                        None => old(self).get_spec(q),
                    },
            decreases n - i,
        {
            let k = other.entries[i].0.clone();
            let v = other.entries[i].1.clone();
            proof {
                other.lemma_index_of(i as int);
            }
            self.insert(k, v);
            i += 1;
        }
    }
}


/// A snippet's body as the editor inserts it: each line followed by a line
/// break.
pub open spec fn body_text(lines: Seq<String>) -> Seq<char>
    decreases lines.len(),
{
    if lines.len() == 0 {
        Seq::empty()
    } else {
        body_text(lines.drop_last()) + lines.last()@ + seq!['\n']
    }
}

/// What a snippet file gives under prefix `q`: the body of the last entry
/// with that prefix.
pub open spec fn snippets_get(entries: Seq<(String, Vec<String>)>, q: Seq<char>) -> Option<Seq<char>>
    decreases entries.len(),
{
    if entries.len() == 0 {
        None
    } else if entries.last().0@ == q {
        Some(body_text(entries.last().1@))
    } else {
        snippets_get(entries.drop_last(), q)
    }
}

/// The body of a snippet from its lines.
pub fn snippet_body(lines: &Vec<String>) -> (s: String)
    ensures
        s@ == body_text(lines@),
{
    let mut s = String::new();
    let mut i: usize = 0;
    while i < lines.len()
        invariant
            i <= lines@.len(),
            s@ == body_text(lines@.take(i as int)),
        decreases lines@.len() - i,
    {
        s.append(lines[i].as_str());
        crate::strings::string_push(&mut s, '\n');
        assert(lines@.take(i + 1).drop_last() =~= lines@.take(i as int));
        i += 1;
    }
    assert(lines@.take(lines@.len() as int) =~= lines@);
    s
}

/// The snippets of a VS Code style snippet file, given as its entries
/// (prefix and body lines) in the order they are read: each prefix with
/// its body, a later entry taking the place of an earlier one.
pub fn snippet_map_from(entries: Vec<(String, Vec<String>)>) -> (m: SnippetMap)
    ensures
        m.wf(),
        forall|q: Seq<char>| #[trigger] m.get_spec(q) == snippets_get(entries@, q),
{
    let mut m = SnippetMap::new();
    let mut i: usize = 0;
    while i < entries.len()
        invariant
            i <= entries@.len(),
            m.wf(),
            forall|q: Seq<char>| #[trigger] m.get_spec(q) == snippets_get(entries@.take(i as int), q),
        decreases entries@.len() - i,
    {
        let body = snippet_body(&entries[i].1);
        let k = entries[i].0.clone();
        let ghost prev = m;
        m.insert(k, body);
        proof {
            let t = entries@.take(i + 1);
            assert(t.drop_last() =~= entries@.take(i as int));
            assert(t.last() == entries@[i as int]);
            assert forall|q: Seq<char>| #[trigger] m.get_spec(q) == snippets_get(t, q) by {
                assert(m.get_spec(q) == (if q == k@ { Some(body@) } else { prev.get_spec(q) }));
            }
        }
        i += 1;
    }
    assert(entries@.take(entries@.len() as int) =~= entries@);
    m
}

} // verus!
