//! Text objects: the ranges that `d`, `c` and `y` act on (`w`, `aw`, `iw`,
//! quotes, brackets, `f` and `t`).
use vstd::prelude::*;

use crate::char_class::{is_alphanumeric, is_alphanumeric_spec};
use crate::edit_core::buffer::{char_at_spec, cursor_index, cursor_valid, range_valid, CoreBuffer};
use crate::edit_core::model::{
    lemma_line_len_bounds, lemma_on_line, lemma_valid_before_next_line, lemma_valid_up_to_line_len,
    line_len, line_start,
};
use crate::edit_core::motion_laws::{lemma_inc_least, on_line_pos};
use crate::edit_core::{
    cursor_le, cursor_lt, inc_spec, is_word_char, lemma_cursor_order, lemma_inc_spec, pred_word,
    Core, Cursor, CursorBound,
};

verus! {

/// What an operator key does with its range.
#[derive(Debug, Copy, Clone, PartialEq, Eq, Structural)]
pub enum Action {
    Delete,
    Yank,
    Change,
}

pub open spec fn action_from_char_spec(c: char) -> Option<Action> {
    if c == 'd' {
        Some(Action::Delete)
    } else if c == 'y' {
        Some(Action::Yank)
    } else if c == 'c' {
        Some(Action::Change)
    } else {
        None
    }
}

pub open spec fn action_to_char_spec(a: Action) -> char {
    match a {
        Action::Delete => 'd',
        Action::Yank => 'y',
        Action::Change => 'c',
    }
}

impl Action {
    /// `d`, `y` and `c` name the actions.
    pub fn from_char(c: char) -> (r: Option<Self>)
        ensures
            r == action_from_char_spec(c),
    {
        match c {
            'd' => Some(Action::Delete),
            'y' => Some(Action::Yank),
            'c' => Some(Action::Change),
            _ => None,
        }
    }

    pub fn to_char(self) -> (r: char)
        ensures
            r == action_to_char_spec(self),
    {
        match self {
            Action::Delete => 'd',
            Action::Yank => 'y',
            Action::Change => 'c',
        }
    }
}

/// Every action is named by its own char.
pub proof fn law_action_char_roundtrip(a: Action)
    ensures
        action_from_char_spec(action_to_char_spec(a)) == Some(a),
{
}

/// A char names an action only as that action's own char.
pub proof fn law_action_char_unique(c: char, a: Action)
    requires
        action_from_char_spec(c) == Some(a),
    ensures
        action_to_char_spec(a) == c,
{
}

/// `i` (inner), `a` (around) or neither.
#[derive(Debug, Copy, Clone, PartialEq, Eq, Structural)]
pub enum TextObjectPrefix {
    Inner,
    A,
    NoPrefix,
}

/// What the keys typed so far after the operator ask for.
#[derive(Debug, Copy, Clone, PartialEq, Eq, Structural)]
pub enum Prefix {
    TextObjectPrefix(TextObjectPrefix),
    Find { inclusive: bool },
}

/// The range that stands for "nothing".
pub open spec fn empty_range() -> (CursorBound, CursorBound) {
    (
        CursorBound::Included(Cursor { row: 0, col: 0 }),
        CursorBound::Excluded(Cursor { row: 0, col: 0 }),
    )
}

fn empty_range_exec() -> (r: (CursorBound, CursorBound))
    ensures
        r == empty_range(),
{
    (
        CursorBound::Included(Cursor { row: 0, col: 0 }),
        CursorBound::Excluded(Cursor { row: 0, col: 0 }),
    )
}

/// A space.
pub open spec fn pred_space() -> spec_fn(Option<char>) -> bool {
    |o: Option<char>| o == Some(' ')
}

/// Anything but `f`.
pub open spec fn pred_not(f: char) -> spec_fn(Option<char>) -> bool {
    |o: Option<char>| o != Some(f)
}

/// Moves right along the line while `p` holds of the char under the cursor.
pub open spec fn scan_right(s: Seq<char>, c: Cursor, p: spec_fn(Option<char>) -> bool) -> Cursor
    decreases line_len(s, c.row as nat) - c.col,
{
    if c.col < line_len(s, c.row as nat) && c.col < usize::MAX && p(char_at_spec(s, c)) {
        scan_right(s, Cursor { row: c.row, col: (c.col + 1) as usize }, p)
    } else {
        c
    }
}

/// Moves left along the line while `p` holds of the char before the cursor.
pub open spec fn scan_left(s: Seq<char>, c: Cursor, p: spec_fn(Option<char>) -> bool) -> Cursor
    decreases c.col,
{
    if c.col > 0 && p(char_at_spec(s, Cursor { row: c.row, col: (c.col - 1) as usize })) {
        scan_left(s, Cursor { row: c.row, col: (c.col - 1) as usize }, p)
    } else {
        c
    }
}

/// `w`, `aw`, `iw`: the word at the cursor; `w` runs from the cursor, `aw` and
/// `iw` from the word's start. Trailing spaces come with it, except for a
/// change and for `iw`.
pub open spec fn word_range_spec(
    s: Seq<char>,
    cur: Cursor,
    action: Action,
    prefix: TextObjectPrefix,
) -> (CursorBound, CursorBound) {
    let l = if prefix == TextObjectPrefix::NoPrefix {
        cur
    } else {
        scan_left(s, cur, pred_word())
    };
    let r1 = scan_right(s, cur, pred_word());
    let r = if action != Action::Change && prefix != TextObjectPrefix::Inner {
        scan_right(s, r1, pred_space())
    } else {
        r1
    };
    (CursorBound::Included(l), CursorBound::Excluded(r))
}

/// Scans the text for the bracket pair around the cursor, keeping a stack of
/// the opening brackets not yet closed.
pub open spec fn parens_scan(
    s: Seq<char>,
    open: char,
    close: char,
    inner: bool,
    cur: Cursor,
    t: Cursor,
    stack: Seq<Cursor>,
) -> (CursorBound, CursorBound)
    decreases s.len() - cursor_index(s, t),
    when cursor_valid(s, t) && cursor_index(s, t) <= s.len() && s.len() <= usize::MAX
{
    let ch = char_at_spec(s, t);
    if ch == Some(open) {
        parens_next(s, open, close, inner, cur, t, stack.push(t))
    } else if ch == Some(close) && stack.len() > 0 {
        let l = stack.last();
        if cursor_le(l, cur) && cursor_le(cur, t) {
            if inner {
                if cursor_lt(l, t) {
                    (CursorBound::Excluded(l), CursorBound::Excluded(t))
                } else {
                    empty_range()
                }
            } else {
                (CursorBound::Included(l), CursorBound::Included(t))
            }
        } else {
            parens_next(s, open, close, inner, cur, t, stack.drop_last())
        }
    } else {
        parens_next(s, open, close, inner, cur, t, stack)
    }
}

/// The step after looking at `t`: give up once past the cursor with no
/// opening bracket at or before it, else look at the next char.
pub open spec fn parens_next(
    s: Seq<char>,
    open: char,
    close: char,
    inner: bool,
    cur: Cursor,
    t: Cursor,
    stack: Seq<Cursor>,
) -> (CursorBound, CursorBound)
    decreases s.len() - cursor_index(s, t), 0nat,
    when cursor_valid(s, t) && cursor_index(s, t) <= s.len() && s.len() <= usize::MAX
{
    if cursor_lt(cur, t) && (stack.len() == 0 || cursor_lt(cur, stack[0])) {
        empty_range()
    } else {
        match inc_spec(s, t) {
            Some(n) => {
                proof {
                    lemma_inc_spec(s, t);
                }
                parens_scan(s, open, close, inner, cur, n, stack)
            },
            None => empty_range(),
        }
    }
}

/// Scans the text for the pair of quotes around the cursor.
pub open spec fn quote_scan(
    s: Seq<char>,
    q: char,
    inner: bool,
    cur: Cursor,
    t: Cursor,
    l: Cursor,
    level: bool,
) -> (CursorBound, CursorBound)
    decreases s.len() - cursor_index(s, t),
    when cursor_valid(s, t) && cursor_index(s, t) <= s.len() && s.len() <= usize::MAX
{
    let is_q = char_at_spec(s, t) == Some(q);
    let level2 = if is_q {
        !level
    } else {
        level
    };
    if is_q && !level2 && cursor_le(cur, t) && cursor_le(l, cur) {
        if inner {
            if cursor_lt(l, t) && !(t.row == l.row && t.col == l.col + 1) {
                (CursorBound::Excluded(l), CursorBound::Excluded(t))
            } else {
                empty_range()
            }
        } else {
            (CursorBound::Included(l), CursorBound::Included(t))
        }
    } else {
        let l2 = if is_q {
            t
        } else {
            l
        };
        if cursor_lt(cur, t) && !level2 {
            empty_range()
        } else {
            match inc_spec(s, t) {
                Some(n) => {
                    proof {
                        lemma_inc_spec(s, t);
                    }
                    quote_scan(s, q, inner, cur, n, l2, level2)
                },
                None => empty_range(),
            }
        }
    }
}

/// `f` and `t`: from the cursor to the next `find` on the line (taken with it
/// for `f`); nothing when the line has none.
pub open spec fn find_range_spec(s: Seq<char>, cur: Cursor, find: char, inclusive: bool) -> (
    CursorBound,
    CursorBound,
) {
    let r = scan_right(s, cur, pred_not(find));
    if r.col >= line_len(s, r.row as nat) {
        (CursorBound::Included(cur), CursorBound::Excluded(cur))
    } else if inclusive {
        (CursorBound::Included(cur), CursorBound::Included(r))
    } else {
        (CursorBound::Included(cur), CursorBound::Excluded(r))
    }
}

proof fn lemma_same_line_valid(s: Seq<char>, c: Cursor, col: usize)
    requires
        cursor_valid(s, c),
        col <= c.col || col <= line_len(s, c.row as nat),
    ensures
        cursor_valid(s, Cursor { row: c.row, col }),
        col <= c.col ==> cursor_index(s, Cursor { row: c.row, col }) <= cursor_index(s, c),
{
    if col <= line_len(s, c.row as nat) {
        lemma_valid_up_to_line_len(s, c.row as nat, col as nat);
    } else {
        lemma_valid_before_next_line(s, c.row as nat, c.col as nat);
        lemma_on_line(s, c.row as nat, line_start(s, c.row as nat) + col);
    }
}

/// The char at `c` is a word char (mode 0), a space (mode 1), or not `f`.
fn char_matches<B: CoreBuffer>(core: &Core<B>, c: Cursor, mode: u8, f: char) -> (r: bool)
    ensures
        r == (if mode == 0 {
            pred_word()
        } else if mode == 1 {
            pred_space()
        } else {
            pred_not(f)
        })(char_at_spec(core.text(), c)),
{
    let ch = core.char_at(c);
    if mode == 0 {
        match ch {
            Some(x) => is_alphanumeric(x),
            None => false,
        }
    } else if mode == 1 {
        ch == Some(' ')
    } else {
        ch != Some(f)
    }
}

/// The char just left of `c` is a word char.
fn word_char_before<B: CoreBuffer>(core: &Core<B>, c: Cursor) -> (r: bool)
    requires
        c.col > 0,
    ensures
        r == pred_word()(char_at_spec(core.text(), Cursor { row: c.row, col: (c.col - 1) as usize })),
{
    char_matches(core, Cursor { row: c.row, col: c.col - 1 }, 0, ' ')
}

fn scan_right_exec<B: CoreBuffer>(core: &Core<B>, c: Cursor, mode: u8, f: char) -> (r: Cursor)
    requires
        core.wf(),
        cursor_valid(core.text(), c),
    ensures
        r == scan_right(
            core.text(),
            c,
            if mode == 0 {
                pred_word()
            } else if mode == 1 {
                pred_space()
            } else {
                pred_not(f)
            },
        ),
        cursor_valid(core.text(), r),
        r.row == c.row,
        c.col <= r.col,
        r.col <= c.col || r.col <= line_len(core.text(), c.row as nat),
{
    let ghost s = core.text();
    let ghost p = if mode == 0 {
        pred_word()
    } else if mode == 1 {
        pred_space()
    } else {
        pred_not(f)
    };
    let n = core.len_line(c.row);
    let mut r = c;
    while r.col < n && r.col < usize::MAX && char_matches(core, r, mode, f)
        invariant
            core.wf(),
            s == core.text(),
            n == line_len(s, c.row as nat),
            r.row == c.row,
            c.col <= r.col,
            r.col <= c.col || r.col <= n,
            cursor_valid(s, r),
            scan_right(s, r, p) == scan_right(s, c, p),
            p == (if mode == 0 {
                pred_word()
            } else if mode == 1 {
                pred_space()
            } else {
                pred_not(f)
            }),
        decreases n - r.col,
    {
        assert(scan_right(s, r, p) == scan_right(s, Cursor { row: r.row, col: (r.col + 1) as usize }, p));
        r = Cursor { row: r.row, col: r.col + 1 };
        proof {
            lemma_valid_up_to_line_len(s, r.row as nat, r.col as nat);
        }
    }
    r
}

impl Word {
    fn scan_left_exec<B: CoreBuffer>(core: &Core<B>, c: Cursor) -> (r: Cursor)
        requires
            core.wf(),
            cursor_valid(core.text(), c),
        ensures
            r == scan_left(core.text(), c, pred_word()),
            cursor_valid(core.text(), r),
            r.row == c.row,
            r.col <= c.col,
    {
        let ghost s = core.text();
        let mut l = c;
        while l.col > 0 && word_char_before(core, l)
            invariant
                core.wf(),
                s == core.text(),
                l.row == c.row,
                l.col <= c.col,
                cursor_valid(s, c),
                scan_left(s, l, pred_word()) == scan_left(s, c, pred_word()),
            decreases l.col,
        {
            l = Cursor { row: l.row, col: l.col - 1 };
        }
        proof {
            lemma_same_line_valid(s, c, l.col);
        }
        l
    }
}

/// The word text object.
pub struct Word;

/// The text object of a pair of quote chars.
pub struct Quote(pub char);

/// The text object of a bracket pair (opening, closing).
pub struct Parens(pub char, pub char);

/// A text object gives the range that an action works on.
pub trait TextObject<B: CoreBuffer> {
    fn get_range(&self, action: Action, prefix: TextObjectPrefix, core: &Core<B>) -> (r: (
        CursorBound,
        CursorBound,
    ))
        requires
            core.wf(),
        ensures
            range_valid(core.text(), r),
    ;
}

proof fn lemma_empty_range_valid(s: Seq<char>)
    ensures
        range_valid(s, empty_range()),
{
    lemma_valid_up_to_line_len(s, 0, 0);
}

impl<B: CoreBuffer> TextObject<B> for Word {
    fn get_range(&self, action: Action, prefix: TextObjectPrefix, core: &Core<B>) -> (r: (
        CursorBound,
        CursorBound,
    ))
        ensures
            r == word_range_spec(core.text(), core.cur(), action, prefix),
    {
        let ghost s = core.text();
        proof {
            core.lemma_wf();
        }
        let cur = core.cursor();
        let l = match prefix {
            TextObjectPrefix::NoPrefix => cur,
            _ => Word::scan_left_exec(core, cur),
        };
        let r1 = scan_right_exec(core, cur, 0, ' ');
        let r = if action != Action::Change && prefix != TextObjectPrefix::Inner {
            scan_right_exec(core, r1, 1, ' ')
        } else {
            r1
        };
        proof {
            lemma_same_line_valid(s, cur, l.col);
            lemma_same_line_valid(s, r, cur.col);
        }
        (CursorBound::Included(l), CursorBound::Excluded(r))
    }
}

impl<B: CoreBuffer> TextObject<B> for Parens {
    fn get_range(&self, action: Action, prefix: TextObjectPrefix, core: &Core<B>) -> (r: (
        CursorBound,
        CursorBound,
    ))
        ensures
            r == match prefix {
                TextObjectPrefix::NoPrefix => empty_range(),
                _ => parens_scan(
                    core.text(),
                    self.0,
                    self.1,
                    prefix == TextObjectPrefix::Inner,
                    core.cur(),
                    Cursor { row: 0, col: 0 },
                    Seq::empty(),
                ),
            },
    {
        let ghost s = core.text();
        proof {
            lemma_empty_range_valid(s);
        }
        if prefix == TextObjectPrefix::NoPrefix {
            return empty_range_exec();
        }
        let inner = prefix == TextObjectPrefix::Inner;
        proof {
            core.lemma_wf();
        }
        let cur = core.cursor();
        let _len = core.len_chars();
        let mut stack: Vec<Cursor> = Vec::new();
        let mut t = Cursor { row: 0, col: 0 };
        proof {
            lemma_valid_up_to_line_len(s, 0, 0);
        }
        let ghost target = parens_scan(s, self.0, self.1, inner, cur, t, stack@);
        loop
            invariant
                core.wf(),
                s == core.text(),
                cur == core.cur(),
                inner == (prefix == TextObjectPrefix::Inner),
                prefix != TextObjectPrefix::NoPrefix,
                s.len() <= usize::MAX,
                cursor_valid(s, t),
                cursor_valid(s, cur),
                forall|i: int|
                    0 <= i < stack@.len() ==> cursor_valid(s, #[trigger] stack@[i])
                        && cursor_index(s, stack@[i]) < cursor_index(s, t)
                        && cursor_index(s, stack@[i]) < s.len() && cursor_lt(stack@[i], t),
                parens_scan(s, self.0, self.1, inner, cur, t, stack@) == target,
                target == parens_scan(s, self.0, self.1, inner, cur, Cursor { row: 0, col: 0 }, Seq::empty()),
            decreases s.len() - cursor_index(s, t),
        {
            let ch = core.char_at(t);
            let ghost st0 = stack@;
            proof {
                lemma_line_len_bounds(s, t.row as nat);
                lemma_valid_before_next_line(s, t.row as nat, t.col as nat);
            }
            if ch == Some(self.0) {
                stack.push(t);
                assert(parens_scan(s, self.0, self.1, inner, cur, t, st0) == parens_next(
                    s,
                    self.0,
                    self.1,
                    inner,
                    cur,
                    t,
                    stack@,
                ));
            } else if ch == Some(self.1) && stack.len() > 0 {
                let l = stack.pop().unwrap();
                proof {
                    lemma_cursor_order(s, l, t);
                    lemma_cursor_order(s, l, cur);
                    lemma_cursor_order(s, cur, t);
                }
                if l.le(&cur) && cur.le(&t) {
                    if inner {
                        if l.lt(&t) {
                            return (CursorBound::Excluded(l), CursorBound::Excluded(t));
                        } else {
                            return empty_range_exec();
                        }
                    } else {
                        return (CursorBound::Included(l), CursorBound::Included(t));
                    }
                }
                assert(parens_scan(s, self.0, self.1, inner, cur, t, st0) == parens_next(
                    s,
                    self.0,
                    self.1,
                    inner,
                    cur,
                    t,
                    stack@,
                ));
            } else {
                assert(parens_scan(s, self.0, self.1, inner, cur, t, st0) == parens_next(
                    s,
                    self.0,
                    self.1,
                    inner,
                    cur,
                    t,
                    stack@,
                ));
            }
            let give_up = cur.lt(&t) && (stack.len() == 0 || cur.lt(&stack[0]));
            if give_up {
                return empty_range_exec();
            }
            proof {
                lemma_inc_spec(s, t);
            }
            match core.next_cursor(t) {
                Some(n) => {
                    proof {
                        assert forall|i: int| 0 <= i < stack@.len() implies cursor_valid(
                            s,
                            #[trigger] stack@[i],
                        ) && cursor_index(s, stack@[i]) < cursor_index(s, n) && cursor_index(
                            s,
                            stack@[i],
                        ) < s.len() && cursor_lt(stack@[i], n) by {
                            lemma_cursor_order(s, stack@[i], n);
                        }
                    }
                    t = n;
                },
                None => {
                    return empty_range_exec();
                },
            }
        }
    }
}

impl<B: CoreBuffer> TextObject<B> for Quote {
    fn get_range(&self, action: Action, prefix: TextObjectPrefix, core: &Core<B>) -> (r: (
        CursorBound,
        CursorBound,
    ))
        ensures
            r == match prefix {
                TextObjectPrefix::NoPrefix => empty_range(),
                _ => quote_scan(
                    core.text(),
                    self.0,
                    prefix == TextObjectPrefix::Inner,
                    core.cur(),
                    Cursor { row: 0, col: 0 },
                    Cursor { row: 0, col: 0 },
                    false,
                ),
            },
    {
        let ghost s = core.text();
        proof {
            lemma_empty_range_valid(s);
        }
        if prefix == TextObjectPrefix::NoPrefix {
            return empty_range_exec();
        }
        let inner = prefix == TextObjectPrefix::Inner;
        proof {
            core.lemma_wf();
        }
        let cur = core.cursor();
        let _len = core.len_chars();
        let mut t = Cursor { row: 0, col: 0 };
        let mut l = Cursor { row: 0, col: 0 };
        let mut level = false;
        proof {
            lemma_valid_up_to_line_len(s, 0, 0);
        }
        let ghost target = quote_scan(s, self.0, inner, cur, t, l, level);
        loop
            invariant
                core.wf(),
                s == core.text(),
                cur == core.cur(),
                inner == (prefix == TextObjectPrefix::Inner),
                prefix != TextObjectPrefix::NoPrefix,
                s.len() <= usize::MAX,
                cursor_valid(s, t),
                cursor_valid(s, cur),
                cursor_valid(s, l),
                cursor_le(l, t),
                level ==> cursor_index(s, l) < s.len(),
                quote_scan(s, self.0, inner, cur, t, l, level) == target,
                target == quote_scan(
                    s,
                    self.0,
                    inner,
                    cur,
                    Cursor { row: 0, col: 0 },
                    Cursor { row: 0, col: 0 },
                    false,
                ),
            decreases s.len() - cursor_index(s, t),
        {
            let is_q = core.char_at(t) == Some(self.0);
            proof {
                lemma_line_len_bounds(s, t.row as nat);
                lemma_valid_before_next_line(s, t.row as nat, t.col as nat);
                lemma_cursor_order(s, l, t);
                lemma_cursor_order(s, l, cur);
                lemma_cursor_order(s, cur, t);
            }
            if is_q {
                level = !level;
                if !level && cur.le(&t) && l.le(&cur) {
                    if inner {
                        if l.lt(&t) && !(t.row == l.row && t.col == l.col + 1) {
                            return (CursorBound::Excluded(l), CursorBound::Excluded(t));
                        } else {
                            return empty_range_exec();
                        }
                    } else {
                        return (CursorBound::Included(l), CursorBound::Included(t));
                    }
                }
                l = t;
            }
            if cur.lt(&t) && !level {
                return empty_range_exec();
            }
            proof {
                lemma_inc_spec(s, t);
            }
            match core.next_cursor(t) {
                Some(n) => {
                    proof {
                        lemma_cursor_order(s, l, n);
                    }
                    t = n;
                },
                None => {
                    return empty_range_exec();
                },
            }
        }
    }
}

/// What a text-object key does after the operator: picks a prefix, or names a
/// range.
pub struct TextObjectParser {
    pub action: Action,
    pub prefix: Prefix,
}

/// The prefix after a key, and the range the key names (if any).
pub open spec fn parse_spec(
    prefix: Prefix,
    action: Action,
    c: char,
    s: Seq<char>,
    cur: Cursor,
) -> (Prefix, Option<(CursorBound, CursorBound)>) {
    let is_tp = prefix is TextObjectPrefix;
    if is_tp && (c == 'f' || c == 't') {
        (Prefix::Find { inclusive: c == 'f' }, None)
    } else {
        let p2 = if is_tp && c == 'a' {
            Prefix::TextObjectPrefix(TextObjectPrefix::A)
        } else if is_tp && c == 'i' {
            Prefix::TextObjectPrefix(TextObjectPrefix::Inner)
        } else {
            prefix
        };
        let r = match p2 {
            Prefix::Find { inclusive } => Some(find_range_spec(s, cur, c, inclusive)),
            Prefix::TextObjectPrefix(tp) => if c == 'w' {
                Some(word_range_spec(s, cur, action, tp))
            } else if c == '\'' || c == '"' {
                Some(
                    match tp {
                        TextObjectPrefix::NoPrefix => empty_range(),
                        _ => quote_scan(
                            s,
                            c,
                            tp == TextObjectPrefix::Inner,
                            cur,
                            Cursor { row: 0, col: 0 },
                            Cursor { row: 0, col: 0 },
                            false,
                        ),
                    },
                )
            } else if c == '{' || c == '}' || c == '(' || c == ')' || c == '[' || c == ']' {
                let (o, cl) = if c == '{' || c == '}' {
                    ('{', '}')
                } else if c == '(' || c == ')' {
                    ('(', ')')
                } else {
                    ('[', ']')
                };
                Some(
                    match tp {
                        TextObjectPrefix::NoPrefix => empty_range(),
                        _ => parens_scan(
                            s,
                            o,
                            cl,
                            tp == TextObjectPrefix::Inner,
                            cur,
                            Cursor { row: 0, col: 0 },
                            Seq::empty(),
                        ),
                    },
                )
            } else {
                None
            },
        };
        (p2, r)
    }
}

impl TextObjectParser {
    pub fn new(action: Action) -> (r: Self)
        ensures
            r.action == action,
            r.prefix == Prefix::TextObjectPrefix(TextObjectPrefix::NoPrefix),
    {
        Self { action, prefix: Prefix::TextObjectPrefix(TextObjectPrefix::NoPrefix) }
    }

    /// Takes the next key: it may set the prefix, and may name a range (always a
    /// valid one).
    pub fn parse<B: CoreBuffer>(&mut self, c: char, core: &Core<B>) -> (r: Option<
        (CursorBound, CursorBound),
    >)
        requires
            core.wf(),
        ensures
            (final(self).prefix, r) == parse_spec(
                old(self).prefix,
                old(self).action,
                c,
                core.text(),
                core.cur(),
            ),
            final(self).action == old(self).action,
            r matches Some(range) ==> range_valid(core.text(), range),
    {
        let ghost s = core.text();
        if let Prefix::TextObjectPrefix(_) = self.prefix {
            match c {
                'a' => {
                    self.prefix = Prefix::TextObjectPrefix(TextObjectPrefix::A);
                },
                'i' => {
                    self.prefix = Prefix::TextObjectPrefix(TextObjectPrefix::Inner);
                },
                'f' | 't' => {
                    self.prefix = Prefix::Find { inclusive: c == 'f' };
                    return None;
                },
                _ => {},
            }
        }
        match self.prefix {
            Prefix::Find { inclusive } => {
                let find = c;
                proof {
                    core.lemma_wf();
                }
                let l = core.cursor();
                let r = scan_right_exec(core, l, 2, find);
                let n = core.len_line(r.row);
                proof {
                    lemma_same_line_valid(s, r, l.col);
                    lemma_line_len_bounds(s, r.row as nat);
                    lemma_valid_before_next_line(s, r.row as nat, r.col as nat);
                }
                if r.col >= n {
                    return Some((CursorBound::Included(l), CursorBound::Excluded(l)));
                }
                if inclusive {
                    Some((CursorBound::Included(l), CursorBound::Included(r)))
                } else {
                    Some((CursorBound::Included(l), CursorBound::Excluded(r)))
                }
            },
            Prefix::TextObjectPrefix(text_object_prefix) => match c {
                'w' => Some(Word.get_range(self.action, text_object_prefix, core)),
                '\'' | '"' => Some(Quote(c).get_range(self.action, text_object_prefix, core)),
                '{' | '}' => Some(Parens('{', '}').get_range(self.action, text_object_prefix, core)),
                '(' | ')' => Some(Parens('(', ')').get_range(self.action, text_object_prefix, core)),
                '[' | ']' => Some(Parens('[', ']').get_range(self.action, text_object_prefix, core)),
                _ => None,
            },
        }
    }
}

/// `l` holds the opening bracket and `t` the closing one, with the cursor
/// between them (both ends included).
pub open spec fn bracket_pair_at(
    s: Seq<char>,
    l: Cursor,
    t: Cursor,
    open: char,
    close: char,
    cur: Cursor,
) -> bool {
    &&& char_at_spec(s, l) == Some(open)
    &&& char_at_spec(s, t) == Some(close)
    &&& cursor_le(l, cur)
    &&& cursor_le(cur, t)
}

/// A bracket object's range: nothing, or a pair of brackets around the
/// cursor, taken with the brackets or (strictly) inside them.
pub open spec fn bracket_range(
    s: Seq<char>,
    r: (CursorBound, CursorBound),
    open: char,
    close: char,
    cur: Cursor,
) -> bool {
    match r {
        (CursorBound::Included(l), CursorBound::Included(t)) => bracket_pair_at(
            s,
            l,
            t,
            open,
            close,
            cur,
        ),
        (CursorBound::Excluded(l), CursorBound::Excluded(t)) => bracket_pair_at(
            s,
            l,
            t,
            open,
            close,
            cur,
        ) && cursor_lt(l, t),
        _ => r == empty_range(),
    }
}

proof fn lemma_parens_scan_sound(
    s: Seq<char>,
    open: char,
    close: char,
    inner: bool,
    cur: Cursor,
    t: Cursor,
    stack: Seq<Cursor>,
)
    requires
        cursor_valid(s, t),
        s.len() <= usize::MAX,
        forall|i: int| 0 <= i < stack.len() ==> char_at_spec(s, #[trigger] stack[i]) == Some(open),
    ensures
        bracket_range(s, parens_scan(s, open, close, inner, cur, t, stack), open, close, cur),
    decreases s.len() - cursor_index(s, t), 1nat,
{
    lemma_valid_before_next_line(s, t.row as nat, t.col as nat);
    let ch = char_at_spec(s, t);
    if ch == Some(open) {
        let st = stack.push(t);
        assert forall|i: int| 0 <= i < st.len() implies char_at_spec(s, #[trigger] st[i]) == Some(
            open,
        ) by {
            if i < stack.len() {
                assert(st[i] == stack[i]);
            }
        }
        lemma_parens_next_sound(s, open, close, inner, cur, t, st);
    } else if ch == Some(close) && stack.len() > 0 {
        let l = stack.last();
        if cursor_le(l, cur) && cursor_le(cur, t) {
        } else {
            let st = stack.drop_last();
            assert forall|i: int| 0 <= i < st.len() implies char_at_spec(s, #[trigger] st[i])
                == Some(open) by {
                assert(st[i] == stack[i]);
            }
            lemma_parens_next_sound(s, open, close, inner, cur, t, st);
        }
    } else {
        lemma_parens_next_sound(s, open, close, inner, cur, t, stack);
    }
}

proof fn lemma_parens_next_sound(
    s: Seq<char>,
    open: char,
    close: char,
    inner: bool,
    cur: Cursor,
    t: Cursor,
    stack: Seq<Cursor>,
)
    requires
        cursor_valid(s, t),
        s.len() <= usize::MAX,
        forall|i: int| 0 <= i < stack.len() ==> char_at_spec(s, #[trigger] stack[i]) == Some(open),
    ensures
        bracket_range(s, parens_next(s, open, close, inner, cur, t, stack), open, close, cur),
    decreases s.len() - cursor_index(s, t), 0nat,
{
    lemma_valid_before_next_line(s, t.row as nat, t.col as nat);
    if cursor_lt(cur, t) && (stack.len() == 0 || cursor_lt(cur, stack[0])) {
    } else {
        match inc_spec(s, t) {
            Some(n) => {
                lemma_inc_spec(s, t);
                lemma_valid_before_next_line(s, n.row as nat, n.col as nat);
                lemma_parens_scan_sound(s, open, close, inner, cur, n, stack);
            },
            None => {},
        }
    }
}

/// The range a bracket object gives for the pair at `l` and `t`.
pub open spec fn pair_range(l: Cursor, t: Cursor, inner: bool) -> (CursorBound, CursorBound) {
    if inner {
        (CursorBound::Excluded(l), CursorBound::Excluded(t))
    } else {
        (CursorBound::Included(l), CursorBound::Included(t))
    }
}

/// No bracket of the pair stands strictly between `l` and `t`.
pub open spec fn no_bracket_between(
    s: Seq<char>,
    l: Cursor,
    t: Cursor,
    open: char,
    close: char,
) -> bool {
    forall|d: Cursor|
        cursor_lt(l, d) && cursor_lt(d, t) ==> #[trigger] char_at_spec(s, d) != Some(open)
            && char_at_spec(s, d) != Some(close)
}

proof fn lemma_parens_next_finds(
    s: Seq<char>,
    open: char,
    close: char,
    inner: bool,
    cur: Cursor,
    t1: Cursor,
    stack: Seq<Cursor>,
    l: Cursor,
    t: Cursor,
)
    requires
        s.len() <= usize::MAX,
        open != close,
        cursor_valid(s, t1),
        cursor_valid(s, t),
        bracket_pair_at(s, l, t, open, close, cur),
        no_bracket_between(s, l, t, open, close),
        cursor_le(l, t1),
        cursor_lt(t1, t),
        stack.len() > 0,
        stack.last() == l,
        cursor_le(stack[0], l),
    ensures
        parens_next(s, open, close, inner, cur, t1, stack) == pair_range(l, t, inner),
    decreases cursor_index(s, t) - cursor_index(s, t1),
{
    lemma_valid_before_next_line(s, t1.row as nat, t1.col as nat);
    lemma_inc_least(s, t1, t);
    lemma_inc_spec(s, t1);
    let n = inc_spec(s, t1)->0;
    lemma_cursor_order(s, n, t);
    lemma_valid_before_next_line(s, n.row as nat, n.col as nat);
    if n == t {
        assert(parens_scan(s, open, close, inner, cur, n, stack) == pair_range(l, t, inner));
    } else {
        assert(char_at_spec(s, n) != Some(open) && char_at_spec(s, n) != Some(close));
        lemma_parens_next_finds(s, open, close, inner, cur, n, stack, l, t);
        assert(parens_scan(s, open, close, inner, cur, n, stack) == parens_next(
            s,
            open,
            close,
            inner,
            cur,
            n,
            stack,
        ));
    }
}

proof fn lemma_parens_scan_finds(
    s: Seq<char>,
    open: char,
    close: char,
    inner: bool,
    cur: Cursor,
    t0: Cursor,
    stack: Seq<Cursor>,
    l: Cursor,
    t: Cursor,
)
    requires
        s.len() <= usize::MAX,
        open != close,
        cursor_valid(s, t0),
        cursor_valid(s, l),
        cursor_valid(s, t),
        bracket_pair_at(s, l, t, open, close, cur),
        no_bracket_between(s, l, t, open, close),
        cursor_le(t0, l),
        forall|i: int| 0 <= i < stack.len() ==> cursor_lt(#[trigger] stack[i], t0),
    ensures
        parens_scan(s, open, close, inner, cur, t0, stack) == pair_range(l, t, inner),
    decreases cursor_index(s, l) - cursor_index(s, t0),
{
    lemma_valid_before_next_line(s, t0.row as nat, t0.col as nat);
    lemma_cursor_order(s, t0, l);
    if t0 == l {
        let st = stack.push(l);
        if stack.len() > 0 {
            assert(st[0] == stack[0]);
        }
        lemma_parens_next_finds(s, open, close, inner, cur, l, st, l, t);
    } else {
        let ch = char_at_spec(s, t0);
        let st = if ch == Some(open) {
            stack.push(t0)
        } else if ch == Some(close) && stack.len() > 0 {
            stack.drop_last()
        } else {
            stack
        };
        assert(parens_scan(s, open, close, inner, cur, t0, stack) == parens_next(
            s,
            open,
            close,
            inner,
            cur,
            t0,
            st,
        ));
        assert(on_line_pos(s, l));
        lemma_inc_least(s, t0, l);
        lemma_inc_spec(s, t0);
        let n = inc_spec(s, t0)->0;
        lemma_cursor_order(s, n, l);
        assert forall|i: int| 0 <= i < st.len() implies cursor_lt(#[trigger] st[i], n) by {
            if i < stack.len() {
                assert(st[i] == stack[i]);
            }
        }
        lemma_parens_scan_finds(s, open, close, inner, cur, n, st, l, t);
    }
}

/// `[` or `]` after `a` or `i` names a range between square brackets: either
/// nothing, or a `[` and a `]` of the text around the cursor, taken with the
/// brackets (`a`) or strictly inside them (`i`).
pub proof fn law_square_brackets_bound_the_range(
    tp: TextObjectPrefix,
    action: Action,
    c: char,
    s: Seq<char>,
    cur: Cursor,
)
    requires
        tp != TextObjectPrefix::NoPrefix,
        c == '[' || c == ']',
        s.len() <= usize::MAX,
    ensures
        parse_spec(Prefix::TextObjectPrefix(tp), action, c, s, cur).1 matches Some(r)
            && bracket_range(s, r, '[', ']', cur),
{
    lemma_valid_up_to_line_len(s, 0, 0);
    lemma_parens_scan_sound(
        s,
        '[',
        ']',
        tp == TextObjectPrefix::Inner,
        cur,
        Cursor { row: 0, col: 0 },
        Seq::empty(),
    );
}

/// `[` or `]` after `a` or `i`, when a `[` at `l` and a `]` at `t` stand
/// around the cursor with no square bracket between them, names exactly that
/// pair: with the brackets for `a`, strictly inside them for `i`.
pub proof fn law_square_brackets_find_the_pair(
    tp: TextObjectPrefix,
    action: Action,
    c: char,
    s: Seq<char>,
    cur: Cursor,
    l: Cursor,
    t: Cursor,
)
    requires
        tp != TextObjectPrefix::NoPrefix,
        c == '[' || c == ']',
        s.len() <= usize::MAX,
        cursor_valid(s, l),
        cursor_valid(s, t),
        bracket_pair_at(s, l, t, '[', ']', cur),
        no_bracket_between(s, l, t, '[', ']'),
    ensures
        parse_spec(Prefix::TextObjectPrefix(tp), action, c, s, cur).1 == Some(
            pair_range(l, t, tp == TextObjectPrefix::Inner),
        ),
{
    lemma_valid_up_to_line_len(s, 0, 0);
    lemma_parens_scan_finds(
        s,
        '[',
        ']',
        tp == TextObjectPrefix::Inner,
        cur,
        Cursor { row: 0, col: 0 },
        Seq::empty(),
        l,
        t,
    );
}

/// Walking on from `x` to `t` while `d` brackets deep, the depth never drops
/// below zero and is back to zero on reaching `t`: `t` closes the bracket
/// that was open at `x`.
pub open spec fn balanced_to(
    s: Seq<char>,
    open: char,
    close: char,
    x: Cursor,
    t: Cursor,
    d: int,
) -> bool
    decreases s.len() - cursor_index(s, x),
    when cursor_valid(s, x) && cursor_index(s, x) <= s.len() && s.len() <= usize::MAX
{
    match inc_spec(s, x) {
        Some(n) => {
            proof {
                lemma_inc_spec(s, x);
            }
            if n == t {
                d == 0
            } else if cursor_lt(t, n) {
                false
            } else {
                let d2 = if char_at_spec(s, n) == Some(open) {
                    d + 1
                } else if char_at_spec(s, n) == Some(close) {
                    d - 1
                } else {
                    d
                };
                d2 >= 0 && balanced_to(s, open, close, n, t, d2)
            }
        },
        None => false,
    }
}

/// The range is a pair of brackets around the cursor that lies within `l`
/// and `t`, with the brackets or (for `inner`) strictly inside them.
pub open spec fn within_pair(
    s: Seq<char>,
    r: (CursorBound, CursorBound),
    l: Cursor,
    t: Cursor,
    open: char,
    close: char,
    cur: Cursor,
    inner: bool,
) -> bool {
    match r {
        (CursorBound::Excluded(a), CursorBound::Excluded(b)) => inner && cursor_le(l, a)
            && cursor_le(b, t) && bracket_pair_at(s, a, b, open, close, cur),
        (CursorBound::Included(a), CursorBound::Included(b)) => !inner && cursor_le(l, a)
            && cursor_le(b, t) && bracket_pair_at(s, a, b, open, close, cur),
        _ => false,
    }
}

proof fn lemma_parens_next_inside(
    s: Seq<char>,
    open: char,
    close: char,
    inner: bool,
    cur: Cursor,
    t1: Cursor,
    stack: Seq<Cursor>,
    k: int,
    l: Cursor,
    t: Cursor,
    d: int,
)
    requires
        s.len() <= usize::MAX,
        open != close,
        cursor_valid(s, t1),
        cursor_valid(s, t),
        bracket_pair_at(s, l, t, open, close, cur),
        cursor_le(l, t1),
        cursor_lt(t1, t),
        0 <= k < stack.len(),
        stack[k] == l,
        cursor_le(stack[0], l),
        d == stack.len() - 1 - k,
        forall|i: int|
            k < i < stack.len() ==> cursor_lt(l, #[trigger] stack[i]) && cursor_le(stack[i], t1)
                && char_at_spec(s, stack[i]) == Some(open),
        balanced_to(s, open, close, t1, t, d),
    ensures
        within_pair(s, parens_next(s, open, close, inner, cur, t1, stack), l, t, open, close, cur, inner),
    decreases cursor_index(s, t) - cursor_index(s, t1),
{
    lemma_valid_before_next_line(s, t1.row as nat, t1.col as nat);
    lemma_inc_least(s, t1, t);
    lemma_inc_spec(s, t1);
    let n = inc_spec(s, t1)->0;
    lemma_cursor_order(s, n, t);
    lemma_valid_before_next_line(s, n.row as nat, n.col as nat);
    assert(parens_next(s, open, close, inner, cur, t1, stack) == parens_scan(
        s,
        open,
        close,
        inner,
        cur,
        n,
        stack,
    ));
    let ch = char_at_spec(s, n);
    if n == t {
        assert(d == 0);
        assert(stack.last() == l);
    } else {
        assert(cursor_lt(n, t));
        if ch == Some(open) {
            let st = stack.push(n);
            assert(st[k] == l);
            assert(st[0] == stack[0]);
            assert forall|i: int| k < i < st.len() implies cursor_lt(l, #[trigger] st[i])
                && cursor_le(st[i], n) && char_at_spec(s, st[i]) == Some(open) by {
                if i < stack.len() {
                    assert(st[i] == stack[i]);
                }
            }
            lemma_parens_next_inside(s, open, close, inner, cur, n, st, k, l, t, d + 1);
        } else if ch == Some(close) {
            assert(d >= 1);
            let top = stack.last();
            assert(top == stack[stack.len() - 1]);
            if cursor_le(top, cur) && cursor_le(cur, n) {
            } else {
                let st = stack.drop_last();
                assert(st[k] == l);
                assert(st[0] == stack[0]);
                assert forall|i: int| k < i < st.len() implies cursor_lt(l, #[trigger] st[i])
                    && cursor_le(st[i], n) && char_at_spec(s, st[i]) == Some(open) by {
                    assert(st[i] == stack[i]);
                }
                lemma_parens_next_inside(s, open, close, inner, cur, n, st, k, l, t, d - 1);
            }
        } else {
            assert forall|i: int| k < i < stack.len() implies cursor_lt(l, #[trigger] stack[i])
                && cursor_le(stack[i], n) && char_at_spec(s, stack[i]) == Some(open) by {}
            lemma_parens_next_inside(s, open, close, inner, cur, n, stack, k, l, t, d);
        }
    }
}

proof fn lemma_parens_scan_reaches(
    s: Seq<char>,
    open: char,
    close: char,
    inner: bool,
    cur: Cursor,
    t0: Cursor,
    stack: Seq<Cursor>,
    l: Cursor,
    t: Cursor,
)
    requires
        s.len() <= usize::MAX,
        open != close,
        cursor_valid(s, t0),
        cursor_valid(s, l),
        cursor_valid(s, t),
        bracket_pair_at(s, l, t, open, close, cur),
        balanced_to(s, open, close, l, t, 0),
        cursor_le(t0, l),
        forall|i: int| 0 <= i < stack.len() ==> cursor_lt(#[trigger] stack[i], t0),
    ensures
        within_pair(s, parens_scan(s, open, close, inner, cur, t0, stack), l, t, open, close, cur, inner),
    decreases cursor_index(s, l) - cursor_index(s, t0),
{
    lemma_valid_before_next_line(s, t0.row as nat, t0.col as nat);
    lemma_cursor_order(s, t0, l);
    if t0 == l {
        let st = stack.push(l);
        if stack.len() > 0 {
            assert(st[0] == stack[0]);
        }
        assert(st[stack.len() as int] == l);
        lemma_cursor_order(s, l, t);
        lemma_parens_next_inside(s, open, close, inner, cur, l, st, stack.len() as int, l, t, 0);
    } else {
        let ch = char_at_spec(s, t0);
        let st = if ch == Some(open) {
            stack.push(t0)
        } else if ch == Some(close) && stack.len() > 0 {
            stack.drop_last()
        } else {
            stack
        };
        assert(parens_scan(s, open, close, inner, cur, t0, stack) == parens_next(
            s,
            open,
            close,
            inner,
            cur,
            t0,
            st,
        ));
        assert(on_line_pos(s, l));
        lemma_inc_least(s, t0, l);
        lemma_inc_spec(s, t0);
        let n = inc_spec(s, t0)->0;
        lemma_cursor_order(s, n, l);
        assert forall|i: int| 0 <= i < st.len() implies cursor_lt(#[trigger] st[i], n) by {
            if i < stack.len() {
                assert(st[i] == stack[i]);
            }
        }
        lemma_parens_scan_reaches(s, open, close, inner, cur, n, st, l, t);
    }
}

/// `[` or `]` after `a` or `i`, when a `[` at `l` and the `]` at `t` that
/// closes it stand around the cursor, names a pair of square brackets around
/// the cursor that lies within them (the innermost such pair is that pair
/// itself): with the brackets for `a`, strictly inside them for `i`.
pub proof fn law_square_brackets_enclosing_pair(
    tp: TextObjectPrefix,
    action: Action,
    c: char,
    s: Seq<char>,
    cur: Cursor,
    l: Cursor,
    t: Cursor,
)
    requires
        tp != TextObjectPrefix::NoPrefix,
        c == '[' || c == ']',
        s.len() <= usize::MAX,
        cursor_valid(s, l),
        cursor_valid(s, t),
        bracket_pair_at(s, l, t, '[', ']', cur),
        balanced_to(s, '[', ']', l, t, 0),
    ensures
        parse_spec(Prefix::TextObjectPrefix(tp), action, c, s, cur).1 matches Some(r) && within_pair(
            s,
            r,
            l,
            t,
            '[',
            ']',
            cur,
            tp == TextObjectPrefix::Inner,
        ),
{
    lemma_valid_up_to_line_len(s, 0, 0);
    lemma_parens_scan_reaches(
        s,
        '[',
        ']',
        tp == TextObjectPrefix::Inner,
        cur,
        Cursor { row: 0, col: 0 },
        Seq::empty(),
        l,
        t,
    );
}

} // verus!
