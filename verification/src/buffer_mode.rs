//! A buffer with its current mode: keys go to the mode, and the transitions
//! it answers with switch modes, record the keys that `.` repeats, and tell
//! the tab bar what to do.
use vstd::prelude::*;

use crate::buffer::Buffer;
use crate::edit_core::buffer::CoreBuffer;
use crate::event::Event;
use crate::draw::cursor::CursorState;
use crate::draw::{Term, TermView};
use crate::mode::{mode_step, settings_kept, Completion, Mode, Normal, Request, TabNineCompletion, Transition, TransitionReturn};
use crate::completion::{polled, rebuilt};
use crate::mode_draw::{draw_kept, drawable, mode_screen, term_kept, DrawInput, DrawStatus};

verus! {

/// What the tabs are to do after a key.
pub enum TabOperation {
    Nothing,
    /// Close this tab.
    Close,
    NewTab,
    /// Go to tab `n` (1-based).
    ChangeTab(usize),
    StartRmate,
    /// Do this work; the buffer is back in normal mode.
    Request(Request),
}

/// A buffer in a mode, with the keys being recorded and the last recorded
/// ones, which `.` repeats.
pub struct BufferMode<B: CoreBuffer> {
    pub buf: Buffer<B>,
    pub mode: Mode,
    pub is_recording: bool,
    pub dot_macro: Vec<Event>,
    pub recording_macro: Vec<Event>,
}

/// How the macro records change with a transition (other than `DoMacro`):
/// recording starts afresh with the key on `RecordMacro`, and on `Return`
/// it stops, the recorded keys becoming the macro when the return says so
/// and there are any.
pub open spec fn macros_after(
    recording: bool,
    dot: Seq<Event>,
    rec: Seq<Event>,
    ev: Event,
    t: Transition,
) -> (bool, Seq<Event>, Seq<Event>) {
    match t {
        Transition::RecordMacro(_) => (true, dot, seq![ev]),
        Transition::Return(r) => if recording && rec.len() > 0 && r.is_commit_dot_macro {
            (false, rec, Seq::empty())
        } else {
            (false, dot, rec)
        },
        _ => (recording, dot, rec),
    }
}

/// The tab operation a transition gives.
pub open spec fn tab_operation_of(t: Transition) -> TabOperation {
    match t {
        Transition::Exit => TabOperation::Close,
        Transition::CreateNewTab => TabOperation::NewTab,
        Transition::ChangeTab(i) => TabOperation::ChangeTab(i),
        Transition::StartRmate => TabOperation::StartRmate,
        Transition::Request(r) => TabOperation::Request(r),
        _ => TabOperation::Nothing,
    }
}

/// Whether the mode after a transition is normal mode.
pub open spec fn goes_normal(t: Transition) -> bool {
    t is Return || t is CreateNewTab || t is ChangeTab || t is StartRmate || t is Request
}

fn copy_events(v: &Vec<Event>) -> (r: Vec<Event>)
    ensures
        r@ == v@,
{
    let mut r: Vec<Event> = Vec::new();
    let mut i: usize = 0;
    while i < v.len()
        invariant
            i <= v@.len(),
            r@ == v@.take(i as int),
        decreases v@.len() - i,
    {
        r.push(v[i]);
        assert(v@.take(i + 1) =~= v@.take(i as int).push(v@[i as int]));
        i += 1;
    }
    assert(v@.take(v@.len() as int) =~= v@);
    r
}

/// The mode `m` that a transition switches to, as `after` holds it once
/// it has looked at the buffer `b`: insert mode brings its offers up to
/// date; other modes start as they are.
pub open spec fn started<B: CoreBuffer>(m: Mode, after: Mode, b: &Buffer<B>) -> bool {
    match m {
        Mode::Insert(i0) => after matches Mode::Insert(i1) && rebuilt(i0, i1, b),
        _ => after == m,
    }
}

/// What one key does to a buffer mode apart from what `.` replays, the
/// mode's own step being `t` with the buffer `b1` after it: a recorded key
/// is added first; a transition other than `.` sets the mode (the new mode
/// started on the buffer), the macros and the tab operation; `.` asks the
/// tabs for nothing.
pub open spec fn step_core<B: CoreBuffer>(
    before: &BufferMode<B>,
    after: &BufferMode<B>,
    ev: Event,
    op: TabOperation,
    t: Transition,
    m1: Mode,
    b1: Buffer<B>,
) -> bool {
    &&& mode_step(before.mode, m1, &before.buf, &b1, ev, t)
    &&& t is DoMacro ==> op is Nothing
    &&& !(t is DoMacro) ==> {
        &&& after.buf == b1
        &&& op == tab_operation_of(t)
        &&& (after.is_recording, after.dot_macro@, after.recording_macro@) == macros_after(
            before.is_recording,
            before.dot_macro@,
            recorded(before, ev),
            ev,
            t,
        )
        &&& t is Nothing ==> after.mode == m1
        &&& match t {
            Transition::Trans(m) => started(m, after.mode, &b1),
            Transition::RecordMacro(m) => started(m, after.mode, &b1),
            _ => true,
        }
        &&& goes_normal(t) ==> (after.mode matches Mode::Normal(n) && n.message@ == (match t {
            Transition::Return(r) => match r.message {
                Some(m) => m@,
                None => Seq::empty(),
            },
            _ => Seq::empty(),
        }))
    }
}

/// The keys being recorded once `ev` is added.
pub open spec fn recorded<B: CoreBuffer>(before: &BufferMode<B>, ev: Event) -> Seq<Event> {
    if before.is_recording {
        before.recording_macro@.push(ev)
    } else {
        before.recording_macro@
    }
}

/// `after` is the state right after the mode's own step: the buffer `b1`
/// in mode `m1`, the key recorded.
pub open spec fn just_stepped<B: CoreBuffer>(before: &BufferMode<B>, after: &BufferMode<B>, ev: Event, m1: Mode, b1: Buffer<B>) -> bool {
    &&& after.buf == b1
    &&& after.mode == m1
    &&& after.is_recording == before.is_recording
    &&& after.dot_macro@ == before.dot_macro@
    &&& after.recording_macro@ == recorded(before, ev)
}

/// One key handed over inside a replay: `.` there replays nothing.
pub open spec fn handles_replayed_key<B: CoreBuffer>(before: &BufferMode<B>, after: &BufferMode<B>, ev: Event, op: TabOperation) -> bool {
    &&& settings_kept(&before.buf, &after.buf)
    &&& exists|t: Transition, m1: Mode, b1: Buffer<B>|
        #[trigger] step_core(before, after, ev, op, t, m1, b1) && (t is DoMacro ==> just_stepped(before, after, ev, m1, b1))
}

/// Key `j` of a replay takes `states[j]` to `states[j + 1]`.
pub open spec fn replay_link<B: CoreBuffer>(states: Seq<BufferMode<B>>, keys: Seq<Event>, j: int) -> bool {
    exists|op: TabOperation| #[trigger] handles_replayed_key(&states[j], &states[j + 1], keys[j], op)
}

/// `.`: from `start`, the recorded keys `keys` are handed over one after
/// another, ending in `after`.
pub open spec fn replayed<B: CoreBuffer>(start: &BufferMode<B>, keys: Seq<Event>, after: &BufferMode<B>) -> bool {
    exists|states: Seq<BufferMode<B>>|
        {
            &&& #[trigger] states.len() == keys.len() + 1
            &&& states[0] == *start
            &&& states.last() == *after
            &&& forall|j: int| 0 <= j < keys.len() ==> #[trigger] replay_link(states, keys, j)
        }
}

/// What one key does to a buffer mode, the mode's own step being `t` with
/// the buffer `b1` after it (see `step_core`); `.` replays the recorded
/// keys from the state right after that step.
pub open spec fn key_step<B: CoreBuffer>(
    before: &BufferMode<B>,
    after: &BufferMode<B>,
    ev: Event,
    op: TabOperation,
    t: Transition,
    m1: Mode,
    b1: Buffer<B>,
) -> bool {
    &&& step_core(before, after, ev, op, t, m1, b1)
    &&& t is DoMacro ==> exists|mid: BufferMode<B>|
        #[trigger] just_stepped(before, &mid, ev, m1, b1) && replayed(&mid, before.dot_macro@, after)
}

/// `after` is the buffer in its mode after the key `ev`, which asked the
/// tabs for `op`: one step of `key_step`, the settings kept.
pub open spec fn handles_key<B: CoreBuffer>(before: &BufferMode<B>, after: &BufferMode<B>, ev: Event, op: TabOperation) -> bool {
    &&& settings_kept(&before.buf, &after.buf)
    &&& exists|t: Transition, m1: Mode, b1: Buffer<B>| #[trigger] key_step(before, after, ev, op, t, m1, b1)
}

impl<B: CoreBuffer> BufferMode<B> {
    /// A buffer in normal mode, recording nothing.
    pub fn new(buf: Buffer<B>) -> (r: Self)
        ensures
            r.buf == buf,
            r.mode matches Mode::Normal(n) && n.message@.len() == 0,
            !r.is_recording,
            r.dot_macro@.len() == 0,
            r.recording_macro@.len() == 0,
    {
        BufferMode {
            buf,
            mode: Mode::Normal(Normal::default()),
            is_recording: false,
            dot_macro: Vec::new(),
            recording_macro: Vec::new(),
        }
    }

    /// Acts on the transition that the key `ev` led to (all but `DoMacro`):
    /// switches mode (to normal mode, with the message, after a return or a
    /// tab or outside request), keeps the macro records and says what the
    /// tabs are to do.
    pub fn apply_transition(&mut self, ev: Event, t: Transition) -> (op: TabOperation)
        requires
            !(t is DoMacro),
            old(self).buf.wf(),
        ensures
            final(self).buf == old(self).buf,
            (final(self).is_recording, final(self).dot_macro@, final(self).recording_macro@) == macros_after(
                old(self).is_recording,
                old(self).dot_macro@,
                old(self).recording_macro@,
                ev,
                t,
            ),
            op == tab_operation_of(t),
            goes_normal(t) ==> (final(self).mode matches Mode::Normal(n) && n.message@ == (match t {
                Transition::Return(r) => match r.message {
                    Some(m) => m@,
                    None => Seq::empty(),
                },
                _ => Seq::empty(),
            })),
            t is Nothing ==> final(self).mode == old(self).mode,
            match t {
                Transition::Trans(m) => started(m, final(self).mode, &old(self).buf),
                Transition::RecordMacro(m) => started(m, final(self).mode, &old(self).buf),
                _ => true,
            },
    {
        match t {
            Transition::Exit => TabOperation::Close,
            Transition::Trans(m) => {
                self.mode = m;
                self.init_mode();
                TabOperation::Nothing
            },
            Transition::RecordMacro(m) => {
                self.is_recording = true;
                self.recording_macro = Vec::new();
                self.recording_macro.push(ev);
                self.mode = m;
                self.init_mode();
                TabOperation::Nothing
            },
            Transition::Return(TransitionReturn { message, is_commit_dot_macro }) => {
                if self.is_recording && self.recording_macro.len() > 0 && is_commit_dot_macro {
                    std::mem::swap(&mut self.dot_macro, &mut self.recording_macro);
                    self.recording_macro = Vec::new();
                }
                self.is_recording = false;
                self.mode = match message {
                    Some(s) => Mode::Normal(Normal::with_message(s)),
                    None => Mode::Normal(Normal::default()),
                };
                TabOperation::Nothing
            },
            Transition::CreateNewTab => {
                self.mode = Mode::Normal(Normal::default());
                TabOperation::NewTab
            },
            Transition::ChangeTab(i) => {
                self.mode = Mode::Normal(Normal::default());
                TabOperation::ChangeTab(i)
            },
            Transition::StartRmate => {
                self.mode = Mode::Normal(Normal::default());
                TabOperation::StartRmate
            },
            Transition::Request(r) => {
                self.mode = Mode::Normal(Normal::default());
                TabOperation::Request(r)
            },
            Transition::Nothing => TabOperation::Nothing,
            Transition::DoMacro => TabOperation::Nothing,
        }
    }

    /// A mode that has just started looks at the buffer (insert mode brings
    /// its completions up to date).
    fn init_mode(&mut self)
        requires
            old(self).buf.wf(),
        ensures
            final(self).buf == old(self).buf,
            final(self).is_recording == old(self).is_recording,
            final(self).dot_macro == old(self).dot_macro,
            final(self).recording_macro == old(self).recording_macro,
            started(old(self).mode, final(self).mode, &old(self).buf),
    {
        match &mut self.mode {
            Mode::Insert(ins) => {
                ins.init(&self.buf);
            },
            _ => {},
        }
    }

    fn event_at(&mut self, ev: Event, depth: usize) -> (op: TabOperation)
        requires
            old(self).buf.wf(),
            depth <= 1,
        ensures
            depth == 0 ==> handles_replayed_key(old(self), final(self), ev, op),
            depth == 1 ==> handles_key(old(self), final(self), ev, op),
        decreases depth,
    {
        let ghost before = *self;
        if self.is_recording {
            self.recording_macro.push(ev);
        }
        let t = self.mode.event(&mut self.buf, ev);
        let ghost tg = t;
        let ghost m1 = self.mode;
        let ghost b1 = self.buf;
        let ghost start = *self;
        assert(just_stepped(&before, &start, ev, m1, b1));
        let op = match t {
            Transition::DoMacro => {
                if depth > 0 {
                    let keys = copy_events(&self.dot_macro);
                    let ghost mut states: Seq<BufferMode<B>> = seq![start];
                    let mut i: usize = 0;
                    while i < keys.len()
                        invariant
                            self.buf.wf(),
                            settings_kept(&old(self).buf, &self.buf),
                            i <= keys@.len(),
                            depth == 1,
                            keys@ == before.dot_macro@,
                            states.len() == i + 1,
                            states[0] == start,
                            states.last() == *self,
                            forall|j: int| 0 <= j < i ==> #[trigger] replay_link(states, keys@, j),
                        decreases keys@.len() - i,
                    {
                        let ghost prev = *self;
                        let o = self.event_at(keys[i], 0);
                        proof {
                            let s2 = states.push(*self);
                            assert forall|j: int| 0 <= j < i + 1 implies #[trigger] replay_link(s2, keys@, j) by {
                                if j < i {
                                    assert(replay_link(states, keys@, j));
                                    assert(s2[j] == states[j] && s2[j + 1] == states[j + 1]);
                                } else {
                                    assert(s2[j] == prev && s2[j + 1] == *self);
                                    assert(handles_replayed_key(&s2[j], &s2[j + 1], keys@[j], o));
                                }
                            }
                            states = s2;
                        }
                        i += 1;
                    }
                    proof {
                        assert(states.len() == keys@.len() + 1);
                        assert(replayed(&start, before.dot_macro@, self));
                    }
                }
                TabOperation::Nothing
            },
            _ => self.apply_transition(ev, t),
        };
        assert(step_core(&before, self, ev, op, tg, m1, b1));
        if depth == 1 {
            assert(key_step(&before, self, ev, op, tg, m1, b1));
        }
        op
    }

    /// Hands a key to the current mode and acts on the transition; `.`
    /// repeats the recorded keys (a `.` among them is not repeated again).
    pub fn event(&mut self, ev: Event) -> (op: TabOperation)
        requires
            old(self).buf.wf(),
        ensures
            handles_key(old(self), final(self), ev, op),
    {
        self.event_at(ev, 1)
    }

    /// Back to normal mode with a message for the status line.
    pub fn set_message(&mut self, message: String)
        ensures
            final(self).buf == old(self).buf,
            final(self).mode matches Mode::Normal(n) && n.message == message,
            final(self).is_recording == old(self).is_recording,
            final(self).dot_macro == old(self).dot_macro,
            final(self).recording_macro == old(self).recording_macro,
    {
        self.mode = Mode::Normal(Normal::with_message(message));
    }

    /// Types text at the cursor (what the clipboard gave) and commits it.
    pub fn paste(&mut self, s: &str)
        requires
            old(self).buf.wf(),
        ensures
            settings_kept(&old(self).buf, &final(self).buf),
            !final(self).buf.core.pending(),
            old(self).buf.core.text().len() + s@.len() <= usize::MAX ==> final(self).buf.core.text()
                == crate::edit_core::buffer::insert_at(
                old(self).buf.core.text(),
                crate::edit_core::buffer::cursor_index(old(self).buf.core.text(), old(self).buf.core.cur()),
                s@,
            ),
    {
        self.buf.insert_str(s);
        self.buf.core.commit();
        self.buf.show_cursor();
    }

    /// Hands what the completers answered to insert mode (other modes
    /// ignore it).
    pub fn poll_completions(&mut self, lsp: Option<Vec<Completion>>, tabnine: Option<Vec<TabNineCompletion>>)
        requires
            old(self).buf.wf(),
        ensures
            final(self).buf == old(self).buf,
            final(self).is_recording == old(self).is_recording,
            final(self).dot_macro == old(self).dot_macro,
            final(self).recording_macro == old(self).recording_macro,
            !(old(self).mode is Insert) ==> final(self).mode == old(self).mode,
            old(self).mode matches Mode::Insert(i0) ==> (final(self).mode matches Mode::Insert(i1) && polled(
                i0,
                i1,
                &old(self).buf,
                lsp,
                tabnine,
            )),
    {
        match &mut self.mode {
            Mode::Insert(ins) => {
                ins.poll(&self.buf, lsp, tabnine);
            },
            _ => {},
        }
    }

    /// Whether insert mode asked for the completers to be asked about the
    /// word before the cursor; the request is taken (cleared).
    pub fn take_completion_request(&mut self) -> (r: bool)
        ensures
            final(self).buf == old(self).buf,
            final(self).is_recording == old(self).is_recording,
            final(self).dot_macro == old(self).dot_macro,
            final(self).recording_macro == old(self).recording_macro,
            r == (old(self).mode matches Mode::Insert(i) && i.request_completion),
            final(self).mode matches Mode::Insert(i) ==> !i.request_completion,
    {
        match &mut self.mode {
            Mode::Insert(ins) => {
                let r = ins.request_completion;
                ins.request_completion = false;
                r
            },
            _ => false,
        }
    }

    /// Whether the fuzzy opener asked for the list of file names; the
    /// request is taken (cleared).
    pub fn take_file_list_request(&mut self) -> (r: bool)
        ensures
            final(self).buf == old(self).buf,
            final(self).is_recording == old(self).is_recording,
            final(self).dot_macro == old(self).dot_macro,
            final(self).recording_macro == old(self).recording_macro,
            r == (old(self).mode matches Mode::FuzzyOpen(f) && f.wants_files),
            final(self).mode matches Mode::FuzzyOpen(f) ==> !f.wants_files,
    {
        match &mut self.mode {
            Mode::FuzzyOpen(f) => {
                let r = f.wants_files;
                f.wants_files = false;
                r
            },
            _ => false,
        }
    }

    /// A file name for the fuzzy opener (other modes ignore it).
    pub fn push_file(&mut self, name: String)
        ensures
            final(self).buf == old(self).buf,
            final(self).is_recording == old(self).is_recording,
            final(self).dot_macro == old(self).dot_macro,
            final(self).recording_macro == old(self).recording_macro,
            !(old(self).mode is FuzzyOpen) ==> final(self).mode == old(self).mode,
            old(self).mode matches Mode::FuzzyOpen(f0) ==> (final(self).mode matches Mode::FuzzyOpen(f1)
                && f1.finds@ == f0.finds@.push(name)),
    {
        match &mut self.mode {
            Mode::FuzzyOpen(f) => {
                f.push_line(name);
            },
            _ => {},
        }
    }

    /// Draws the buffer as its mode shows it.
    pub fn draw(&mut self, view: TermView, term: &mut Term, input: &DrawInput, status: &DrawStatus) -> (r: CursorState)
        requires
            drawable(&old(self).buf),
            old(term).wf(),
            view.fits(old(term).height as nat, old(term).width as nat),
            view.height > 0,
            input.wf(),
        ensures
            draw_kept(&old(self).buf, &final(self).buf),
            term_kept(old(term), final(term)),
            final(self).is_recording == old(self).is_recording,
            final(self).dot_macro == old(self).dot_macro,
            final(self).recording_macro == old(self).recording_macro,
            final(self).mode == (match old(self).mode {
                Mode::Normal(n) => Mode::Normal(Normal { frame: (if n.frame == usize::MAX { 0 } else { n.frame + 1 }) as usize, ..n }),
                m => m,
            }),
            (final(term).grid(), r) == mode_screen(old(self).mode, &old(self).buf, &final(self).buf, view, input, status, old(term).grid(), old(term).width as nat),
    {
        self.mode.draw(&mut self.buf, view, term, input, status)
    }
}

} // verus!
