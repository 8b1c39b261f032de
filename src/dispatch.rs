//! The dispatch state machine: consumes partial and final hypotheses, timer
//! checks and key presses, and decides what happens next.

use vstd::prelude::*;
use vstd::string::*;
use crate::table::{CommandTable, Resolution};
use crate::text::{toggle_phrase, toggle_phrase_spec, typing_delta, typing_delta_spec};

verus! {

/// Default quiet window after which a pending partial is abandoned.
pub const SILENCE_WINDOW_MS: u64 = 600;

/// Default wait for a prefix of a phrase to be completed.
pub const PREFIX_WINDOW_MS: u64 = 450;

/// Default idle time after which dictation ends by itself.
pub const DICTATION_IDLE_MS: u64 = 8000;

/// The top-level mode.
#[derive(Debug, PartialEq, Eq, Structural, Clone, Copy)]
pub enum Mode {
    /// Hypotheses are matched against the command table.
    Listening,
    /// Hypotheses are typed as text.
    Dictation,
}

/// Where the current decode pass stands.
#[derive(Debug, PartialEq, Eq, Structural, Clone, Copy)]
pub enum Phase {
    /// No partial is pending.
    Idle,
    /// A partial has been seen and acted on in dictation.
    PartialSeen,
    /// The current partial is an unmatched strict prefix of a known phrase.
    PrefixHolding,
}

/// The timing budgets, in milliseconds.
#[derive(Debug, PartialEq, Eq, Structural, Clone, Copy)]
pub struct Timing {
    pub silence_ms: u64,
    pub prefix_ms: u64,
    pub dictation_idle_ms: u64,
}

impl Timing {
    /// The prefix window ends no later than the silence window, so that a
    /// prefix hold runs its whole window.
    pub open spec fn valid(&self) -> bool {
        self.prefix_ms <= self.silence_ms
    }

    /// The documented default budgets.
    pub fn standard() -> (r: Timing)
        ensures
            r == (Timing {
                silence_ms: SILENCE_WINDOW_MS,
                prefix_ms: PREFIX_WINDOW_MS,
                dictation_idle_ms: DICTATION_IDLE_MS,
            }),
            r.valid(),
    {
        Timing { silence_ms: SILENCE_WINDOW_MS, prefix_ms: PREFIX_WINDOW_MS, dictation_idle_ms: DICTATION_IDLE_MS }
    }
}

/// What the caller must do after an event. Every variant but `Wait` and
/// `Type` also asks for the decoder to be reset.
#[derive(Debug)]
pub enum Effect {
    /// Nothing; keep listening.
    Wait,
    /// Abandon the decode pass, with no action.
    Reset,
    /// The hypothesis matched nothing: abandon the pass, with no action.
    Unmatched,
    /// Run this shell action, then reset the pass.
    Run(String),
    /// Type this text and keep decoding.
    Type(String),
    /// Type this text, then reset the pass.
    TypeFinal(String),
    /// Switch to dictation: open-vocabulary recognition.
    EnterDictation,
    /// Switch back to listening with the command grammar.
    ExitDictation,
}

/// The mathematical value of an [`Effect`].
pub enum EffectView {
    Wait,
    Reset,
    Unmatched,
    Run(Seq<char>),
    Type(Seq<char>),
    TypeFinal(Seq<char>),
    EnterDictation,
    ExitDictation,
}

impl View for Effect {
    type V = EffectView;

    open spec fn view(&self) -> EffectView {
        match self {
            Effect::Wait => EffectView::Wait,
            Effect::Reset => EffectView::Reset,
            Effect::Unmatched => EffectView::Unmatched,
            Effect::Run(a) => EffectView::Run(a@),
            Effect::Type(t) => EffectView::Type(t@),
            Effect::TypeFinal(t) => EffectView::TypeFinal(t@),
            Effect::EnterDictation => EffectView::EnterDictation,
            Effect::ExitDictation => EffectView::ExitDictation,
        }
    }
}

impl Effect {
    /// Whether the decoder must discard its state after this effect.
    pub fn resets_decoder(&self) -> (r: bool)
        ensures
            r == !(self@ is Wait || self@ is Type),
    {
        match self {
            Effect::Wait => false,
            Effect::Type(_) => false,
            _ => true,
        }
    }
}

/// The state of a dispatcher, as values.
pub struct DispatchState {
    pub mode: Mode,
    pub phase: Phase,
    /// The previous partial hypothesis; an equal one is ignored.
    pub last_partial: Seq<char>,
    /// When the pending partial arrived (silence timer).
    pub last_speech_at: u64,
    /// When the prefix hold started (prefix timer).
    pub prefix_since: u64,
    /// When dictation last saw speech (idle timer).
    pub idle_since: u64,
    /// What has been typed of the current dictation pass.
    pub typed: Seq<char>,
}

/// Milliseconds from `since` to `now`; zero if the clock seems to go back.
pub open spec fn elapsed(now: u64, since: u64) -> int {
    if now >= since {
        now - since
    } else {
        0
    }
}

/// The pass is abandoned and its session cleared: nothing pending, no
/// previous partial, nothing typed.
pub open spec fn cleared(s: DispatchState) -> DispatchState {
    DispatchState { phase: Phase::Idle, last_partial: Seq::empty(), typed: Seq::empty(), ..s }
}

/// Dictation starts at `now` on a fresh session.
pub open spec fn entered(s: DispatchState, now: u64) -> DispatchState {
    DispatchState { mode: Mode::Dictation, idle_since: now, ..cleared(s) }
}

/// Listening resumes on a fresh session.
pub open spec fn exited(s: DispatchState) -> DispatchState {
    DispatchState { mode: Mode::Listening, ..cleared(s) }
}

/// The outcome of a decision taken on the partial `t`: the session is
/// cleared, but `t` stays recorded as the previous partial, so that an
/// unchanged repeat of it decides nothing again.
pub open spec fn decided_on(r: (DispatchState, EffectView), t: Seq<char>) -> (DispatchState, EffectView) {
    (DispatchState { last_partial: t, ..r.0 }, r.1)
}

/// The state a dispatcher starts in.
pub open spec fn initial_state() -> DispatchState {
    DispatchState {
        mode: Mode::Listening,
        phase: Phase::Idle,
        last_partial: Seq::empty(),
        last_speech_at: 0,
        prefix_since: 0,
        idle_since: 0,
        typed: Seq::empty(),
    }
}

/// A command decision in listening mode: toggle or run, on a fresh pass.
pub open spec fn commit(table: CommandTable, s: DispatchState, r: Resolution, now: u64) -> (DispatchState, EffectView) {
    match r {
        Resolution::Toggle => (entered(s, now), EffectView::EnterDictation),
        Resolution::Command(i) => (cleared(s), EffectView::Run(table.action_view()[i as int])),
        _ => (cleared(s), EffectView::Unmatched),
    }
}

/// A new partial hypothesis `t` at time `now`.
pub open spec fn partial_step(table: CommandTable, s: DispatchState, t: Seq<char>, now: u64) -> (DispatchState, EffectView) {
    if t == s.last_partial {
        (s, EffectView::Wait)
    } else if t.len() == 0 {
        (DispatchState { last_partial: t, ..s }, EffectView::Wait)
    } else {
        let s1 = DispatchState { last_partial: t, ..s };
        match s.mode {
            Mode::Listening => {
                let r = table.partial_resolution_of(t);
                if r is Prefix {
                    (
                        DispatchState { phase: Phase::PrefixHolding, prefix_since: now, last_speech_at: now, ..s1 },
                        EffectView::Wait,
                    )
                } else {
                    decided_on(commit(table, s1, r, now), t)
                }
            },
            Mode::Dictation => {
                if t == toggle_phrase_spec() {
                    decided_on((exited(s1), EffectView::ExitDictation), t)
                } else {
                    (
                        DispatchState { phase: Phase::PartialSeen, typed: t, last_speech_at: now, idle_since: now, ..s1 },
                        EffectView::Type(typing_delta_spec(s.typed, t)),
                    )
                }
            },
        }
    }
}

/// A final hypothesis `t` at time `now`: it closes the decode pass.
pub open spec fn final_step(table: CommandTable, s: DispatchState, t: Seq<char>, now: u64) -> (DispatchState, EffectView) {
    let s1 = DispatchState { last_partial: Seq::empty(), ..s };
    if t.len() == 0 {
        (cleared(s1), EffectView::Reset)
    } else {
        match s.mode {
            Mode::Listening => commit(table, s1, table.resolution_of(t), now),
            Mode::Dictation => {
                if t == toggle_phrase_spec() {
                    (exited(s1), EffectView::ExitDictation)
                } else {
                    (
                        DispatchState { idle_since: now, ..cleared(s1) },
                        EffectView::TypeFinal(typing_delta_spec(s.typed, t)),
                    )
                }
            },
        }
    }
}

/// A timer check at time `now`.
pub open spec fn tick_step(timing: Timing, s: DispatchState, now: u64) -> (DispatchState, EffectView) {
    if s.mode is Dictation && elapsed(now, s.idle_since) >= timing.dictation_idle_ms {
        (exited(s), EffectView::ExitDictation)
    } else if s.phase is PrefixHolding && elapsed(now, s.prefix_since) >= timing.prefix_ms {
        (cleared(s), EffectView::Reset)
    } else if !(s.phase is Idle) && elapsed(now, s.last_speech_at) >= timing.silence_ms {
        (cleared(s), EffectView::Reset)
    } else {
        (s, EffectView::Wait)
    }
}

/// The mode-toggle hot-key at time `now`.
pub open spec fn toggle_key_step(s: DispatchState, now: u64) -> (DispatchState, EffectView) {
    match s.mode {
        Mode::Listening => (entered(s, now), EffectView::EnterDictation),
        Mode::Dictation => (exited(s), EffectView::ExitDictation),
    }
}

/// The exit key: leaves dictation, ignored while listening.
pub open spec fn exit_key_step(s: DispatchState) -> (DispatchState, EffectView) {
    match s.mode {
        Mode::Listening => (s, EffectView::Wait),
        Mode::Dictation => (exited(s), EffectView::ExitDictation),
    }
}

/// Elapsed milliseconds from `since` to `now`.
fn elapsed_ms(now: u64, since: u64) -> (r: u64)
    ensures
        r == elapsed(now, since),
{
    if now >= since {
        now - since
    } else {
        0
    }
}

/// The single-threaded dispatcher: one per recognition session.
pub struct Dispatcher {
    table: CommandTable,
    timing: Timing,
    mode: Mode,
    phase: Phase,
    last_partial: String,
    last_speech_at: u64,
    prefix_since: u64,
    idle_since: u64,
    typed: String,
}

impl View for Dispatcher {
    type V = DispatchState;

    closed spec fn view(&self) -> DispatchState {
        DispatchState {
            mode: self.mode,
            phase: self.phase,
            last_partial: self.last_partial@,
            last_speech_at: self.last_speech_at,
            prefix_since: self.prefix_since,
            idle_since: self.idle_since,
            typed: self.typed@,
        }
    }
}

impl Dispatcher {
    /// The command table in use.
    pub closed spec fn table(&self) -> CommandTable {
        self.table
    }

    /// The timing budgets in use.
    pub closed spec fn timing(&self) -> Timing {
        self.timing
    }

    pub open spec fn wf(&self) -> bool {
        &&& self.table().wf()
        &&& self.timing().valid()
    }

    /// A dispatcher in listening mode with no pass pending.
    pub fn new(table: CommandTable, timing: Timing) -> (r: Dispatcher)
        requires
            table.wf(),
            timing.valid(),
        ensures
            r.wf(),
            r.table() == table,
            r.timing() == timing,
            r@ == initial_state(),
    {
        let d = Dispatcher {
            table,
            timing,
            mode: Mode::Listening,
            phase: Phase::Idle,
            last_partial: String::new(),
            last_speech_at: 0,
            prefix_since: 0,
            idle_since: 0,
            typed: String::new(),
        };
        assert(d@ =~= initial_state());
        d
    }

    /// The current mode.
    pub fn mode(&self) -> (r: Mode)
        ensures
            r == self@.mode,
    {
        self.mode
    }

    /// The current phase of the decode pass.
    pub fn phase(&self) -> (r: Phase)
        ensures
            r == self@.phase,
    {
        self.phase
    }

    /// The known phrases, for the recognition grammar of listening mode.
    pub fn grammar(&self) -> (r: Vec<String>)
        ensures
            r@.map_values(|p: String| p@) == self.table().phrase_view(),
    {
        self.table.phrases()
    }

    fn clear_pass(&mut self)
        ensures
            final(self)@ == cleared(old(self)@),
            final(self).table() == old(self).table(),
            final(self).timing() == old(self).timing(),
    {
        self.phase = Phase::Idle;
        self.last_partial = String::new();
        self.typed = String::new();
    }

    fn enter_dictation(&mut self, now: u64)
        ensures
            final(self)@ == entered(old(self)@, now),
            final(self).table() == old(self).table(),
            final(self).timing() == old(self).timing(),
    {
        self.mode = Mode::Dictation;
        self.idle_since = now;
        self.clear_pass();
    }

    fn exit_dictation(&mut self)
        ensures
            final(self)@ == exited(old(self)@),
            final(self).table() == old(self).table(),
            final(self).timing() == old(self).timing(),
    {
        self.mode = Mode::Listening;
        self.clear_pass();
    }

    /// Acts on a command resolution in listening mode.
    fn commit(&mut self, r: Resolution, now: u64) -> (e: Effect)
        requires
            old(self).wf(),
            r matches Resolution::Command(i) ==> i < old(self).table().action_view().len(),
        ensures
            (final(self)@, e@) == commit(old(self).table(), old(self)@, r, now),
            final(self).table() == old(self).table(),
            final(self).timing() == old(self).timing(),
    {
        match r {
            Resolution::Toggle => {
                self.enter_dictation(now);
                Effect::EnterDictation
            },
            Resolution::Command(i) => {
                let a = self.table.action(i).clone();
                self.clear_pass();
                Effect::Run(a)
            },
            _ => {
                self.clear_pass();
                Effect::Unmatched
            },
        }
    }

    /// Handles a new partial hypothesis, already normalised, at time `now`.
    pub fn on_partial(&mut self, text: &String, now: u64) -> (e: Effect)
        requires
            old(self).wf(),
        ensures
            (final(self)@, e@) == partial_step(old(self).table(), old(self)@, text@, now),
            final(self).table() == old(self).table(),
            final(self).timing() == old(self).timing(),
    {
        if *text == self.last_partial {
            return Effect::Wait;
        }
        self.last_partial = text.clone();
        if text.as_str().unicode_len() == 0 {
            return Effect::Wait;
        }
        match self.mode {
            Mode::Listening => {
                let r = self.table.classify_partial(text);
                proof {
                    self.table.lemma_resolution_in_range(text@);
                }
                if r == Resolution::Prefix {
                    self.phase = Phase::PrefixHolding;
                    self.prefix_since = now;
                    self.last_speech_at = now;
                    Effect::Wait
                } else {
                    let e = self.commit(r, now);
                    self.last_partial = text.clone();
                    e
                }
            },
            Mode::Dictation => {
                let toggle = toggle_phrase();
                if *text == toggle {
                    self.exit_dictation();
                    self.last_partial = text.clone();
                    Effect::ExitDictation
                } else {
                    let delta = typing_delta(self.typed.as_str(), text.as_str());
                    self.phase = Phase::PartialSeen;
                    self.typed = text.clone();
                    self.last_speech_at = now;
                    self.idle_since = now;
                    Effect::Type(delta)
                }
            },
        }
    }

    /// Handles a final hypothesis, already normalised, at time `now`.
    pub fn on_final(&mut self, text: &String, now: u64) -> (e: Effect)
        requires
            old(self).wf(),
        ensures
            (final(self)@, e@) == final_step(old(self).table(), old(self)@, text@, now),
            final(self).table() == old(self).table(),
            final(self).timing() == old(self).timing(),
    {
        self.last_partial = String::new();
        if text.as_str().unicode_len() == 0 {
            self.clear_pass();
            return Effect::Reset;
        }
        match self.mode {
            Mode::Listening => {
                let r = self.table.classify(text);
                proof {
                    self.table.lemma_resolution_in_range(text@);
                }
                self.commit(r, now)
            },
            Mode::Dictation => {
                let toggle = toggle_phrase();
                if *text == toggle {
                    self.exit_dictation();
                    Effect::ExitDictation
                } else {
                    let delta = typing_delta(self.typed.as_str(), text.as_str());
                    self.clear_pass();
                    self.idle_since = now;
                    Effect::TypeFinal(delta)
                }
            },
        }
    }

    /// Checks the timers at time `now`.
    pub fn on_tick(&mut self, now: u64) -> (e: Effect)
        ensures
            (final(self)@, e@) == tick_step(old(self).timing(), old(self)@, now),
            final(self).table() == old(self).table(),
            final(self).timing() == old(self).timing(),
    {
        if self.mode == Mode::Dictation && elapsed_ms(now, self.idle_since) >= self.timing.dictation_idle_ms {
            self.exit_dictation();
            Effect::ExitDictation
        } else if self.phase == Phase::PrefixHolding && elapsed_ms(now, self.prefix_since) >= self.timing.prefix_ms {
            self.clear_pass();
            Effect::Reset
        } else if self.phase != Phase::Idle && elapsed_ms(now, self.last_speech_at) >= self.timing.silence_ms {
            self.clear_pass();
            Effect::Reset
        } else {
            Effect::Wait
        }
    }

    /// Handles the mode-toggle hot-key at time `now`.
    pub fn on_toggle_key(&mut self, now: u64) -> (e: Effect)
        ensures
            (final(self)@, e@) == toggle_key_step(old(self)@, now),
            final(self).table() == old(self).table(),
            final(self).timing() == old(self).timing(),
    {
        match self.mode {
            Mode::Listening => {
                self.enter_dictation(now);
                Effect::EnterDictation
            },
            Mode::Dictation => {
                self.exit_dictation();
                Effect::ExitDictation
            },
        }
    }

    /// Handles the exit key.
    pub fn on_exit_key(&mut self) -> (e: Effect)
        ensures
            (final(self)@, e@) == exit_key_step(old(self)@),
            final(self).table() == old(self).table(),
            final(self).timing() == old(self).timing(),
    {
        match self.mode {
            Mode::Listening => Effect::Wait,
            Mode::Dictation => {
                self.exit_dictation();
                Effect::ExitDictation
            },
        }
    }
}

} // verus!
