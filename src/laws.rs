//! Laws of the dispatcher, stated over its model and proved.

use vstd::prelude::*;
use crate::dispatch::{
    elapsed, final_step, partial_step, tick_step, toggle_key_step, DispatchState, EffectView, Mode,
    Phase, Timing,
};
use crate::fuzzy::{any_qualifies, is_best_match, lemma_best_match_unique, scores_against};
use crate::table::{first_exact, index_resolution, prefix_of_some, CommandTable, Resolution};
use crate::text::toggle_phrase_spec;

verus! {

/// Some index holds the first occurrence of a phrase that occurs at `i`.
proof fn lemma_first_exact_exists(ps: Seq<Seq<char>>, t: Seq<char>, i: int)
    requires
        0 <= i < ps.len(),
        ps[i] == t,
    ensures
        exists|j: int| 0 <= j <= i && #[trigger] first_exact(ps, t, j),
    decreases i,
{
    if exists|k: int| 0 <= k < i && ps[k] == t {
        let k = choose|k: int| 0 <= k < i && ps[k] == t;
        lemma_first_exact_exists(ps, t, k);
    } else {
        assert(first_exact(ps, t, i));
    }
}

/// A command phrase resolves to a command with that phrase's action.
pub proof fn lemma_command_phrase_resolves(table: CommandTable, i: int)
    requires
        table.wf(),
        0 <= i < table.action_view().len(),
    ensures
        match table.resolution_of(table.phrase_view()[i]) {
            Resolution::Command(j) => j < table.action_view().len()
                && table.action_view()[j as int] == table.action_view()[i],
            _ => false,
        },
        table.partial_resolution_of(table.phrase_view()[i]) == table.resolution_of(table.phrase_view()[i]),
{
    let ps = table.phrase_view();
    let t = ps[i];
    lemma_first_exact_exists(ps, t, i);
    let j = choose|j: int| 0 <= j <= i && #[trigger] first_exact(ps, t, j);
    let c = choose|j: int| #[trigger] first_exact(ps, t, j);
    assert(c == j) by {
        crate::table::lemma_first_exact_unique(ps, t, c, j);
    }
    assert(ps[i] != toggle_phrase_spec());
    assert(j != ps.len() - 1);
    assert((j as usize) as int == j);
    if j < i {
        assert(ps[j] != ps[i]);
    }
}

/// The toggle phrase resolves to the toggle.
pub proof fn lemma_toggle_phrase_resolves(table: CommandTable)
    requires
        table.wf(),
    ensures
        table.resolution_of(toggle_phrase_spec()) == Resolution::Toggle,
        table.partial_resolution_of(toggle_phrase_spec()) == Resolution::Toggle,
{
    let ps = table.phrase_view();
    let n = ps.len() - 1;
    assert forall|k: int| 0 <= k < n implies ps[k] != toggle_phrase_spec() by {
        assert(ps[k] != toggle_phrase_spec());
    }
    assert(first_exact(ps, toggle_phrase_spec(), n));
    let c = choose|j: int| #[trigger] first_exact(ps, toggle_phrase_spec(), j);
    crate::table::lemma_first_exact_unique(ps, toggle_phrase_spec(), c, n);
}

/// While listening, a final hypothesis that is exactly a (non-empty) command
/// phrase runs that phrase's action, once, and leaves the pass cleared.
pub proof fn lemma_exact_phrase_runs(table: CommandTable, s: DispatchState, i: int, now: u64)
    requires
        table.wf(),
        s.mode == Mode::Listening,
        0 <= i < table.action_view().len(),
        table.phrase_view()[i].len() > 0,
    ensures
        final_step(table, s, table.phrase_view()[i], now).1 == EffectView::Run(table.action_view()[i]),
        final_step(table, s, table.phrase_view()[i], now).0.phase == Phase::Idle,
        final_step(table, s, table.phrase_view()[i], now).0.mode == Mode::Listening,
{
    lemma_command_phrase_resolves(table, i);
}

/// While listening, a non-empty hypothesis that is no known phrase and whose
/// best fuzzy candidate is phrase `i` resolves to that phrase: its action, or
/// dictation for the toggle phrase. As a final hypothesis it always does; as a
/// new partial one, unless it can still grow into a known phrase (it is then
/// held, see the prefix-hold laws).
pub proof fn lemma_fuzzy_match_resolves(table: CommandTable, s: DispatchState, t: Seq<char>, i: int, now: u64)
    requires
        table.wf(),
        s.mode == Mode::Listening,
        t.len() > 0,
        forall|k: int| 0 <= k < table.phrase_view().len() ==> table.phrase_view()[k] != t,
        is_best_match(scores_against(t, table.phrase_view()), i),
    ensures
        table.resolution_of(t) == index_resolution(table.phrase_view(), i),
        final_step(table, s, t, now).1 == if i < table.action_view().len() {
            EffectView::Run(table.action_view()[i])
        } else {
            EffectView::EnterDictation
        },
        t != s.last_partial && !prefix_of_some(table.phrase_view(), t) ==> partial_step(table, s, t, now).1
            == if i < table.action_view().len() {
            EffectView::Run(table.action_view()[i])
        } else {
            EffectView::EnterDictation
        },
{
    let ps = table.phrase_view();
    let scores = scores_against(t, ps);
    assert(!exists|j: int| #[trigger] first_exact(ps, t, j));
    assert(any_qualifies(scores)) by {
        assert(crate::fuzzy::qualifies(scores[i]));
    }
    let c = choose|j: int| #[trigger] is_best_match(scores, j);
    lemma_best_match_unique(scores, c, i);
    assert((i as usize) as int == i);
}

/// While listening, a non-empty hypothesis with no exact, fuzzy or prefix
/// relation to any known phrase runs nothing and clears the pass, as a final
/// hypothesis and as a new partial one.
pub proof fn lemma_unrelated_text_resets(table: CommandTable, s: DispatchState, t: Seq<char>, now: u64)
    requires
        table.wf(),
        s.mode == Mode::Listening,
        t.len() > 0,
        forall|k: int| 0 <= k < table.phrase_view().len() ==> table.phrase_view()[k] != t,
        !any_qualifies(scores_against(t, table.phrase_view())),
        !prefix_of_some(table.phrase_view(), t),
    ensures
        final_step(table, s, t, now).1 == EffectView::Unmatched,
        final_step(table, s, t, now).0.phase == Phase::Idle,
        t != s.last_partial ==> partial_step(table, s, t, now).1 == EffectView::Unmatched,
        t != s.last_partial ==> partial_step(table, s, t, now).0.phase == Phase::Idle,
{
    assert(!exists|j: int| #[trigger] first_exact(table.phrase_view(), t, j));
}

/// Feeding the same partial hypothesis twice in a row: the second time
/// decides nothing and changes nothing.
pub proof fn lemma_repeated_partial_is_ignored(table: CommandTable, s: DispatchState, t: Seq<char>, now1: u64, now2: u64)
    ensures
        partial_step(table, partial_step(table, s, t, now1).0, t, now2) == (
            partial_step(table, s, t, now1).0,
            EffectView::Wait,
        ),
{
}

/// While listening, a new hypothesis that is only a strict prefix of some
/// phrase (no exact or fuzzy match) starts a prefix hold: nothing happens
/// before the prefix window runs out, and the pass is reset, with no action,
/// once it has. (Valid timings end the prefix window no later than the
/// silence window.)
pub proof fn lemma_prefix_hold_waits(
    table: CommandTable,
    timing: Timing,
    s: DispatchState,
    t: Seq<char>,
    now: u64,
    later: u64,
)
    requires
        table.wf(),
        timing.valid(),
        s.mode == Mode::Listening,
        t.len() > 0,
        t != s.last_partial,
        forall|k: int| 0 <= k < table.phrase_view().len() ==> table.phrase_view()[k] != t,
        !any_qualifies(scores_against(t, table.phrase_view())),
        prefix_of_some(table.phrase_view(), t),
    ensures
        partial_step(table, s, t, now).1 == EffectView::Wait,
        partial_step(table, s, t, now).0.phase == Phase::PrefixHolding,
        elapsed(later, now) < timing.prefix_ms ==> tick_step(
            timing,
            partial_step(table, s, t, now).0,
            later,
        ) == (partial_step(table, s, t, now).0, EffectView::Wait),
        elapsed(later, now) >= timing.prefix_ms ==> tick_step(timing, partial_step(table, s, t, now).0, later).1
            == EffectView::Reset,
        elapsed(later, now) >= timing.prefix_ms ==> tick_step(
            timing,
            partial_step(table, s, t, now).0,
            later,
        ).0.phase == Phase::Idle,
{
    assert(!exists|j: int| #[trigger] first_exact(table.phrase_view(), t, j));
}

/// While listening, a prefix hold that is completed within its window by a
/// command phrase runs that phrase's action instead of resetting.
pub proof fn lemma_prefix_hold_completes(
    table: CommandTable,
    timing: Timing,
    s: DispatchState,
    t: Seq<char>,
    i: int,
    now: u64,
    later: u64,
)
    requires
        table.wf(),
        s.mode == Mode::Listening,
        t.len() > 0,
        t != s.last_partial,
        forall|k: int| 0 <= k < table.phrase_view().len() ==> table.phrase_view()[k] != t,
        !any_qualifies(scores_against(t, table.phrase_view())),
        prefix_of_some(table.phrase_view(), t),
        0 <= i < table.action_view().len(),
        table.phrase_view()[i].len() > 0,
        timing.valid(),
        elapsed(later, now) < timing.prefix_ms,
    ensures
        ({
            let held = partial_step(table, s, t, now).0;
            let waited = tick_step(timing, held, later);
            &&& waited == (held, EffectView::Wait)
            &&& partial_step(table, waited.0, table.phrase_view()[i], later).1 == EffectView::Run(
                table.action_view()[i],
            )
            &&& partial_step(table, waited.0, table.phrase_view()[i], later).0.phase == Phase::Idle
        }),
{
    lemma_prefix_hold_waits(table, timing, s, t, now, later);
    lemma_command_phrase_resolves(table, i);
}

/// From listening, the toggle phrase switches to dictation; from there the
/// toggle phrase, or the toggle key, switches back to listening.
pub proof fn lemma_toggle_round_trip(table: CommandTable, s: DispatchState, now1: u64, now2: u64)
    requires
        table.wf(),
        s.mode == Mode::Listening,
    ensures
        ({
            let (d, e) = final_step(table, s, toggle_phrase_spec(), now1);
            &&& e == EffectView::EnterDictation
            &&& d.mode == Mode::Dictation
            &&& final_step(table, d, toggle_phrase_spec(), now2).1 == EffectView::ExitDictation
            &&& final_step(table, d, toggle_phrase_spec(), now2).0.mode == Mode::Listening
            &&& toggle_key_step(d, now2).1 == EffectView::ExitDictation
            &&& toggle_key_step(d, now2).0.mode == Mode::Listening
        }),
        toggle_phrase_spec() != s.last_partial ==> partial_step(table, s, toggle_phrase_spec(), now1).1
            == EffectView::EnterDictation,
        toggle_phrase_spec() != s.last_partial ==> partial_step(table, s, toggle_phrase_spec(), now1).0.mode
            == Mode::Dictation,
{
    lemma_toggle_phrase_resolves(table);
    assert(toggle_phrase_spec().len() > 0);
}

/// When a partial is pending and the silence window has run out, a timer
/// check clears the pass and its session without running or typing anything:
/// a later partial equal to the one that was pending counts as new.
pub proof fn lemma_silence_resets(timing: Timing, s: DispatchState, now: u64)
    requires
        !(s.phase is Idle),
        elapsed(now, s.last_speech_at) >= timing.silence_ms,
    ensures
        tick_step(timing, s, now).0.phase == Phase::Idle,
        tick_step(timing, s, now).0.last_partial == Seq::<char>::empty(),
        tick_step(timing, s, now).1 == EffectView::Reset || tick_step(timing, s, now).1
            == EffectView::ExitDictation,
        s.mode == Mode::Listening ==> tick_step(timing, s, now).1 == EffectView::Reset,
{
}

} // verus!
