//! What the debouncer promises over a whole run of samples.
//!
//! Edges, not levels: a switch held down is reported once. Four agreeing
//! samples make a change and nothing less does. Presses and releases
//! alternate, and a switch that starts released reports a press first.

use vstd::prelude::*;

use crate::debounce::{
    consistent, initial_state, lemma_update_consistent, raw_update, reported, run, shift_in,
    update_spec, DebounceState, Edge, SETTLED_HIGH, edge_at,
};

verus! {

/// The level a sample of `pressed` settles at, as the edge that reaches it.
pub open spec fn edge_towards(pressed: bool) -> Edge {
    if pressed {
        Edge::Rising
    } else {
        Edge::Falling
    }
}

/// Sample `i` of `samples` as a bit; a sample before the first reads as
/// released.
pub open spec fn bit(samples: Seq<bool>, i: int) -> int {
    if 0 <= i < samples.len() && samples[i] {
        1
    } else {
        0
    }
}

/// The last four samples of `samples`, newest in the lowest bit, as the
/// history a debouncer that started released holds after them.
pub open spec fn window(samples: Seq<bool>) -> int {
    let n = samples.len() as int;
    bit(samples, n - 1) + 2 * bit(samples, n - 2) + 4 * bit(samples, n - 3) + 8 * bit(
        samples,
        n - 4,
    )
}

proof fn lemma_raw_history(h: u8, pressed: bool)
    requires
        h < 16,
    ensures
        raw_update(h, pressed).0 == shift_in(h, pressed),
        shift_in(h, pressed) < 16,
        raw_update(h, pressed).1 == Some(Edge::Rising) ==> pressed,
        raw_update(h, pressed).1 == Some(Edge::Falling) ==> !pressed,
        raw_update(h, pressed).1 is Some ==> raw_update(h, pressed).1 == Some(edge_towards(pressed)),
{
}

/// Every state a run passes through stays consistent.
pub proof fn lemma_run_consistent(s: DebounceState, samples: Seq<bool>)
    requires
        consistent(s),
    ensures
        consistent(run(s, samples)),
    decreases samples.len(),
{
    if samples.len() > 0 {
        lemma_run_consistent(s, samples.drop_last());
        lemma_update_consistent(run(s, samples.drop_last()), samples.last());
    }
}

/// The level a debouncer last settled at is the last edge it reported, or
/// the level it started at if it has reported none.
pub proof fn lemma_last_edge(s: DebounceState, samples: Seq<bool>)
    ensures
        run(s, samples).last_edge == (if reported(s, samples).len() > 0 {
            reported(s, samples).last()
        } else {
            s.last_edge
        }),
    decreases samples.len(),
{
    if samples.len() > 0 {
        lemma_last_edge(s, samples.drop_last());
    }
}

/// A debouncer that starts released holds, after any samples, exactly the
/// last four of them.
pub proof fn lemma_history_is_window(samples: Seq<bool>)
    ensures
        run(initial_state(false), samples).history == window(samples),
    decreases samples.len(),
{
    if samples.len() > 0 {
        let prev = samples.drop_last();
        lemma_history_is_window(prev);
        lemma_run_consistent(initial_state(false), prev);
        let h = run(initial_state(false), prev).history;
        lemma_raw_history(h, samples.last());
        let n = samples.len() as int;
        assert(bit(prev, n - 2) == bit(samples, n - 2));
        assert(bit(prev, n - 3) == bit(samples, n - 3));
        assert(bit(prev, n - 4) == bit(samples, n - 4));
        assert(bit(prev, n - 5) == 0 || bit(prev, n - 5) == 1);
        assert((bit(prev, n - 2) + 2 * bit(prev, n - 3) + 4 * bit(prev, n - 4) + 8 * bit(
            prev,
            n - 5,
        )) % 8 == bit(prev, n - 2) + 2 * bit(prev, n - 3) + 4 * bit(prev, n - 4));
    }
}

/// Four agreeing samples make a change and nothing less does: a switch that
/// starts released reports a press only on the fourth of four pressed
/// samples in a row, and a release only after samples that are all released
/// for four in a row (those before the first counting as released).
pub proof fn law_edge_needs_four_agreeing_samples(samples: Seq<bool>, k: int)
    requires
        0 <= k < samples.len(),
    ensures
        edge_at(initial_state(false), samples, k) == Some(Edge::Rising) ==> {
            &&& 3 <= k
            &&& forall|j: int| k - 3 <= j <= k ==> #[trigger] samples[j]
        },
        edge_at(initial_state(false), samples, k) == Some(Edge::Falling) ==> forall|j: int|
            0 <= j && k - 3 <= j <= k ==> !#[trigger] samples[j],
{
    let upto = samples.take(k + 1);
    assert(upto.drop_last() =~= samples.take(k));
    assert(upto.last() == samples[k]);
    lemma_history_is_window(upto);
    lemma_run_consistent(initial_state(false), samples.take(k));
    let h = run(initial_state(false), samples.take(k)).history;
    lemma_raw_history(h, samples[k]);
    let edge = edge_at(initial_state(false), samples, k);
    if edge is Some {
        assert(raw_update(h, samples[k]).1 is Some);
        assert(raw_update(h, samples[k]).0 == run(initial_state(false), upto).history);
        assert forall|j: int| 0 <= j && k - 3 <= j <= k implies upto[j] == samples[j] by {}
        if edge == Some(Edge::Rising) {
            assert(window(upto) == 15);
            assert(bit(upto, k - 3) == 1);
        } else {
            assert(window(upto) == 0);
        }
    }
}

/// Presses and releases alternate: whatever a debouncer reports differs
/// from the level it last settled at, so a switch that starts released
/// reports a press first, then a release, then a press.
pub proof fn law_edges_alternate(samples: Seq<bool>)
    ensures
        forall|i: int|
            0 <= i < reported(initial_state(false), samples).len() ==> #[trigger] reported(
                initial_state(false),
                samples,
            )[i] == (if i % 2 == 0 {
                Edge::Rising
            } else {
                Edge::Falling
            }),
    decreases samples.len(),
{
    if samples.len() > 0 {
        let prev = samples.drop_last();
        law_edges_alternate(prev);
        lemma_last_edge(initial_state(false), prev);
        let before = reported(initial_state(false), prev);
        let now = reported(initial_state(false), samples);
        assert forall|i: int| 0 <= i < now.len() implies #[trigger] now[i] == (if i % 2 == 0 {
            Edge::Rising
        } else {
            Edge::Falling
        }) by {
            if i < before.len() {
                assert(now[i] == before[i]);
            }
        }
    }
}

/// Edges, not levels: over samples that all agree, a debouncer reports at
/// most one edge, and only the one towards that level. A thumb resting on a
/// switch is one press, however long it rests.
pub proof fn law_held_switch_reports_once(s: DebounceState, samples: Seq<bool>, pressed: bool)
    requires
        consistent(s),
        forall|i: int| 0 <= i < samples.len() ==> #[trigger] samples[i] == pressed,
    ensures
        reported(s, samples).len() <= 1,
        forall|i: int|
            0 <= i < reported(s, samples).len() ==> #[trigger] reported(s, samples)[i]
                == edge_towards(pressed),
    decreases samples.len(),
{
    if samples.len() > 0 {
        let prev = samples.drop_last();
        law_held_switch_reports_once(s, prev, pressed);
        lemma_last_edge(s, prev);
        lemma_run_consistent(s, prev);
        lemma_raw_history(run(s, prev).history, samples.last());
        let before = reported(s, prev);
        let now = reported(s, samples);
        assert forall|i: int| 0 <= i < now.len() implies #[trigger] now[i] == edge_towards(
            pressed,
        ) by {
            if i < before.len() {
                assert(now[i] == before[i]);
            }
        }
    }
}

proof fn lemma_four_shifts(h: u8, p: bool)
    requires
        h < 16,
    ensures
        shift_in(shift_in(shift_in(shift_in(h, p), p), p), p) == (if p {
            SETTLED_HIGH
        } else {
            0u8
        }),
{
    let b: int = if p {
        1
    } else {
        0
    };
    let h1 = shift_in(h, p);
    let h2 = shift_in(h1, p);
    let h3 = shift_in(h2, p);
    assert(h1 % 2 == b);
    assert(h2 % 4 == 3 * b);
    assert(h3 % 8 == 7 * b);
}

/// One step of a run: the state after the first `i + 1` samples is the state
/// after the first `i`, updated with sample `i`.
proof fn lemma_run_step(s: DebounceState, samples: Seq<bool>, i: int)
    requires
        0 <= i < samples.len(),
    ensures
        run(s, samples.take(i + 1)) == update_spec(run(s, samples.take(i)), samples[i]).0,
{
    assert(samples.take(i + 1).drop_last() =~= samples.take(i));
}

/// Four agreeing samples are enough: from any state a debouncer can be in,
/// four samples at the other level report exactly one edge, towards it.
pub proof fn law_four_agreeing_samples_settle(s: DebounceState, pressed: bool)
    requires
        consistent(s),
        s.last_edge != edge_towards(pressed),
    ensures
        reported(s, seq![pressed, pressed, pressed, pressed]) == seq![edge_towards(pressed)],
{
    let samples = seq![pressed, pressed, pressed, pressed];
    law_held_switch_reports_once(s, samples, pressed);
    lemma_last_edge(s, samples);
    lemma_run_consistent(s, samples);
    assert(samples.take(0) =~= Seq::<bool>::empty());
    assert(samples.take(4) =~= samples);
    let h0 = s.history;
    lemma_run_step(s, samples, 0);
    lemma_raw_history(h0, pressed);
    let h1 = run(s, samples.take(1)).history;
    assert(h1 == shift_in(h0, pressed));
    lemma_run_step(s, samples, 1);
    lemma_raw_history(h1, pressed);
    let h2 = run(s, samples.take(2)).history;
    assert(h2 == shift_in(h1, pressed));
    lemma_run_step(s, samples, 2);
    lemma_raw_history(h2, pressed);
    let h3 = run(s, samples.take(3)).history;
    assert(h3 == shift_in(h2, pressed));
    lemma_run_step(s, samples, 3);
    lemma_raw_history(h3, pressed);
    assert(run(s, samples).history == shift_in(h3, pressed));
    lemma_four_shifts(h0, pressed);
    let r = reported(s, samples);
    assert(r.len() == 1);
    assert(r =~= seq![edge_towards(pressed)]);
}

} // verus!
