//! One switch, debounced: four agreeing samples make a state change, and
//! only a change of the settled state is reported.
//!
//! The state is the last four samples, one bit each, newest in the low bit,
//! and the settled level last reported. A history of all ones is a press, all
//! zeros a release, anything between is bouncing and says nothing.

use vstd::prelude::*;

verus! {

/// How many agreeing samples it takes to settle.
pub const SAMPLES: u8 = 4;

/// The history of a switch held for [`SAMPLES`] samples: every bit set.
pub const SETTLED_HIGH: u8 = 15;

/// Rising or falling edge of a settled level.
#[derive(Clone, Copy, Debug, PartialEq, Eq, Structural)]
pub enum Edge {
    /// The switch settled pressed.
    Rising,
    /// The switch settled released.
    Falling,
}

/// What a debouncer holds: the recent samples and the last settled level.
#[derive(Clone, Copy, Debug, PartialEq, Eq, Structural)]
pub struct DebounceState {
    /// The last [`SAMPLES`] samples, newest in the lowest bit.
    pub history: u8,
    /// The last edge reported, or the level it started at.
    pub last_edge: Edge,
}

/// The history after one more sample: shifted up by one, the sample in the
/// lowest bit, and only [`SAMPLES`] bits kept.
pub open spec fn shift_in(history: u8, pressed: bool) -> u8 {
    ((history % 8) * 2 + if pressed { 1int } else { 0int }) as u8
}

/// One sample through the plain debouncer: a settled history that the
/// sample agrees with is left as it is and says nothing; otherwise the sample
/// is shifted in, and the history settling at all ones or all zeros is an
/// edge.
pub open spec fn raw_update(history: u8, pressed: bool) -> (u8, Option<Edge>) {
    if history == SETTLED_HIGH && pressed {
        (history, None)
    } else if history == 0 && !pressed {
        (history, None)
    } else {
        let h = shift_in(history, pressed);
        (
            h,
            if h == SETTLED_HIGH {
                Some(Edge::Rising)
            } else if h == 0 {
                Some(Edge::Falling)
            } else {
                None
            },
        )
    }
}

/// One sample through the stateful debouncer: an edge is reported only when
/// it differs from the last one, so a falling edge needs a rising one before
/// it and the other way round.
pub open spec fn update_spec(s: DebounceState, pressed: bool) -> (DebounceState, Option<Edge>) {
    let (h, raw) = raw_update(s.history, pressed);
    match raw {
        Some(e) => if e != s.last_edge {
            (DebounceState { history: h, last_edge: e }, Some(e))
        } else {
            (DebounceState { history: h, last_edge: s.last_edge }, None)
        },
        None => (DebounceState { history: h, last_edge: s.last_edge }, None),
    }
}

/// A debouncer that starts settled at `pressed`.
pub open spec fn initial_state(pressed: bool) -> DebounceState {
    DebounceState {
        history: if pressed { SETTLED_HIGH } else { 0 },
        last_edge: if pressed { Edge::Rising } else { Edge::Falling },
    }
}

/// What every state a debouncer can be in satisfies: four bits of history,
/// and a settled history agrees with the level last reported.
pub open spec fn consistent(s: DebounceState) -> bool {
    &&& s.history < 16
    &&& s.history == SETTLED_HIGH ==> s.last_edge == Edge::Rising
    &&& s.history == 0 ==> s.last_edge == Edge::Falling
}

/// The state after every sample of `samples`, in order.
pub open spec fn run(s: DebounceState, samples: Seq<bool>) -> DebounceState
    decreases samples.len(),
{
    if samples.len() == 0 {
        s
    } else {
        update_spec(run(s, samples.drop_last()), samples.last()).0
    }
}

/// What the sample at index `k` of `samples` reports.
pub open spec fn edge_at(s: DebounceState, samples: Seq<bool>, k: int) -> Option<Edge> {
    update_spec(run(s, samples.take(k)), samples[k]).1
}

/// Every edge reported over `samples`, in order.
pub open spec fn reported(s: DebounceState, samples: Seq<bool>) -> Seq<Edge>
    decreases samples.len(),
{
    if samples.len() == 0 {
        Seq::empty()
    } else {
        let before = reported(s, samples.drop_last());
        match update_spec(run(s, samples.drop_last()), samples.last()).1 {
            Some(e) => before.push(e),
            None => before,
        }
    }
}

/// `update_spec` keeps a consistent state consistent.
pub proof fn lemma_update_consistent(s: DebounceState, pressed: bool)
    requires
        consistent(s),
    ensures
        consistent(update_spec(s, pressed).0),
{
}

/// A switch, debounced over [`SAMPLES`] samples, reporting only changes of
/// its settled level.
pub struct Debouncer {
    state: DebounceState,
}

impl View for Debouncer {
    type V = DebounceState;

    closed spec fn view(&self) -> DebounceState {
        self.state
    }
}

impl Debouncer {
    #[verifier::type_invariant]
    closed spec fn inv(self) -> bool {
        consistent(self.state)
    }

    /// A debouncer settled at `pressed`.
    pub fn new(pressed: bool) -> (d: Debouncer)
        ensures
            d@ == initial_state(pressed),
            consistent(d@),
    {
        if pressed {
            Debouncer { state: DebounceState { history: SETTLED_HIGH, last_edge: Edge::Rising } }
        } else {
            Debouncer { state: DebounceState { history: 0, last_edge: Edge::Falling } }
        }
    }

    /// Takes one sample and says whether the settled level changed with it.
    pub fn update(&mut self, pressed: bool) -> (edge: Option<Edge>)
        ensures
            (final(self)@, edge) == update_spec(old(self)@, pressed),
            consistent(final(self)@),
    {
        proof {
            use_type_invariant(&*self);
        }
        let s = self.state;
        let mut history = s.history;
        let mut raw: Option<Edge> = None;
        if !(history == SETTLED_HIGH && pressed) && !(history == 0 && !pressed) {
            let bit: u8 = if pressed { 1 } else { 0 };
            history = (history % 8) * 2 + bit;
            if history == SETTLED_HIGH {
                raw = Some(Edge::Rising);
            } else if history == 0 {
                raw = Some(Edge::Falling);
            }
        }
        let result = match raw {
            Some(e) => if e != s.last_edge {
                Some(e)
            } else {
                None
            },
            None => None,
        };
        let last_edge = match result {
            Some(e) => e,
            None => s.last_edge,
        };
        proof {
            lemma_update_consistent(s, pressed);
        }
        self.state = DebounceState { history, last_edge };
        result
    }

    /// Whether the switch is settled pressed: its last samples all agree on it.
    pub fn is_high(&self) -> (b: bool)
        ensures
            b == (self@.history == SETTLED_HIGH),
    {
        self.state.history == SETTLED_HIGH
    }

    /// Whether the switch is settled released.
    pub fn is_low(&self) -> (b: bool)
        ensures
            b == (self@.history == 0),
    {
        self.state.history == 0
    }
}

} // verus!
