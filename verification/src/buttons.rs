//! Five switches, as the framework sees them.
//!
//! Both badges carry the same five switches, wired the same way: a press
//! reads high. Which pin is which is the binary's business; what each switch
//! sends is the board's, looked up once by the label printed beside it.
//! Every frame each switch is sampled, always, and only a change of its
//! settled level is reported, as a press or a release of what it sends.

use vstd::prelude::*;
use vstd::string::StringExecFns;

use crate::board::{board_sends, Board, Button};
use crate::debounce::{
    consistent, edge_at, initial_state, reported, run, update_spec, DebounceState, Debouncer, Edge,
};
use crate::debounce_laws::{
    edge_towards, law_edge_needs_four_agreeing_samples, law_held_switch_reports_once,
};

verus! {

/// How many switches there are.
pub const KEY_COUNT: usize = 5;

/// The label printed beside switch `i`, in the order the switches are
/// sampled: `a`, `b` and `c` along the bottom, `Up` and `Dn` down the side.
pub open spec fn wired_label(i: int) -> Seq<char> {
    if i == 0 {
        "a"@
    } else if i == 1 {
        "b"@
    } else if i == 2 {
        "c"@
    } else if i == 3 {
        "Up"@
    } else {
        "Dn"@
    }
}

/// The label printed beside switch `i`.
pub fn wired_label_of(i: usize) -> (label: &'static str)
    requires
        i < KEY_COUNT,
    ensures
        label@ == wired_label(i as int),
{
    if i == 0 {
        "a"
    } else if i == 1 {
        "b"
    } else if i == 2 {
        "c"
    } else if i == 3 {
        "Up"
    } else {
        "Dn"
    }
}

/// What the framework is told about a button.
#[derive(Clone, Copy, Debug, PartialEq, Eq, Structural)]
pub enum ButtonEvent {
    /// The button went down.
    Press(Button),
    /// The button came up.
    Release(Button),
}

/// One switch, debounced, and what it sends. A switch that sends nothing
/// is still sampled, and never reported.
pub struct Key {
    /// The switch's debounced state.
    pub debouncer: Debouncer,
    /// What it sends, if anything.
    pub button: Option<Button>,
}

/// What a key reports for an edge of its switch: a press for a rising edge,
/// a release for a falling one, and nothing for a key with nothing on it.
pub open spec fn key_event(button: Option<Button>, edge: Option<Edge>) -> Option<ButtonEvent> {
    match (button, edge) {
        (Some(b), Some(Edge::Rising)) => Some(ButtonEvent::Press(b)),
        (Some(b), Some(Edge::Falling)) => Some(ButtonEvent::Release(b)),
        _ => None,
    }
}

/// A key as a value: its debounced state and what it sends.
pub type KeyView = (DebounceState, Option<Button>);

/// A key, as a value.
pub open spec fn key_view(k: Key) -> KeyView {
    (k.debouncer@, k.button)
}

/// Keys, as values.
pub open spec fn keys_view(keys: Seq<Key>) -> Seq<KeyView> {
    keys.map_values(|k: Key| key_view(k))
}

/// What switch `i` reports for sample `samples[i]`.
pub open spec fn sample_event(keys: Seq<KeyView>, samples: Seq<bool>, i: int) -> Option<ButtonEvent> {
    key_event(keys[i].1, update_spec(keys[i].0, samples[i]).1)
}

/// Everything the first `n` switches report, in switch order.
pub open spec fn poll_events(keys: Seq<KeyView>, samples: Seq<bool>, n: int) -> Seq<ButtonEvent>
    decreases n,
{
    if n <= 0 {
        Seq::empty()
    } else {
        let before = poll_events(keys, samples, n - 1);
        match sample_event(keys, samples, n - 1) {
            Some(e) => before.push(e),
            None => before,
        }
    }
}

/// The keys after one poll of `frame`: each switch's state takes its sample,
/// and what it sends stays.
pub open spec fn next_keys(keys: Seq<KeyView>, frame: Seq<bool>) -> Seq<KeyView> {
    Seq::new(keys.len(), |i: int| (update_spec(keys[i].0, frame[i]).0, keys[i].1))
}

/// The keys after a poll of each of `frames`, in order.
pub open spec fn keys_after(keys: Seq<KeyView>, frames: Seq<Seq<bool>>) -> Seq<KeyView>
    decreases frames.len(),
{
    if frames.len() == 0 {
        keys
    } else {
        next_keys(keys_after(keys, frames.drop_last()), frames.last())
    }
}

/// What poll `t` of `frames` reports, from `keys`.
pub open spec fn events_of_poll(keys: Seq<KeyView>, frames: Seq<Seq<bool>>, t: int) -> Seq<
    ButtonEvent,
> {
    poll_events(keys_after(keys, frames.take(t)), frames[t], KEY_COUNT as int)
}

/// Switch `i`'s samples over `frames`.
pub open spec fn column(frames: Seq<Seq<bool>>, i: int) -> Seq<bool> {
    frames.map_values(|f: Seq<bool>| f[i])
}

/// The keys at boot: nothing held, each sending `buttons[i]`.
pub open spec fn booted(buttons: Seq<Option<Button>>) -> Seq<KeyView> {
    Seq::new(buttons.len(), |i: int| (initial_state(false), buttons[i]))
}

/// A frame in which only switch `k` is down.
pub open spec fn only_down(k: int) -> Seq<bool> {
    Seq::new(KEY_COUNT as nat, |i: int| i == k)
}

/// The board's switches, ready to be sampled once a frame.
pub struct Buttons {
    keys: Vec<Key>,
}

impl Buttons {
    #[verifier::type_invariant]
    closed spec fn inv(self) -> bool {
        self.keys@.len() == KEY_COUNT
    }

    /// The switches, in sampling order.
    pub closed spec fn keys(&self) -> Seq<Key> {
        self.keys@
    }

    /// Asks `board` what the key beside each switch sends, by its exact
    /// label; a label the board does not carry sends nothing. Nothing is held
    /// at boot.
    pub fn new(board: &Board) -> (b: Buttons)
        ensures
            b.keys().len() == KEY_COUNT,
            forall|i: int|
                0 <= i < KEY_COUNT ==> {
                    &&& (#[trigger] b.keys()[i]).button == board_sends(*board, wired_label(i))
                    &&& b.keys()[i].debouncer@ == initial_state(false)
                },
    {
        let mut keys: Vec<Key> = Vec::new();
        let mut i: usize = 0;
        while i < KEY_COUNT
            invariant
                i <= KEY_COUNT,
                keys@.len() == i,
                forall|j: int|
                    0 <= j < i ==> {
                        &&& (#[trigger] keys@[j]).button == board_sends(*board, wired_label(j))
                        &&& keys@[j].debouncer@ == initial_state(false)
                    },
            decreases KEY_COUNT - i,
        {
            let label = String::from_str(wired_label_of(i));
            let button = board.sends(&label);
            keys.push(Key { debouncer: Debouncer::new(false), button });
            i = i + 1;
        }
        Buttons { keys }
    }

    /// What switch `i` was resolved to send.
    pub fn sends(&self, i: usize) -> (r: Option<Button>)
        requires
            i < KEY_COUNT,
        ensures
            r == self.keys()[i as int].button,
    {
        proof {
            use_type_invariant(self);
        }
        self.keys[i].button
    }

    /// Samples every switch once, in order, and reports only what changed:
    /// a press when a switch settles down, a release when it settles up.
    /// Every switch is sampled, including one that sends nothing, so its
    /// history is never stale when it is given a job.
    pub fn poll(&mut self, samples: [bool; 5]) -> (events: Vec<ButtonEvent>)
        ensures
            final(self).keys().len() == KEY_COUNT,
            forall|i: int|
                0 <= i < KEY_COUNT ==> {
                    &&& (#[trigger] final(self).keys()[i]).debouncer@ == update_spec(
                        old(self).keys()[i].debouncer@,
                        samples@[i],
                    ).0
                    &&& final(self).keys()[i].button == old(self).keys()[i].button
                },
            keys_view(final(self).keys()) == next_keys(keys_view(old(self).keys()), samples@),
            events@ == poll_events(keys_view(old(self).keys()), samples@, KEY_COUNT as int),
    {
        proof {
            use_type_invariant(&*self);
        }
        let ghost before = self.keys@;
        let mut events: Vec<ButtonEvent> = Vec::new();
        let mut i: usize = 0;
        while i < KEY_COUNT
            invariant
                i <= KEY_COUNT,
                self.keys@.len() == KEY_COUNT,
                before.len() == KEY_COUNT,
                forall|j: int|
                    0 <= j < i ==> {
                        &&& (#[trigger] self.keys@[j]).debouncer@ == update_spec(
                            before[j].debouncer@,
                            samples@[j],
                        ).0
                        &&& self.keys@[j].button == before[j].button
                    },
                forall|j: int| i <= j < KEY_COUNT ==> #[trigger] self.keys@[j] == before[j],
                events@ == poll_events(keys_view(before), samples@, i as int),
            decreases KEY_COUNT - i,
        {
            let edge = self.keys[i].debouncer.update(samples[i]);
            let button = self.keys[i].button;
            match (button, edge) {
                (Some(b), Some(Edge::Rising)) => events.push(ButtonEvent::Press(b)),
                (Some(b), Some(Edge::Falling)) => events.push(ButtonEvent::Release(b)),
                _ => {},
            }
            i = i + 1;
        }
        proof {
            assert(keys_view(self.keys@) =~= next_keys(keys_view(before), samples@));
        }
        events
    }
}

/// A switch with nothing on it is never reported, whatever it samples.
pub proof fn law_silent_key_never_reported(keys: Seq<KeyView>, samples: Seq<bool>, i: int)
    requires
        0 <= i < keys.len(),
        keys[i].1 is None,
    ensures
        sample_event(keys, samples, i) is None,
{
}

/// Every report is a press or a release of what some switch sends, for an
/// edge of that switch: nothing else reaches the framework.
pub proof fn law_reports_come_from_switches(keys: Seq<KeyView>, samples: Seq<bool>, n: int, k: int)
    requires
        0 <= k < poll_events(keys, samples, n).len(),
    ensures
        exists|i: int|
            0 <= i < n && #[trigger] sample_event(keys, samples, i) == Some(
                poll_events(keys, samples, n)[k],
            ),
    decreases n,
{
    if n > 0 {
        let before = poll_events(keys, samples, n - 1);
        if k < before.len() {
            law_reports_come_from_switches(keys, samples, n - 1, k);
            let i = choose|i: int|
                0 <= i < n - 1 && #[trigger] sample_event(keys, samples, i) == Some(before[k]);
            assert(sample_event(keys, samples, i) == Some(poll_events(keys, samples, n)[k]));
        } else {
            assert(sample_event(keys, samples, n - 1) == Some(poll_events(keys, samples, n)[k]));
        }
    }
}


/// What a key with `button` on it reports for a run of `edges` of its
/// switch: nothing for a key with nothing on it, otherwise a press for each
/// rising edge and a release for each falling one.
pub open spec fn events_for(button: Option<Button>, edges: Seq<Edge>) -> Seq<ButtonEvent> {
    match button {
        None => Seq::empty(),
        Some(b) => edges.map_values(
            |e: Edge|
                if e == Edge::Rising {
                    ButtonEvent::Press(b)
                } else {
                    ButtonEvent::Release(b)
                },
        ),
    }
}

/// A thumb resting on a key is one press, however many frames it rests:
/// over samples that all agree, a key reports at most one event, a press of
/// what it sends when held and a release when left alone.
pub proof fn law_resting_thumb_is_one_press(
    s: DebounceState,
    button: Option<Button>,
    samples: Seq<bool>,
    pressed: bool,
)
    requires
        consistent(s),
        forall|i: int| 0 <= i < samples.len() ==> #[trigger] samples[i] == pressed,
    ensures
        events_for(button, reported(s, samples)).len() <= 1,
        forall|i: int|
            0 <= i < events_for(button, reported(s, samples)).len() ==> #[trigger] events_for(
                button,
                reported(s, samples),
            )[i] == (if pressed {
                ButtonEvent::Press(button->0)
            } else {
                ButtonEvent::Release(button->0)
            }),
{
    law_held_switch_reports_once(s, samples, pressed);
    let r = reported(s, samples);
    assert forall|i: int| 0 <= i < events_for(button, r).len() implies #[trigger] events_for(
        button,
        r,
    )[i] == (if pressed {
        ButtonEvent::Press(button->0)
    } else {
        ButtonEvent::Release(button->0)
    }) by {
        assert(r[i] == edge_towards(pressed));
    }
}


/// Every change is reported: whatever a switch reports in a poll is among
/// the poll's events, Back included, whatever screen is showing.
pub proof fn law_every_change_is_reported(keys: Seq<KeyView>, samples: Seq<bool>, n: int, i: int)
    requires
        0 <= i < n,
        sample_event(keys, samples, i) is Some,
    ensures
        poll_events(keys, samples, n).contains(sample_event(keys, samples, i)->0),
    decreases n,
{
    let before = poll_events(keys, samples, n - 1);
    if i < n - 1 {
        law_every_change_is_reported(keys, samples, n - 1, i);
        let k = choose|k: int| 0 <= k < before.len() && before[k] == sample_event(keys, samples, i)->0;
        assert(poll_events(keys, samples, n)[k] == before[k]);
    } else {
        let now = poll_events(keys, samples, n);
        assert(now[now.len() - 1] == sample_event(keys, samples, i)->0);
    }
}


/// After any polls, each key's state is its switch's column of samples run
/// through its debouncer, and what it sends is unchanged.
pub proof fn lemma_keys_after_is_columns(keys: Seq<KeyView>, frames: Seq<Seq<bool>>, i: int)
    requires
        0 <= i < keys.len(),
    ensures
        keys_after(keys, frames).len() == keys.len(),
        keys_after(keys, frames)[i] == (run(keys[i].0, column(frames, i)), keys[i].1),
    decreases frames.len(),
{
    if frames.len() > 0 {
        lemma_keys_after_is_columns(keys, frames.drop_last(), i);
        assert(column(frames, i).drop_last() =~= column(frames.drop_last(), i));
    }
}

/// The state of a debouncer that started released after `t` pressed
/// samples.
pub open spec fn held_state(t: nat) -> DebounceState {
    if t >= 4 {
        DebounceState { history: 15, last_edge: Edge::Rising }
    } else {
        DebounceState {
            history: if t == 0 {
                0
            } else if t == 1 {
                1
            } else if t == 2 {
                3
            } else {
                7
            },
            last_edge: Edge::Falling,
        }
    }
}

proof fn lemma_run_held(t: nat)
    ensures
        run(initial_state(false), Seq::new(t, |j: int| true)) == held_state(t),
    decreases t,
{
    if t > 0 {
        let samples = Seq::new(t, |j: int| true);
        assert(samples.drop_last() =~= Seq::new((t - 1) as nat, |j: int| true));
        lemma_run_held((t - 1) as nat);
    }
}

proof fn lemma_run_released(t: nat)
    ensures
        run(initial_state(false), Seq::new(t, |j: int| false)) == initial_state(false),
    decreases t,
{
    if t > 0 {
        let samples = Seq::new(t, |j: int| false);
        assert(samples.drop_last() =~= Seq::new((t - 1) as nat, |j: int| false));
        lemma_run_released((t - 1) as nat);
    }
}

proof fn lemma_one_event(keys: Seq<KeyView>, samples: Seq<bool>, n: int, k: int)
    requires
        0 <= n,
        forall|i: int| 0 <= i < n && i != k ==> #[trigger] sample_event(keys, samples, i) is None,
    ensures
        poll_events(keys, samples, n) == (if 0 <= k < n && sample_event(keys, samples, k) is Some {
            seq![sample_event(keys, samples, k)->0]
        } else {
            Seq::<ButtonEvent>::empty()
        }),
    decreases n,
{
    if n > 0 {
        lemma_one_event(keys, samples, n - 1, k);
        if k == n - 1 && sample_event(keys, samples, k) is Some {
            assert(Seq::<ButtonEvent>::empty().push(sample_event(keys, samples, k)->0) =~= seq![
                sample_event(keys, samples, k)->0,
            ]);
        }
    }
}

/// A key held from boot is one press, on the fourth poll: if only switch `k`
/// is down, poll after poll, the polls report nothing until the fourth, which
/// reports one press of what `k` sends, and nothing after that however long
/// the switch stays down. An edge, never a level.
pub proof fn law_held_key_presses_once_on_the_fourth_poll(
    buttons: Seq<Option<Button>>,
    k: int,
    b: Button,
    n: nat,
    t: int,
)
    requires
        buttons.len() == KEY_COUNT,
        0 <= k < KEY_COUNT,
        buttons[k] == Some(b),
        0 <= t < n,
    ensures
        events_of_poll(booted(buttons), Seq::new(n, |p: int| only_down(k)), t) == (if t == 3 {
            seq![ButtonEvent::Press(b)]
        } else {
            Seq::<ButtonEvent>::empty()
        }),
{
    let frames = Seq::new(n, |p: int| only_down(k));
    let before = frames.take(t);
    let keys = keys_after(booted(buttons), before);
    let frame = frames[t];
    assert forall|i: int| 0 <= i < KEY_COUNT implies keys[i] == (
        if i == k {
            held_state(t as nat)
        } else {
            initial_state(false)
        },
        buttons[i],
    ) by {
        lemma_keys_after_is_columns(booted(buttons), before, i);
        if i == k {
            assert(column(before, i) =~= Seq::new(t as nat, |j: int| true));
            lemma_run_held(t as nat);
        } else {
            assert(column(before, i) =~= Seq::new(t as nat, |j: int| false));
            lemma_run_released(t as nat);
        }
    }
    assert forall|i: int| 0 <= i < KEY_COUNT && i != k implies #[trigger] sample_event(
        keys,
        frame,
        i,
    ) is None by {
        assert(frame[i] == false);
    }
    assert(frame[k]);
    lemma_one_event(keys, frame, KEY_COUNT as int, k);
}


/// A released key, held, is one press on the fourth poll, whatever state it
/// and the other keys are in: if key `k` sends `b`, its switch is settled
/// released, and it is down at every poll of `frames`, then it reports a
/// press of `b` at the fourth poll and nothing at any other, never a release,
/// whatever the other switches do.
pub proof fn law_released_key_held_presses_once_on_the_fourth_poll(
    keys: Seq<KeyView>,
    frames: Seq<Seq<bool>>,
    k: int,
    b: Button,
    t: int,
)
    requires
        0 <= k < keys.len(),
        keys[k].1 == Some(b),
        consistent(keys[k].0),
        keys[k].0.history == 0,
        forall|j: int| 0 <= j < frames.len() ==> #[trigger] frames[j][k],
        0 <= t < frames.len(),
    ensures
        sample_event(keys_after(keys, frames.take(t)), frames[t], k) == (if t == 3 {
            Some(ButtonEvent::Press(b))
        } else {
            None
        }),
{
    assert(keys[k].0 == initial_state(false));
    lemma_keys_after_is_columns(keys, frames.take(t), k);
    assert(column(frames.take(t), k) =~= Seq::new(t as nat, |j: int| true)) by {
        assert forall|j: int| 0 <= j < t implies column(frames.take(t), k)[j] by {
            assert(frames.take(t)[j] == frames[j]);
        }
    }
    lemma_run_held(t as nat);
    assert(frames[t][k]);
}

/// A press needs four down polls, from any state in which the key is settled
/// released: key `k` reports a press at poll `t` only if its switch was down
/// at that poll and the three before it, so a switch let go before its fourth
/// down sample is never reported, whatever the other keys do.
pub proof fn law_released_key_press_needs_four_down_polls(
    keys: Seq<KeyView>,
    frames: Seq<Seq<bool>>,
    t: int,
    k: int,
    b: Button,
)
    requires
        0 <= k < keys.len(),
        consistent(keys[k].0),
        keys[k].0.history == 0,
        0 <= t < frames.len(),
        sample_event(keys_after(keys, frames.take(t)), frames[t], k) == Some(
            ButtonEvent::Press(b),
        ),
    ensures
        3 <= t,
        forall|j: int| t - 3 <= j <= t ==> #[trigger] frames[j][k],
{
    assert(keys[k].0 == initial_state(false));
    let col = column(frames, k);
    lemma_keys_after_is_columns(keys, frames.take(t), k);
    assert(column(frames.take(t), k) =~= col.take(t));
    assert(col[t] == frames[t][k]);
    law_edge_needs_four_agreeing_samples(col, t);
    assert(edge_at(initial_state(false), col, t) == Some(Edge::Rising));
    assert forall|j: int| t - 3 <= j <= t implies #[trigger] frames[j][k] by {
        assert(col[j] == frames[j][k]);
    }
}


/// A settled change is delivered as what the key sends: for every button,
/// a key sending it reports a rising edge as a press of it and a falling
/// edge as a release of it, and a key sending nothing reports neither.
pub proof fn law_edges_are_presses_and_releases(b: Button, edge: Edge)
    ensures
        key_event(Some(b), Some(Edge::Rising)) == Some(ButtonEvent::Press(b)),
        key_event(Some(b), Some(Edge::Falling)) == Some(ButtonEvent::Release(b)),
        key_event(None, Some(edge)) is None,
        key_event(Some(b), None) is None,
{
}

/// The state of a debouncer that started settled pressed after `t`
/// released samples.
pub open spec fn let_go_state(t: nat) -> DebounceState {
    if t >= 4 {
        DebounceState { history: 0, last_edge: Edge::Falling }
    } else {
        DebounceState {
            history: if t == 0 {
                15
            } else if t == 1 {
                14
            } else if t == 2 {
                12
            } else {
                8
            },
            last_edge: Edge::Rising,
        }
    }
}

proof fn lemma_run_let_go(t: nat)
    ensures
        run(initial_state(true), Seq::new(t, |j: int| false)) == let_go_state(t),
    decreases t,
{
    if t > 0 {
        let samples = Seq::new(t, |j: int| false);
        assert(samples.drop_last() =~= Seq::new((t - 1) as nat, |j: int| false));
        lemma_run_let_go((t - 1) as nat);
    }
}

/// A pressed key, let go, is one release on the fourth poll, whatever state
/// the other keys are in: if key `k` sends `b`, its switch is settled pressed,
/// and it is up at every poll of `frames`, then it reports a release of `b`
/// at the fourth poll and nothing at any other, whatever the other switches
/// do. No button is left held.
pub proof fn law_pressed_key_let_go_releases_once_on_the_fourth_poll(
    keys: Seq<KeyView>,
    frames: Seq<Seq<bool>>,
    k: int,
    b: Button,
    t: int,
)
    requires
        0 <= k < keys.len(),
        keys[k].1 == Some(b),
        consistent(keys[k].0),
        keys[k].0.history == 15,
        forall|j: int| 0 <= j < frames.len() ==> !(#[trigger] frames[j][k]),
        0 <= t < frames.len(),
    ensures
        sample_event(keys_after(keys, frames.take(t)), frames[t], k) == (if t == 3 {
            Some(ButtonEvent::Release(b))
        } else {
            None
        }),
{
    assert(keys[k].0 == initial_state(true));
    lemma_keys_after_is_columns(keys, frames.take(t), k);
    assert(column(frames.take(t), k) =~= Seq::new(t as nat, |j: int| false)) by {
        assert forall|j: int| 0 <= j < t implies column(frames.take(t), k)[j] == false by {
            assert(frames.take(t)[j] == frames[j]);
        }
    }
    lemma_run_let_go(t as nat);
    assert(!frames[t][k]);
}

} // verus!
