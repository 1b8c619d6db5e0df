//! The frame loop's decisions, written once for both boards.
//!
//! The loop paints once before anything else, so the panel never holds what
//! survived reset. Then, every frame: start it on the board's clock, sample
//! the switches, tick, and present only if the framework painted, then wait
//! out the frame interval. When the root screen finishes, the board parks and
//! does nothing more. The loop itself runs the actions; this decides them.

use vstd::prelude::*;

verus! {

/// How often the loop wakes, in milliseconds. It sets the debounce window:
/// four agreeing samples at this interval is 40 ms.
pub const FRAME_INTERVAL_MS: u64 = 10;

/// Where the loop is.
#[derive(Clone, Copy, Debug, PartialEq, Eq, Structural)]
pub enum FramePhase {
    /// Nothing has been painted yet.
    Booting,
    /// Between frames: the next thing is the start of a frame.
    BetweenFrames,
    /// A frame has ticked and asked whether it painted.
    AwaitingPaint,
    /// The root screen finished; nothing more happens.
    Parked,
}

/// What the loop tells its decisions.
#[derive(Clone, Copy, Debug, PartialEq, Eq, Structural)]
pub enum FrameEvent {
    /// The backend is installed and the app built.
    Started,
    /// A frame is due: whether the app still runs, and the time.
    FrameDue { running: bool, now_ms: u64 },
    /// The frame's render asked to paint, and whether it painted.
    Rendered { painted: bool },
}

/// What the loop does, in order.
#[derive(Clone, Copy, Debug, PartialEq, Eq, Structural)]
pub enum FrameAction {
    /// Paint the whole screen.
    RenderAll,
    /// Mark the backend clean.
    ClearDirty,
    /// Push the framebuffer to the glass.
    Present,
    /// Start a frame at this clock reading.
    BeginFrame { clock_ms: u32 },
    /// Sample the switches and deliver what changed.
    PollKeys,
    /// One frame of input.
    Tick,
    /// Paint if something changed, and report whether it did.
    RenderIfDirty,
    /// Sleep this long.
    Wait { ms: u64 },
    /// Stop for good, leaving the last frame up.
    Park,
}

/// The framework's clock: milliseconds since boot, wrapping after 2^32,
/// about 49 days. What reads it measures short intervals.
pub open spec fn clock_of(now_ms: u64) -> u32 {
    (now_ms % 0x1_0000_0000) as u32
}

/// The clock reading a frame starts at.
pub fn frame_clock(now_ms: u64) -> (c: u32)
    ensures
        c == clock_of(now_ms),
{
    (now_ms % 0x1_0000_0000) as u32
}

/// One decision: from `phase`, what `event` leads to and what is done.
/// An event that does not fit the phase changes nothing and does nothing.
pub open spec fn step_spec(phase: FramePhase, event: FrameEvent) -> (FramePhase, Seq<FrameAction>) {
    match (phase, event) {
        (FramePhase::Booting, FrameEvent::Started) => (
            FramePhase::BetweenFrames,
            seq![FrameAction::RenderAll, FrameAction::ClearDirty, FrameAction::Present],
        ),
        (FramePhase::BetweenFrames, FrameEvent::FrameDue { running, now_ms }) => if running {
            (
                FramePhase::AwaitingPaint,
                seq![
                    FrameAction::BeginFrame { clock_ms: clock_of(now_ms) },
                    FrameAction::PollKeys,
                    FrameAction::Tick,
                    FrameAction::RenderIfDirty,
                ],
            )
        } else {
            (FramePhase::Parked, seq![FrameAction::Park])
        },
        (FramePhase::AwaitingPaint, FrameEvent::Rendered { painted }) => if painted {
            (
                FramePhase::BetweenFrames,
                seq![
                    FrameAction::ClearDirty,
                    FrameAction::Present,
                    FrameAction::Wait { ms: FRAME_INTERVAL_MS },
                ],
            )
        } else {
            (FramePhase::BetweenFrames, seq![FrameAction::Wait { ms: FRAME_INTERVAL_MS }])
        },
        _ => (phase, Seq::empty()),
    }
}

/// The decisions of the frame loop.
pub struct FrameLoop {
    phase: FramePhase,
}

impl FrameLoop {
    /// Where the loop is.
    pub closed spec fn phase_spec(&self) -> FramePhase {
        self.phase
    }

    /// A loop that has painted nothing yet.
    pub fn new() -> (l: FrameLoop)
        ensures
            l.phase_spec() == FramePhase::Booting,
    {
        FrameLoop { phase: FramePhase::Booting }
    }

    /// Where the loop is.
    pub fn phase(&self) -> (p: FramePhase)
        ensures
            p == self.phase_spec(),
    {
        self.phase
    }

    /// Takes `event` and says what to do next, in order.
    pub fn step(&mut self, event: FrameEvent) -> (actions: Vec<FrameAction>)
        ensures
            (final(self).phase_spec(), actions@) == step_spec(old(self).phase_spec(), event),
    {
        let mut actions: Vec<FrameAction> = Vec::new();
        match (self.phase, event) {
            (FramePhase::Booting, FrameEvent::Started) => {
                actions.push(FrameAction::RenderAll);
                actions.push(FrameAction::ClearDirty);
                actions.push(FrameAction::Present);
                self.phase = FramePhase::BetweenFrames;
            },
            (FramePhase::BetweenFrames, FrameEvent::FrameDue { running, now_ms }) => {
                if running {
                    actions.push(FrameAction::BeginFrame { clock_ms: frame_clock(now_ms) });
                    actions.push(FrameAction::PollKeys);
                    actions.push(FrameAction::Tick);
                    actions.push(FrameAction::RenderIfDirty);
                    self.phase = FramePhase::AwaitingPaint;
                } else {
                    actions.push(FrameAction::Park);
                    self.phase = FramePhase::Parked;
                }
            },
            (FramePhase::AwaitingPaint, FrameEvent::Rendered { painted }) => {
                if painted {
                    actions.push(FrameAction::ClearDirty);
                    actions.push(FrameAction::Present);
                }
                actions.push(FrameAction::Wait { ms: FRAME_INTERVAL_MS });
                self.phase = FramePhase::BetweenFrames;
            },
            _ => {},
        }
        proof {
            assert(actions@ =~= step_spec(old(self).phase_spec(), event).1);
        }
        actions
    }
}


/// Every event of `events`, in order, from `phase`: where the loop ends up
/// and everything it did.
pub open spec fn run_loop(phase: FramePhase, events: Seq<FrameEvent>) -> (FramePhase, Seq<FrameAction>)
    decreases events.len(),
{
    if events.len() == 0 {
        (phase, Seq::empty())
    } else {
        let (p, done) = run_loop(phase, events.drop_last());
        let (q, more) = step_spec(p, events.last());
        (q, done + more)
    }
}

/// How often `x` occurs in `actions`.
pub open spec fn occurrences(actions: Seq<FrameAction>, x: FrameAction) -> nat
    decreases actions.len(),
{
    if actions.len() == 0 {
        0
    } else {
        occurrences(actions.drop_last(), x) + if actions.last() == x {
            1nat
        } else {
            0nat
        }
    }
}

/// Whether `event` in `phase` is a paint: the first one, or a frame whose
/// render painted.
pub open spec fn paints(phase: FramePhase, event: FrameEvent) -> bool {
    ||| phase == FramePhase::Booting && event == FrameEvent::Started
    ||| phase == FramePhase::AwaitingPaint && event == FrameEvent::Rendered { painted: true }
}

/// Whether `event` in `phase` finishes a frame.
pub open spec fn finishes_frame(phase: FramePhase, event: FrameEvent) -> bool {
    phase == FramePhase::AwaitingPaint && event is Rendered
}

/// How many of `events`, run from `phase`, painted.
pub open spec fn paint_count(phase: FramePhase, events: Seq<FrameEvent>) -> nat
    decreases events.len(),
{
    if events.len() == 0 {
        0
    } else {
        paint_count(phase, events.drop_last()) + if paints(
            run_loop(phase, events.drop_last()).0,
            events.last(),
        ) {
            1nat
        } else {
            0nat
        }
    }
}

/// How many frames `events`, run from `phase`, finished.
pub open spec fn frame_count(phase: FramePhase, events: Seq<FrameEvent>) -> nat
    decreases events.len(),
{
    if events.len() == 0 {
        0
    } else {
        frame_count(phase, events.drop_last()) + if finishes_frame(
            run_loop(phase, events.drop_last()).0,
            events.last(),
        ) {
            1nat
        } else {
            0nat
        }
    }
}

proof fn lemma_occurrences_append(a: Seq<FrameAction>, b: Seq<FrameAction>, x: FrameAction)
    ensures
        occurrences(a + b, x) == occurrences(a, x) + occurrences(b, x),
    decreases b.len(),
{
    if b.len() == 0 {
        assert(a + b =~= a);
    } else {
        lemma_occurrences_append(a, b.drop_last(), x);
        assert((a + b).drop_last() =~= a + b.drop_last());
    }
}

proof fn lemma_step_counts(phase: FramePhase, event: FrameEvent)
    ensures
        occurrences(step_spec(phase, event).1, FrameAction::Present) == if paints(phase, event) {
            1nat
        } else {
            0nat
        },
        occurrences(step_spec(phase, event).1, FrameAction::Wait { ms: FRAME_INTERVAL_MS })
            == if finishes_frame(phase, event) {
            1nat
        } else {
            0nat
        },
{
    let acts = step_spec(phase, event).1;
    reveal_with_fuel(occurrences, 5);
    if acts.len() == 4 {
        assert(acts.drop_last().drop_last().drop_last().drop_last() =~= Seq::<FrameAction>::empty());
    }
    if acts.len() == 3 {
        assert(acts.drop_last().drop_last().drop_last() =~= Seq::<FrameAction>::empty());
    }
    if acts.len() == 1 {
        assert(acts.drop_last() =~= Seq::<FrameAction>::empty());
    }
}

/// The panel is presented exactly as often as something was painted: once
/// for the first paint, and once for every frame whose render painted. A
/// frame that painted nothing costs no refresh, which on e-ink is a second.
pub proof fn law_present_only_what_was_painted(phase: FramePhase, events: Seq<FrameEvent>)
    ensures
        occurrences(run_loop(phase, events).1, FrameAction::Present) == paint_count(phase, events),
    decreases events.len(),
{
    if events.len() > 0 {
        let prev = events.drop_last();
        law_present_only_what_was_painted(phase, prev);
        let (p, done) = run_loop(phase, prev);
        lemma_step_counts(p, events.last());
        lemma_occurrences_append(done, step_spec(p, events.last()).1, FrameAction::Present);
    }
}

/// Every frame the loop finishes ends with one wait of the frame interval,
/// and nothing else waits: the core never spins between frames.
pub proof fn law_every_frame_waits(phase: FramePhase, events: Seq<FrameEvent>)
    ensures
        occurrences(run_loop(phase, events).1, FrameAction::Wait { ms: FRAME_INTERVAL_MS })
            == frame_count(phase, events),
    decreases events.len(),
{
    if events.len() > 0 {
        let prev = events.drop_last();
        law_every_frame_waits(phase, prev);
        let (p, done) = run_loop(phase, prev);
        lemma_step_counts(p, events.last());
        lemma_occurrences_append(
            done,
            step_spec(p, events.last()).1,
            FrameAction::Wait { ms: FRAME_INTERVAL_MS },
        );
    }
}

/// A parked board stays parked and does nothing more, whatever happens.
pub proof fn law_parked_is_final(events: Seq<FrameEvent>)
    ensures
        run_loop(FramePhase::Parked, events).0 == FramePhase::Parked,
        run_loop(FramePhase::Parked, events).1 == Seq::<FrameAction>::empty(),
    decreases events.len(),
{
    if events.len() > 0 {
        law_parked_is_final(events.drop_last());
        assert(Seq::<FrameAction>::empty() + Seq::<FrameAction>::empty() =~= Seq::<
            FrameAction,
        >::empty());
    }
}

/// Nothing happens before the first paint, and the first paint is whole:
/// whatever the loop does begins with painting the screen, marking it clean
/// and presenting it, so the panel never holds what survived reset.
pub proof fn law_first_frame_painted_before_anything(events: Seq<FrameEvent>)
    ensures
        run_loop(FramePhase::Booting, events).0 == FramePhase::Booting ==> run_loop(
            FramePhase::Booting,
            events,
        ).1.len() == 0,
        run_loop(FramePhase::Booting, events).0 != FramePhase::Booting ==> {
            let acts = run_loop(FramePhase::Booting, events).1;
            &&& acts.len() >= 3
            &&& acts[0] == FrameAction::RenderAll
            &&& acts[1] == FrameAction::ClearDirty
            &&& acts[2] == FrameAction::Present
        },
    decreases events.len(),
{
    if events.len() > 0 {
        law_first_frame_painted_before_anything(events.drop_last());
        let (p, done) = run_loop(FramePhase::Booting, events.drop_last());
        let more = step_spec(p, events.last()).1;
        if p == FramePhase::Booting {
            assert(done + more =~= more);
        } else {
            assert((done + more)[0] == done[0]);
            assert((done + more)[1] == done[1]);
            assert((done + more)[2] == done[2]);
        }
    }
}


/// A running frame starts on the framework's clock: milliseconds since boot,
/// wrapping after 2^32 of them (about 49 days), never sooner. Whenever a
/// frame is due and the app runs, the first thing done is to begin it at
/// exactly `now_ms` modulo 2^32, which is `now_ms` itself for the first 49
/// days.
pub proof fn law_frames_begin_on_the_wrapping_clock(now_ms: u64)
    ensures
        ({
            let acts = step_spec(
                FramePhase::BetweenFrames,
                FrameEvent::FrameDue { running: true, now_ms },
            ).1;
            &&& acts.len() > 0
            &&& acts[0] matches FrameAction::BeginFrame { clock_ms }
            &&& clock_ms as int == now_ms as int % 0x1_0000_0000
            &&& now_ms < 0x1_0000_0000 ==> clock_ms as int == now_ms as int
        }),
{
}

} // verus!
