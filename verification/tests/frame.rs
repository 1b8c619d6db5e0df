use xpui_rp2040::frame::{
    frame_clock, FrameAction, FrameEvent, FrameLoop, FramePhase, FRAME_INTERVAL_MS,
};

#[test]
fn the_first_frame_is_painted_and_presented() {
    let mut l = FrameLoop::new();
    assert_eq!(l.phase(), FramePhase::Booting);
    assert_eq!(
        l.step(FrameEvent::Started),
        vec![
            FrameAction::RenderAll,
            FrameAction::ClearDirty,
            FrameAction::Present
        ]
    );
    assert_eq!(l.phase(), FramePhase::BetweenFrames);
}

#[test]
fn nothing_happens_before_the_start() {
    let mut l = FrameLoop::new();
    assert!(l
        .step(FrameEvent::FrameDue {
            running: true,
            now_ms: 5
        })
        .is_empty());
    assert!(l.step(FrameEvent::Rendered { painted: true }).is_empty());
    assert_eq!(l.phase(), FramePhase::Booting);
}

#[test]
fn a_frame_begins_polls_ticks_and_asks_to_render() {
    let mut l = FrameLoop::new();
    l.step(FrameEvent::Started);
    assert_eq!(
        l.step(FrameEvent::FrameDue {
            running: true,
            now_ms: 1234
        }),
        vec![
            FrameAction::BeginFrame { clock_ms: 1234 },
            FrameAction::PollKeys,
            FrameAction::Tick,
            FrameAction::RenderIfDirty
        ]
    );
    assert_eq!(l.phase(), FramePhase::AwaitingPaint);
}

#[test]
fn a_painted_frame_is_presented_then_waits() {
    let mut l = FrameLoop::new();
    l.step(FrameEvent::Started);
    l.step(FrameEvent::FrameDue {
        running: true,
        now_ms: 0,
    });
    assert_eq!(
        l.step(FrameEvent::Rendered { painted: true }),
        vec![
            FrameAction::ClearDirty,
            FrameAction::Present,
            FrameAction::Wait { ms: 10 }
        ]
    );
}

#[test]
fn an_unpainted_frame_only_waits() {
    let mut l = FrameLoop::new();
    l.step(FrameEvent::Started);
    l.step(FrameEvent::FrameDue {
        running: true,
        now_ms: 0,
    });
    assert_eq!(
        l.step(FrameEvent::Rendered { painted: false }),
        vec![FrameAction::Wait {
            ms: FRAME_INTERVAL_MS
        }]
    );
    assert_eq!(l.phase(), FramePhase::BetweenFrames);
}

#[test]
fn a_finished_root_parks_for_good() {
    let mut l = FrameLoop::new();
    l.step(FrameEvent::Started);
    assert_eq!(
        l.step(FrameEvent::FrameDue {
            running: false,
            now_ms: 0
        }),
        vec![FrameAction::Park]
    );
    assert_eq!(l.phase(), FramePhase::Parked);
    assert!(l
        .step(FrameEvent::FrameDue {
            running: true,
            now_ms: 1
        })
        .is_empty());
    assert!(l.step(FrameEvent::Started).is_empty());
    assert_eq!(l.phase(), FramePhase::Parked);
}

#[test]
fn the_clock_wraps_after_two_to_the_thirty_two_milliseconds() {
    assert_eq!(frame_clock(0), 0);
    assert_eq!(frame_clock(4_294_967_295), u32::MAX);
    assert_eq!(frame_clock(4_294_967_296), 0);
    assert_eq!(frame_clock(4_294_967_296 + 41), 41);
}

#[test]
fn the_debounce_window_is_forty_milliseconds() {
    assert_eq!(
        FRAME_INTERVAL_MS * xpui_rp2040::debounce::SAMPLES as u64,
        40
    );
}

#[test]
fn presents_match_paints_over_a_run() {
    let mut l = FrameLoop::new();
    let mut presents = 0;
    let mut waits = 0;
    let mut count = |acts: Vec<FrameAction>| {
        for a in acts {
            if a == FrameAction::Present {
                presents += 1;
            }
            if a == (FrameAction::Wait { ms: 10 }) {
                waits += 1;
            }
        }
    };
    count(l.step(FrameEvent::Started));
    for i in 0..10u64 {
        count(l.step(FrameEvent::FrameDue {
            running: true,
            now_ms: i * 10,
        }));
        count(l.step(FrameEvent::Rendered {
            painted: i % 3 == 0,
        }));
    }
    assert_eq!(presents, 1 + 4);
    assert_eq!(waits, 10);
}
