use xpui_rp2040::debounce::{Debouncer, Edge};

fn reference_edges(samples: &[bool]) -> Vec<Option<debouncr::Edge>> {
    let mut d = debouncr::debounce_stateful_4(false);
    samples.iter().map(|&s| d.update(s)).collect()
}

fn edges(samples: &[bool]) -> Vec<Option<Edge>> {
    let mut d = Debouncer::new(false);
    samples.iter().map(|&s| d.update(s)).collect()
}

fn same(a: &Option<Edge>, b: &Option<debouncr::Edge>) -> bool {
    matches!(
        (a, b),
        (None, None)
            | (Some(Edge::Rising), Some(debouncr::Edge::Rising))
            | (Some(Edge::Falling), Some(debouncr::Edge::Falling))
    )
}

#[test]
fn agrees_with_debouncr_on_every_sequence_up_to_twelve_samples() {
    for len in 0..=12u32 {
        for bits in 0..(1u32 << len) {
            let samples: Vec<bool> = (0..len).map(|i| bits & (1 << i) != 0).collect();
            let ours = edges(&samples);
            let theirs = reference_edges(&samples);
            for (a, b) in ours.iter().zip(theirs.iter()) {
                assert!(same(a, b), "samples {:?}", samples);
            }
        }
    }
}

#[test]
fn agrees_with_debouncr_when_starting_pressed() {
    for bits in 0..(1u32 << 10) {
        let samples: Vec<bool> = (0..10).map(|i| bits & (1 << i) != 0).collect();
        let mut ours = Debouncer::new(true);
        let mut theirs = debouncr::debounce_stateful_4(true);
        for &s in &samples {
            let a = ours.update(s);
            let b = theirs.update(s);
            assert!(same(&a, &b));
            assert_eq!(ours.is_high(), theirs.is_high());
            assert_eq!(ours.is_low(), theirs.is_low());
        }
    }
}

#[test]
fn a_press_is_reported_on_the_fourth_agreeing_sample() {
    assert_eq!(
        edges(&[true, true, true, true]),
        vec![None, None, None, Some(Edge::Rising)]
    );
}

#[test]
fn a_held_switch_is_one_press() {
    let e = edges(&[true; 40]);
    assert_eq!(e.iter().filter(|x| x.is_some()).count(), 1);
    assert_eq!(e[3], Some(Edge::Rising));
}

#[test]
fn a_bounce_shorter_than_four_samples_says_nothing() {
    assert!(edges(&[true, false, true, true, false, true, true, true, false])
        .iter()
        .all(|e| e.is_none()));
}

#[test]
fn presses_and_releases_alternate() {
    let mut samples = Vec::new();
    for _ in 0..3 {
        samples.extend([true; 5]);
        samples.extend([false; 5]);
    }
    let reported: Vec<Edge> = edges(&samples).into_iter().flatten().collect();
    assert_eq!(
        reported,
        vec![
            Edge::Rising,
            Edge::Falling,
            Edge::Rising,
            Edge::Falling,
            Edge::Rising,
            Edge::Falling
        ]
    );
}

#[test]
fn nothing_is_held_at_boot_so_the_first_release_is_not_reported() {
    assert!(edges(&[false; 8]).iter().all(|e| e.is_none()));
}

#[test]
fn settled_levels_are_readable() {
    let mut d = Debouncer::new(false);
    assert!(d.is_low() && !d.is_high());
    for _ in 0..4 {
        d.update(true);
    }
    assert!(d.is_high() && !d.is_low());
    d.update(false);
    assert!(!d.is_high() && !d.is_low());
}
