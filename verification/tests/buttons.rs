use xpui_rp2040::board::{bezel_key, Board, Button};
use xpui_rp2040::buttons::{wired_label_of, ButtonEvent, Buttons, KEY_COUNT};

fn sends(board: &Board, label: &str) -> Option<Button> {
    board.sends(&label.to_string())
}

#[test]
fn the_badgers_labels_resolve_to_what_the_board_says() {
    let badger = Board::badger_2040();
    assert_eq!(sends(&badger, "a"), Some(Button::Back));
    assert_eq!(sends(&badger, "b"), Some(Button::Confirm));
    assert_eq!(sends(&badger, "c"), None);
    assert_eq!(sends(&badger, "Up"), Some(Button::Up));
    assert_eq!(sends(&badger, "Dn"), Some(Button::Down));
    assert_eq!(sends(&badger, "Down"), None);
    assert_eq!(sends(&badger, "A"), None);
}

#[test]
fn the_boards_are_described() {
    let badger = Board::badger_2040();
    assert_eq!(badger.name, "Badger 2040");
    assert_eq!((badger.width, badger.height), (296, 128));
    assert!(!badger.touch);
    let tufty = Board::tufty_2040();
    assert_eq!(tufty.name, "Tufty 2040");
    assert_eq!((tufty.width, tufty.height), (320, 240));
    assert_eq!(sends(&tufty, "a"), Some(Button::Back));
    assert_eq!(sends(&tufty, "Dn"), Some(Button::Down));
}

#[test]
fn a_board_without_keys_sends_nothing() {
    let board = Board {
        name: "Panel".to_string(),
        width: 10,
        height: 10,
        touch: true,
        bezel: None,
    };
    assert_eq!(sends(&board, "a"), None);
}

#[test]
fn the_first_key_with_a_label_wins() {
    let board = Board {
        name: "Twice".to_string(),
        width: 10,
        height: 10,
        touch: false,
        bezel: Some(vec![
            bezel_key("x", Some(Button::Left)),
            bezel_key("x", Some(Button::Right)),
        ]),
    };
    assert_eq!(sends(&board, "x"), Some(Button::Left));
}

#[test]
fn the_switches_are_wired_by_label() {
    let labels: Vec<&str> = (0..KEY_COUNT).map(wired_label_of).collect();
    assert_eq!(labels, vec!["a", "b", "c", "Up", "Dn"]);
    let buttons = Buttons::new(&Board::badger_2040());
    let resolved: Vec<Option<Button>> = (0..KEY_COUNT).map(|i| buttons.sends(i)).collect();
    assert_eq!(
        resolved,
        vec![
            Some(Button::Back),
            Some(Button::Confirm),
            None,
            Some(Button::Up),
            Some(Button::Down)
        ]
    );
}

#[test]
fn a_press_of_a_is_back_after_four_frames_then_a_release() {
    let mut buttons = Buttons::new(&Board::badger_2040());
    let down = [true, false, false, false, false];
    let up = [false; 5];
    for _ in 0..3 {
        assert!(buttons.poll(down).is_empty());
    }
    assert_eq!(buttons.poll(down), vec![ButtonEvent::Press(Button::Back)]);
    for _ in 0..20 {
        assert!(buttons.poll(down).is_empty());
    }
    for _ in 0..3 {
        assert!(buttons.poll(up).is_empty());
    }
    assert_eq!(buttons.poll(up), vec![ButtonEvent::Release(Button::Back)]);
}

#[test]
fn a_switch_with_nothing_on_it_is_silent() {
    let mut buttons = Buttons::new(&Board::badger_2040());
    for _ in 0..10 {
        assert!(buttons.poll([false, false, true, false, false]).is_empty());
    }
    for _ in 0..10 {
        assert!(buttons.poll([false; 5]).is_empty());
    }
}

#[test]
fn simultaneous_presses_come_in_switch_order() {
    let mut buttons = Buttons::new(&Board::tufty_2040());
    let all = [true; 5];
    for _ in 0..3 {
        assert!(buttons.poll(all).is_empty());
    }
    assert_eq!(
        buttons.poll(all),
        vec![
            ButtonEvent::Press(Button::Back),
            ButtonEvent::Press(Button::Confirm),
            ButtonEvent::Press(Button::Up),
            ButtonEvent::Press(Button::Down)
        ]
    );
}

#[test]
fn a_bouncing_switch_says_nothing() {
    let mut buttons = Buttons::new(&Board::badger_2040());
    for i in 0..12 {
        let s = i % 2 == 0;
        assert!(buttons.poll([false, false, false, s, false]).is_empty());
    }
}

#[test]
fn a_released_key_held_again_presses_on_the_fourth_poll_whatever_the_others_do() {
    let mut buttons = Buttons::new(&Board::badger_2040());
    for _ in 0..5 {
        buttons.poll([true, false, false, false, false]);
    }
    for _ in 0..5 {
        buttons.poll([false; 5]);
    }
    let frames = [
        [false, true, true, false, true],
        [false, true, false, true, true],
        [false, true, true, true, false],
        [false, true, false, false, true],
        [false, true, true, true, true],
    ];
    let mut b_events = Vec::new();
    for (t, frame) in frames.iter().enumerate() {
        for e in buttons.poll(*frame) {
            if matches!(e, ButtonEvent::Press(Button::Confirm) | ButtonEvent::Release(Button::Confirm)) {
                b_events.push((t, e));
            }
        }
    }
    assert_eq!(b_events, vec![(3, ButtonEvent::Press(Button::Confirm))]);
}
