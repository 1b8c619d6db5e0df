//! What a board is, as far as its keys go: a size, a name, and the labelled
//! keys along its bezel, each sending a button or nothing.
//!
//! A key is found by its label, matched exactly. A label the board does not
//! carry sends nothing.

use vstd::prelude::*;
use vstd::string::StringExecFns;

verus! {

/// The logical buttons a screen reacts to.
#[derive(Clone, Copy, Debug, PartialEq, Eq, Structural)]
pub enum Button {
    /// Move up a list.
    Up,
    /// Move down a list.
    Down,
    /// Move or edit leftwards.
    Left,
    /// Move or edit rightwards; a direction, not a switch.
    Right,
    /// Open a row, commit a dialog.
    Confirm,
    /// Cancel, close, go back.
    Back,
}

/// A key on the bezel: the label printed beside it and what it sends.
#[derive(Clone, Debug)]
pub struct BezelKey {
    /// The label, as printed on the case.
    pub label: String,
    /// What pressing it sends, if anything.
    pub sends: Option<Button>,
}

/// A board: its name, the panel's size, whether it has a touchscreen, and
/// its keys, if it has any.
#[derive(Clone, Debug)]
pub struct Board {
    /// The board's name, as the boot log says it.
    pub name: String,
    /// Panel width in pixels.
    pub width: u32,
    /// Panel height in pixels.
    pub height: u32,
    /// Whether it is driven by a finger rather than keys.
    pub touch: bool,
    /// The labelled keys along the bezel, or `None` for a board with none.
    pub bezel: Option<Vec<BezelKey>>,
}

/// What the first key labelled exactly `label` sends, or nothing if no key
/// carries that label.
pub open spec fn labelled_sends(keys: Seq<BezelKey>, label: Seq<char>) -> Option<Button>
    decreases keys.len(),
{
    if keys.len() == 0 {
        None
    } else if keys[0].label@ == label {
        keys[0].sends
    } else {
        labelled_sends(keys.drop_first(), label)
    }
}

/// What the key labelled `label` on `board` sends: nothing on a board with no
/// bezel.
pub open spec fn board_sends(board: Board, label: Seq<char>) -> Option<Button> {
    match board.bezel {
        Some(keys) => labelled_sends(keys@, label),
        None => None,
    }
}

/// A key, built from a label and what it sends.
pub fn bezel_key(label: &str, sends: Option<Button>) -> (k: BezelKey)
    ensures
        k.label@ == label@,
        k.sends == sends,
{
    BezelKey { label: String::from_str(label), sends }
}

/// The five keys both Pimoroni badges carry: `a` goes back, `b` confirms, `c`
/// has nothing on it, and `Up` and `Dn` walk a list.
fn badge_keys() -> (keys: Vec<BezelKey>)
    ensures
        keys@.len() == 5,
        keys@[0].label@ == "a"@ && keys@[0].sends == Some(Button::Back),
        keys@[1].label@ == "b"@ && keys@[1].sends == Some(Button::Confirm),
        keys@[2].label@ == "c"@ && keys@[2].sends == None::<Button>,
        keys@[3].label@ == "Up"@ && keys@[3].sends == Some(Button::Up),
        keys@[4].label@ == "Dn"@ && keys@[4].sends == Some(Button::Down),
{
    let mut keys: Vec<BezelKey> = Vec::new();
    keys.push(bezel_key("a", Some(Button::Back)));
    keys.push(bezel_key("b", Some(Button::Confirm)));
    keys.push(bezel_key("c", None));
    keys.push(bezel_key("Up", Some(Button::Up)));
    keys.push(bezel_key("Dn", Some(Button::Down)));
    keys
}

impl Board {
    /// The Pimoroni Badger 2040: 296x128 of monochrome e-ink, no touchscreen,
    /// the five badge keys.
    pub fn badger_2040() -> (b: Board)
        ensures
            b.name@ == "Badger 2040"@,
            b.width == 296 && b.height == 128 && !b.touch,
            b.bezel is Some,
            b.bezel->0@.len() == 5,
            board_sends(b, "a"@) == Some(Button::Back),
            board_sends(b, "b"@) == Some(Button::Confirm),
            board_sends(b, "c"@) == None::<Button>,
            board_sends(b, "Up"@) == Some(Button::Up),
            board_sends(b, "Dn"@) == Some(Button::Down),
    {
        let keys = badge_keys();
        let b = Board {
            name: String::from_str("Badger 2040"),
            width: 296,
            height: 128,
            touch: false,
            bezel: Some(keys),
        };
        proof {
            lemma_badge_keys_send(keys@);
        }
        b
    }

    /// The Pimoroni Tufty 2040: 320x240 of colour IPS, no touchscreen, the
    /// same five badge keys.
    pub fn tufty_2040() -> (b: Board)
        ensures
            b.name@ == "Tufty 2040"@,
            b.width == 320 && b.height == 240 && !b.touch,
            b.bezel is Some,
            b.bezel->0@.len() == 5,
            board_sends(b, "a"@) == Some(Button::Back),
            board_sends(b, "b"@) == Some(Button::Confirm),
            board_sends(b, "c"@) == None::<Button>,
            board_sends(b, "Up"@) == Some(Button::Up),
            board_sends(b, "Dn"@) == Some(Button::Down),
    {
        let keys = badge_keys();
        let b = Board {
            name: String::from_str("Tufty 2040"),
            width: 320,
            height: 240,
            touch: false,
            bezel: Some(keys),
        };
        proof {
            lemma_badge_keys_send(keys@);
        }
        b
    }

    /// What the key labelled exactly `label` sends: the first key with that
    /// label, and nothing if the board carries no such label or no keys.
    pub fn sends(&self, label: &String) -> (r: Option<Button>)
        ensures
            r == board_sends(*self, label@),
    {
        match &self.bezel {
            None => None,
            Some(keys) => {
                let mut i: usize = 0;
                proof {
                    assert(keys@.skip(0) =~= keys@);
                }
                while i < keys.len()
                    invariant
                        self.bezel == Some(*keys),
                        i <= keys@.len(),
                        labelled_sends(keys@, label@) == labelled_sends(
                            keys@.skip(i as int),
                            label@,
                        ),
                    decreases keys@.len() - i,
                {
                    let ghost rest = keys@.skip(i as int);
                    assert(rest.drop_first() =~= keys@.skip(i + 1));
                    assert(rest[0] == keys@[i as int]);
                    if keys[i].label == *label {
                        return keys[i].sends;
                    }
                    i = i + 1;
                }
                proof {
                    assert(keys@.skip(i as int) =~= Seq::<BezelKey>::empty());
                }
                None
            },
        }
    }
}

proof fn lemma_badge_keys_send(keys: Seq<BezelKey>)
    requires
        keys.len() == 5,
        keys[0].label@ == "a"@ && keys[0].sends == Some(Button::Back),
        keys[1].label@ == "b"@ && keys[1].sends == Some(Button::Confirm),
        keys[2].label@ == "c"@ && keys[2].sends == None::<Button>,
        keys[3].label@ == "Up"@ && keys[3].sends == Some(Button::Up),
        keys[4].label@ == "Dn"@ && keys[4].sends == Some(Button::Down),
    ensures
        labelled_sends(keys, "a"@) == Some(Button::Back),
        labelled_sends(keys, "b"@) == Some(Button::Confirm),
        labelled_sends(keys, "c"@) == None::<Button>,
        labelled_sends(keys, "Up"@) == Some(Button::Up),
        labelled_sends(keys, "Dn"@) == Some(Button::Down),
{
    reveal_strlit("a");
    reveal_strlit("b");
    reveal_strlit("c");
    reveal_strlit("Up");
    reveal_strlit("Dn");
    let k1 = keys.drop_first();
    let k2 = k1.drop_first();
    let k3 = k2.drop_first();
    let k4 = k3.drop_first();
    assert(k1[0] == keys[1] && k2[0] == keys[2] && k3[0] == keys[3] && k4[0] == keys[4]);
    let a = "a"@;
    let b = "b"@;
    let c = "c"@;
    let up = "Up"@;
    let dn = "Dn"@;
    assert(a.len() == 1 && b.len() == 1 && c.len() == 1 && up.len() == 2 && dn.len() == 2);
    assert(a[0] == 'a' && b[0] == 'b' && c[0] == 'c' && up[0] == 'U' && dn[0] == 'D');
    assert(a != b && a != c && b != c && a != up && a != dn && b != up && b != dn);
    assert(c != up && c != dn && up != dn);
    assert(labelled_sends(k4, dn) == Some(Button::Down));
    assert(labelled_sends(k3, dn) == Some(Button::Down));
    assert(labelled_sends(k3, up) == Some(Button::Up));
    assert(labelled_sends(k2, dn) == Some(Button::Down));
    assert(labelled_sends(k2, up) == Some(Button::Up));
    assert(labelled_sends(k2, c) == None::<Button>);
    assert(labelled_sends(k1, dn) == Some(Button::Down));
    assert(labelled_sends(k1, up) == Some(Button::Up));
    assert(labelled_sends(k1, c) == None::<Button>);
    assert(labelled_sends(k1, b) == Some(Button::Confirm));
}


/// A label the board does not carry sends nothing: a typo is a silent key,
/// never another key's button.
pub proof fn law_unknown_label_sends_nothing(keys: Seq<BezelKey>, label: Seq<char>)
    requires
        forall|i: int| 0 <= i < keys.len() ==> (#[trigger] keys[i]).label@ != label,
    ensures
        labelled_sends(keys, label) is None,
    decreases keys.len(),
{
    if keys.len() > 0 {
        assert(keys[0].label@ != label);
        assert forall|i: int| 0 <= i < keys.drop_first().len() implies (
        #[trigger] keys.drop_first()[i]).label@ != label by {
            assert(keys.drop_first()[i] == keys[i + 1]);
        }
        law_unknown_label_sends_nothing(keys.drop_first(), label);
    }
}

} // verus!
