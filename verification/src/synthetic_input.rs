//! The key chords that the input's edit menu replays.
//!
//! Only the focused input knows its selection, so Cut and Copy are carried out
//! by the input itself, on a synthesized Ctrl chord.

use vstd::prelude::*;

verus! {

/// Which clipboard action to replay.
#[derive(Debug, Clone, Copy, PartialEq, Eq, Structural)]
pub enum Edit {
    Copy,
    Cut,
}

/// A key of the chord.
#[derive(Debug, Clone, Copy, PartialEq, Eq, Structural)]
pub enum Key {
    Control,
    Letter(char),
}

/// One key transition.
#[derive(Debug, Clone, Copy, PartialEq, Eq, Structural)]
pub struct Stroke {
    pub key: Key,
    pub down: bool,
}

/// The letter of the chord.
pub open spec fn letter_of(e: Edit) -> char {
    match e {
        Edit::Copy => 'C',
        Edit::Cut => 'X',
    }
}

/// The transitions of the chord: Ctrl down, letter down, letter up, Ctrl up.
pub open spec fn chord_of(e: Edit) -> Seq<Stroke> {
    seq![
        Stroke { key: Key::Control, down: true },
        Stroke { key: Key::Letter(letter_of(e)), down: true },
        Stroke { key: Key::Letter(letter_of(e)), down: false },
        Stroke { key: Key::Control, down: false },
    ]
}

/// The transitions of the chord.
pub fn chord(edit: Edit) -> (r: Vec<Stroke>)
    ensures
        r@ == chord_of(edit),
{
    let letter: char = match edit {
        Edit::Copy => 'C',
        Edit::Cut => 'X',
    };
    let r = vec![
        Stroke { key: Key::Control, down: true },
        Stroke { key: Key::Letter(letter), down: true },
        Stroke { key: Key::Letter(letter), down: false },
        Stroke { key: Key::Control, down: false },
    ];
    assert(r@ =~= chord_of(edit));
    r
}

/// A chord leaves no key held: every key goes up again, after it went down,
/// and Ctrl is held for as long as the letter is.
pub proof fn law_a_chord_releases_every_key(e: Edit)
    ensures
        forall|i: int|
            0 <= i < 2 ==> {
                let s = #[trigger] chord_of(e)[i];
                s.down && chord_of(e)[3 - i] == (Stroke { down: false, ..s })
            },
        chord_of(e).len() == 4,
{
}

/// Copy replays Ctrl with `C`, Cut replays Ctrl with `X`.
pub proof fn law_each_edit_has_its_letter()
    ensures
        chord_of(Edit::Copy)[1].key == Key::Letter('C'),
        chord_of(Edit::Cut)[1].key == Key::Letter('X'),
        chord_of(Edit::Copy)[0].key == Key::Control && chord_of(Edit::Cut)[0].key == Key::Control,
        chord_of(Edit::Copy)[0].down && chord_of(Edit::Cut)[0].down,
{
}

} // verus!
