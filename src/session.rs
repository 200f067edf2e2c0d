use vstd::prelude::*;
use crate::list::{FuzzyList, next_cursor, previous_cursor};

verus! {

/// A key press, as the session distinguishes them.
#[derive(Debug, Clone, Copy, PartialEq, Eq, Structural)]
pub enum Key {
    Up,
    Down,
    Left,
    Right,
    /// A request to end the session (Esc, or an interrupt typed at the keyboard).
    Quit,
    /// Any other key.
    Other,
}

/// What the session loop does after a key press.
#[derive(Debug, Clone, Copy, PartialEq, Eq, Structural)]
pub enum Outcome {
    /// The selection was moved; draw again and wait for the next key.
    Moved,
    /// The key has no meaning here; note it and wait for the next key.
    Unhandled,
    /// Leave the session, restoring the terminal.
    Quit,
}

/// Applies one key press to the list: down and right select the next item,
/// up and left the previous one; other keys leave the list as it is.
pub fn handle_key<T>(list: &mut FuzzyList<T>, key: Key) -> (r: Outcome)
    ensures
        final(list).elements() == old(list).elements(),
        final(list).filter_text() == old(list).filter_text(),
        (key == Key::Down || key == Key::Right) ==> r == Outcome::Moved && final(list).cursor()
            == next_cursor(old(list).cursor(), old(list).elements().len()),
        (key == Key::Up || key == Key::Left) ==> r == Outcome::Moved && final(list).cursor()
            == previous_cursor(old(list).cursor(), old(list).elements().len()),
        key == Key::Quit ==> r == Outcome::Quit && final(list).cursor() == old(list).cursor(),
        key == Key::Other ==> r == Outcome::Unhandled && final(list).cursor() == old(
            list,
        ).cursor(),
{
    match key {
        Key::Down | Key::Right => {
            list.next();
            Outcome::Moved
        },
        Key::Up | Key::Left => {
            list.previous();
            Outcome::Moved
        },
        Key::Quit => Outcome::Quit,
        Key::Other => Outcome::Unhandled,
    }
}

} // verus!
