use repos::list::FuzzyList;
use repos::session::{handle_key, Key, Outcome};

#[test]
fn arrow_keys_move_selection() {
    let mut list = FuzzyList::with_items(vec!["p0", "p1", "p2"]);
    assert_eq!(handle_key(&mut list, Key::Down), Outcome::Moved);
    assert_eq!(list.selected(), Some(0));
    assert_eq!(handle_key(&mut list, Key::Right), Outcome::Moved);
    assert_eq!(list.selected(), Some(1));
    assert_eq!(handle_key(&mut list, Key::Up), Outcome::Moved);
    assert_eq!(list.selected(), Some(0));
    assert_eq!(handle_key(&mut list, Key::Left), Outcome::Moved);
    assert_eq!(list.selected(), Some(2));
}

#[test]
fn other_keys_leave_selection() {
    let mut list = FuzzyList::with_items(vec!["p0", "p1"]);
    handle_key(&mut list, Key::Down);
    assert_eq!(handle_key(&mut list, Key::Other), Outcome::Unhandled);
    assert_eq!(list.selected(), Some(0));
    assert_eq!(handle_key(&mut list, Key::Quit), Outcome::Quit);
    assert_eq!(list.selected(), Some(0));
}

#[test]
fn arrow_keys_on_empty_list() {
    let mut list: FuzzyList<u8> = FuzzyList::with_items(Vec::new());
    assert_eq!(handle_key(&mut list, Key::Down), Outcome::Moved);
    assert_eq!(handle_key(&mut list, Key::Up), Outcome::Moved);
    assert_eq!(list.selected(), None);
}
