use hexboard::board::{Board, Cell};
use hexboard::hex::Hex;

#[test]
fn empty_board_has_no_cells() {
    let b = Board::new();
    assert_eq!(b.get(&Hex { q: 0, r: 0 }), None);
    assert_eq!(b.get(&Hex { q: -5, r: 12 }), None);
}

#[test]
fn insert_then_get_returns_the_cell() {
    let mut b = Board::new();
    b.insert(Hex { q: 2, r: -3 }, Cell::Empty);
    b.insert(Hex { q: -2, r: 3 }, Cell::Player(4));
    assert_eq!(b.get(&Hex { q: 2, r: -3 }), Some(Cell::Empty));
    assert_eq!(b.get(&Hex { q: -2, r: 3 }), Some(Cell::Player(4)));
    assert_eq!(b.get(&Hex { q: 3, r: -2 }), None);
}

#[test]
fn insert_overwrites_an_existing_cell() {
    let mut b = Board::new();
    let h = Hex { q: 0, r: 0 };
    b.insert(h, Cell::Empty);
    b.insert(h, Cell::Player(1));
    assert_eq!(b.get(&h), Some(Cell::Player(1)));
}

#[test]
fn nearby_coordinates_do_not_collide() {
    let mut b = Board::new();
    b.insert(Hex { q: 1, r: 0 }, Cell::Player(0));
    b.insert(Hex { q: 0, r: 1 }, Cell::Player(1));
    b.insert(Hex { q: -1, r: 0 }, Cell::Player(2));
    b.insert(Hex { q: 0, r: -1 }, Cell::Player(3));
    assert_eq!(b.get(&Hex { q: 1, r: 0 }), Some(Cell::Player(0)));
    assert_eq!(b.get(&Hex { q: 0, r: 1 }), Some(Cell::Player(1)));
    assert_eq!(b.get(&Hex { q: -1, r: 0 }), Some(Cell::Player(2)));
    assert_eq!(b.get(&Hex { q: 0, r: -1 }), Some(Cell::Player(3)));
}

#[test]
fn get_at_handles_coordinates_outside_i32() {
    let mut b = Board::new();
    b.insert(Hex { q: 7, r: 7 }, Cell::PlayerStart(0));
    assert_eq!(b.get_at(7, 7), Some(Cell::PlayerStart(0)));
    assert_eq!(b.get_at(i64::MAX, 0), None);
    assert_eq!(b.get_at(0, i64::MIN), None);
}
