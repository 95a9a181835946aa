use hexboard::board::Cell;
use hexboard::hex::Hex;
use hexboard::topology::build_board;

fn cell(board: &hexboard::board::Board, q: i32, r: i32) -> Option<Cell> {
    board.get(&Hex { q, r })
}

#[test]
fn six_player_board_layout() {
    let b = build_board(6);
    assert_eq!(cell(&b, 0, 0), Some(Cell::Empty));
    assert_eq!(cell(&b, 1, 10), Some(Cell::Empty));
    assert_eq!(cell(&b, 10, 1), Some(Cell::Empty));
    assert_eq!(cell(&b, 0, -8), Some(Cell::Empty));
    assert_eq!(cell(&b, 7, 7), Some(Cell::PlayerStart(0)));
    assert_eq!(cell(&b, -7, 14), Some(Cell::PlayerStart(1)));
    assert_eq!(cell(&b, -14, 7), Some(Cell::PlayerStart(2)));
    assert_eq!(cell(&b, -7, -7), Some(Cell::PlayerStart(3)));
    assert_eq!(cell(&b, 7, -14), Some(Cell::PlayerStart(4)));
    assert_eq!(cell(&b, 14, -7), Some(Cell::PlayerStart(5)));
    assert_eq!(cell(&b, 100, 100), None);
    assert_eq!(cell(&b, 20, 20), None);
}

#[test]
fn five_player_board_matches_six_player_layout() {
    let b5 = build_board(5);
    let b6 = build_board(6);
    for q in -20..=20 {
        for r in -20..=20 {
            assert_eq!(cell(&b5, q, r), cell(&b6, q, r));
        }
    }
}

#[test]
fn three_player_board_layout() {
    let b = build_board(3);
    assert_eq!(cell(&b, 0, 0), Some(Cell::Empty));
    assert_eq!(cell(&b, 1, 7), Some(Cell::Empty));
    assert_eq!(cell(&b, 5, 5), Some(Cell::PlayerStart(0)));
    assert_eq!(cell(&b, -10, 5), Some(Cell::PlayerStart(1)));
    assert_eq!(cell(&b, 5, -10), Some(Cell::PlayerStart(2)));
    // Part of the full space but outside the reduced sectors: present
    // yet disabled, preserving coordinate stability.
    assert_eq!(cell(&b, 10, 1), Some(Cell::Disabled));
    assert_eq!(cell(&b, 1, 10), Some(Cell::Disabled));
    assert_eq!(cell(&b, 100, 100), None);
}

#[test]
fn four_player_board_layout() {
    let b = build_board(4);
    assert_eq!(cell(&b, 0, 0), Some(Cell::Empty));
    assert_eq!(cell(&b, 0, -7), Some(Cell::Empty));
    assert_eq!(cell(&b, 0, -8), Some(Cell::Disabled));
    assert_eq!(cell(&b, 1, 10), Some(Cell::Disabled));
    assert_eq!(cell(&b, 9, 3), Some(Cell::PlayerStart(0)));
    assert_eq!(cell(&b, -9, 12), Some(Cell::PlayerStart(1)));
    assert_eq!(cell(&b, -9, -3), Some(Cell::PlayerStart(2)));
    assert_eq!(cell(&b, 9, -12), Some(Cell::PlayerStart(3)));
    assert_eq!(cell(&b, 100, 100), None);
}

#[test]
fn two_player_board_matches_four_player_layout() {
    let b2 = build_board(2);
    let b4 = build_board(4);
    for q in -20..=20 {
        for r in -20..=20 {
            assert_eq!(cell(&b2, q, r), cell(&b4, q, r));
        }
    }
}
