use hexboard::board::{Board, Cell};
use hexboard::hex::Hex;
use hexboard::rules::{
    action_when_piece_placed, is_hex_belong_to_player, is_hexes_belong_to_different_players,
    piece_can_be_placed_on_board, PutPieceAction,
};
use hexboard::topology::build_board;

fn hexes(coords: &[(i32, i32)]) -> Vec<Hex> {
    coords.iter().map(|&(q, r)| Hex { q, r }).collect()
}

#[test]
fn placement_entirely_off_board_is_outside() {
    let b = build_board(6);
    let piece = hexes(&[(100, 100), (100, 101), (101, 100)]);
    assert_eq!(action_when_piece_placed(&b, &piece, 0), PutPieceAction::PutOutsideBoard);
}

#[test]
fn first_move_on_own_start_zone_is_legal() {
    let b = build_board(6);
    let piece = hexes(&[(7, 7), (7, 6)]);
    assert!(piece_can_be_placed_on_board(&b, &piece, 0));
    assert_eq!(action_when_piece_placed(&b, &piece, 0), PutPieceAction::PutOnBoard);
    // The same cells are not legal for another player: not their start
    // zone, and no piece of theirs on the board yet to touch corners.
    assert!(!piece_can_be_placed_on_board(&b, &piece, 1));
}

#[test]
fn start_zone_is_legal_regardless_of_neighbors() {
    let mut b = build_board(6);
    // Surround player 0's start zone with opposing pieces.
    b.insert(Hex { q: 7, r: 8 }, Cell::Player(1));
    b.insert(Hex { q: 8, r: 7 }, Cell::Player(2));
    b.insert(Hex { q: 6, r: 7 }, Cell::Player(3));
    let piece = hexes(&[(7, 7)]);
    assert!(piece_can_be_placed_on_board(&b, &piece, 0));
}

#[test]
fn partially_off_board_placement_is_rejected() {
    let b = build_board(6);
    assert_eq!(
        action_when_piece_placed(&b, &hexes(&[(0, 0), (100, 100)]), 0),
        PutPieceAction::ReturnToOrigin,
    );
    assert_eq!(
        action_when_piece_placed(&b, &hexes(&[(100, 100), (0, 0)]), 0),
        PutPieceAction::ReturnToOrigin,
    );
}

#[test]
fn occupied_and_disabled_cells_reject_placement() {
    let mut b = build_board(6);
    b.insert(Hex { q: 0, r: 0 }, Cell::Player(1));
    assert!(!piece_can_be_placed_on_board(&b, &hexes(&[(0, 0)]), 0));
    assert!(!piece_can_be_placed_on_board(&b, &hexes(&[(0, 0)]), 1));

    let b3 = build_board(3);
    // (1, 10) exists on the three-player board but is disabled.
    assert!(!piece_can_be_placed_on_board(&b3, &hexes(&[(1, 10)]), 0));
}

#[test]
fn edge_adjacency_to_own_piece_rejects_placement() {
    let mut b = build_board(6);
    b.insert(Hex { q: 0, r: 0 }, Cell::Player(0));
    // (0, 1) shares an edge with the player's own cell.
    assert!(!piece_can_be_placed_on_board(&b, &hexes(&[(0, 1)]), 0));
    // Even when a diagonal touch would otherwise make it legal: (1, 1)
    // touches (0, 0) diagonally, but (1, 0) shares an edge with it.
    assert!(!piece_can_be_placed_on_board(&b, &hexes(&[(1, 1), (1, 0)]), 0));
    // Another player is not restricted by it (diagonal touch needed
    // for them elsewhere, so give them one at (3, 0), a diagonal
    // neighbour of (1, 1)).
    b.insert(Hex { q: 3, r: 0 }, Cell::Player(1));
    assert!(piece_can_be_placed_on_board(&b, &hexes(&[(1, 1)]), 1));
}

#[test]
fn diagonal_touch_makes_placement_legal() {
    let mut b = build_board(6);
    b.insert(Hex { q: 0, r: 0 }, Cell::Player(0));
    // (1, 1) touches (0, 0) only diagonally: legal.
    assert!(piece_can_be_placed_on_board(&b, &hexes(&[(1, 1)]), 0));
    assert_eq!(action_when_piece_placed(&b, &hexes(&[(1, 1)]), 0), PutPieceAction::PutOnBoard);
    // Without any touch at all: rejected.
    assert!(!piece_can_be_placed_on_board(&b, &hexes(&[(3, 3)]), 0));
}

#[test]
fn screened_diagonal_touch_is_rejected() {
    let mut b = build_board(6);
    b.insert(Hex { q: 0, r: 0 }, Cell::Player(0));
    // The two cells flanking the diagonal between (0, 0) and (1, 1)
    // both belong to one identical other player: the touch is screened.
    b.insert(Hex { q: 1, r: 0 }, Cell::Player(1));
    b.insert(Hex { q: 0, r: 1 }, Cell::Player(1));
    assert!(!piece_can_be_placed_on_board(&b, &hexes(&[(1, 1)]), 0));
}

#[test]
fn flanks_held_by_different_players_do_not_screen() {
    let mut b = build_board(6);
    b.insert(Hex { q: 0, r: 0 }, Cell::Player(0));
    b.insert(Hex { q: 1, r: 0 }, Cell::Player(1));
    b.insert(Hex { q: 0, r: 1 }, Cell::Player(2));
    assert!(piece_can_be_placed_on_board(&b, &hexes(&[(1, 1)]), 0));
}

#[test]
fn foreign_start_zone_does_not_block_a_placement() {
    let mut b = build_board(6);
    // Give player 0 a diagonal touch next to player 1's start zone at
    // (-7, 14): the piece may cover the foreign start zone.
    b.insert(Hex { q: -6, r: 15 }, Cell::Player(0));
    assert!(piece_can_be_placed_on_board(&b, &hexes(&[(-7, 14)]), 0));
}

#[test]
fn own_start_zone_short_circuits_before_later_cells() {
    let b = build_board(6);
    // The walk stops as soon as it sees the player's own start zone;
    // a later off-board cell is never examined.
    let piece = hexes(&[(7, 7), (100, 100)]);
    assert_eq!(action_when_piece_placed(&b, &piece, 0), PutPieceAction::PutOnBoard);
}

#[test]
fn adjacency_is_symmetric_through_the_edge_rule() {
    // For every direct-neighbour offset: if placing at b is barred
    // because the player occupies a, then placing at a is barred when
    // the player occupies b.
    let offsets = [(0, 1), (1, 0), (0, -1), (-1, 0), (1, -1), (-1, 1)];
    let a = (0, 0);
    for &(dq, dr) in offsets.iter() {
        let b = (a.0 + dq, a.1 + dr);

        let mut board = build_board(6);
        board.insert(Hex { q: a.0, r: a.1 }, Cell::Player(0));
        assert!(!piece_can_be_placed_on_board(&board, &hexes(&[b]), 0));

        let mut board = build_board(6);
        board.insert(Hex { q: b.0, r: b.1 }, Cell::Player(0));
        assert!(!piece_can_be_placed_on_board(&board, &hexes(&[a]), 0));
    }
}

#[test]
fn an_empty_piece_counts_as_outside_the_board() {
    let b = build_board(6);
    let empty: Vec<Hex> = Vec::new();
    assert_eq!(action_when_piece_placed(&b, &empty, 0), PutPieceAction::PutOutsideBoard);
}

#[test]
fn cell_ownership_helpers() {
    let mut b = Board::new();
    b.insert(Hex { q: 0, r: 0 }, Cell::Player(2));
    b.insert(Hex { q: 1, r: 0 }, Cell::Player(2));
    b.insert(Hex { q: 2, r: 0 }, Cell::Player(3));
    b.insert(Hex { q: 3, r: 0 }, Cell::Empty);
    assert!(is_hex_belong_to_player(&b, Hex { q: 0, r: 0 }, 2));
    assert!(!is_hex_belong_to_player(&b, Hex { q: 0, r: 0 }, 3));
    assert!(!is_hex_belong_to_player(&b, Hex { q: 9, r: 9 }, 2));

    // Both held by one identical player: not "different".
    assert!(!is_hexes_belong_to_different_players(&b, Hex { q: 0, r: 0 }, Hex { q: 1, r: 0 }));
    // Held by two different players.
    assert!(is_hexes_belong_to_different_players(&b, Hex { q: 1, r: 0 }, Hex { q: 2, r: 0 }));
    // An empty or absent cell counts as differing.
    assert!(is_hexes_belong_to_different_players(&b, Hex { q: 0, r: 0 }, Hex { q: 3, r: 0 }));
    assert!(is_hexes_belong_to_different_players(&b, Hex { q: 0, r: 0 }, Hex { q: 9, r: 9 }));
}
