use hexboard::board::Cell;
use hexboard::game::Game;
use hexboard::hex::Hex;
use hexboard::pieces::piece_catalog;
use hexboard::rules::PutPieceAction;
use hexboard::winner::{players_stats, WinnerResult};

fn hexes(coords: &[(i32, i32)]) -> Vec<Hex> {
    coords.iter().map(|&(q, r)| Hex { q, r }).collect()
}

#[test]
fn new_game_starts_with_player_zero() {
    let g = Game::new(6);
    assert_eq!(g.player_count, 6);
    assert_eq!(g.current_player, 0);
    assert_eq!(g.pass_turn_count, 0);
    assert_eq!(g.winner_player, None);
    assert_eq!(g.board.get(&Hex { q: 7, r: 7 }), Some(Cell::PlayerStart(0)));
}

#[test]
fn off_board_attempt_changes_nothing_and_start_zone_commits() {
    let mut g = Game::new(6);

    // Entirely outside the board: no state change at all.
    let outside = hexes(&[(100, 100), (100, 101)]);
    assert_eq!(g.place_piece(&outside), PutPieceAction::PutOutsideBoard);
    assert_eq!(g.current_player, 0);
    assert_eq!(g.board.get(&Hex { q: 100, r: 100 }), None);
    assert_eq!(g.board.get(&Hex { q: 7, r: 7 }), Some(Cell::PlayerStart(0)));

    // Onto the player's start cell: committed, cells claimed, turn
    // advances.
    let first = hexes(&[(7, 7), (7, 6)]);
    assert_eq!(g.place_piece(&first), PutPieceAction::PutOnBoard);
    assert_eq!(g.board.get(&Hex { q: 7, r: 7 }), Some(Cell::Player(0)));
    assert_eq!(g.board.get(&Hex { q: 7, r: 6 }), Some(Cell::Player(0)));
    assert_eq!(g.current_player, 1);
}

#[test]
fn rejected_attempt_reverts_and_keeps_the_turn() {
    let mut g = Game::new(6);
    // Player 0 may not start in the open field: no start zone, no
    // corner touch.
    let piece = hexes(&[(0, 0)]);
    assert_eq!(g.place_piece(&piece), PutPieceAction::ReturnToOrigin);
    assert_eq!(g.current_player, 0);
    assert_eq!(g.board.get(&Hex { q: 0, r: 0 }), Some(Cell::Empty));
}

#[test]
fn placement_resets_the_pass_counter() {
    let mut g = Game::new(6);
    assert!(!g.pass_turn());
    assert!(!g.pass_turn());
    assert_eq!(g.pass_turn_count, 2);
    assert_eq!(g.current_player, 2);

    let first = hexes(&[(-14, 7)]);
    assert_eq!(g.place_piece(&first), PutPieceAction::PutOnBoard);
    assert_eq!(g.pass_turn_count, 0);
    assert_eq!(g.current_player, 3);
}

#[test]
fn all_players_passing_in_a_row_ends_the_game() {
    let mut g = Game::new(2);
    assert!(!g.pass_turn());
    assert!(g.pass_turn());
    assert_eq!(g.current_player, 0);

    // Player 0 kept fewer blocks: they win.
    let pieces = vec![(0, 2), (1, 4), (1, 1)];
    let stats = players_stats(2, &pieces);
    assert_eq!(g.finish(stats), WinnerResult::Winner(0));
    assert_eq!(g.winner_player, Some(0));
}

#[test]
fn draw_and_undecided_leave_no_winner() {
    let mut g = Game::new(2);
    assert_eq!(g.finish(Vec::new()), WinnerResult::Draw);
    assert_eq!(g.winner_player, None);

    let pieces = vec![(0, 3), (1, 3)];
    let stats = players_stats(2, &pieces);
    assert_eq!(g.finish(stats), WinnerResult::Undecided);
    assert_eq!(g.winner_player, None);
}

#[test]
fn catalog_shapes_are_anchored_and_sized() {
    let catalog = piece_catalog();
    assert_eq!(catalog.len(), 11);
    let sizes: Vec<usize> = catalog.iter().map(|p| p.len()).collect();
    assert_eq!(sizes, vec![5, 4, 4, 4, 4, 4, 3, 3, 3, 2, 1]);
    for piece in catalog.iter() {
        assert_eq!(piece[0], Hex { q: 0, r: 0 });
    }
    let total: usize = sizes.iter().sum();
    assert_eq!(total, 37);
}

#[test]
fn full_first_round_on_a_six_player_board() {
    let mut g = Game::new(6);
    // Each player opens on their own start zone.
    let starts = [(7, 7), (-7, 14), (-14, 7), (-7, -7), (7, -14), (14, -7)];
    for (i, &(q, r)) in starts.iter().enumerate() {
        assert_eq!(g.current_player, i);
        assert_eq!(g.place_piece(&hexes(&[(q, r)])), PutPieceAction::PutOnBoard);
        assert_eq!(g.board.get(&Hex { q, r }), Some(Cell::Player(i)));
    }
    assert_eq!(g.current_player, 0);
}
