use hexboard::winner::{detect_winner, players_stats, PlayerStats, WinnerResult};

fn stat(index: usize, blocks: usize, largest_piece: usize) -> PlayerStats {
    PlayerStats { index, blocks, largest_piece }
}

#[test]
fn tie_break_falls_to_smallest_largest_piece() {
    // A and B tie on minimum blocks; B's largest remaining piece is
    // smaller, so B wins.
    let stats = vec![stat(0, 3, 5), stat(1, 3, 4), stat(2, 5, 2)];
    assert_eq!(detect_winner(stats), WinnerResult::Winner(1));
}

#[test]
fn empty_stats_list_is_a_draw_not_undecided() {
    let result = detect_winner(Vec::new());
    assert_eq!(result, WinnerResult::Draw);
    assert_ne!(result, WinnerResult::Undecided);
}

#[test]
fn unique_minimum_blocks_wins_outright() {
    let stats = vec![stat(0, 10, 1), stat(1, 2, 5), stat(2, 10, 1)];
    assert_eq!(detect_winner(stats), WinnerResult::Winner(1));
}

#[test]
fn full_tie_is_undecided() {
    let stats = vec![stat(0, 3, 4), stat(1, 3, 4)];
    assert_eq!(detect_winner(stats), WinnerResult::Undecided);
}

#[test]
fn single_entry_wins() {
    let stats = vec![stat(4, 37, 5)];
    assert_eq!(detect_winner(stats), WinnerResult::Winner(4));
}

#[test]
fn order_of_entries_does_not_change_the_winner() {
    let a = vec![stat(2, 5, 2), stat(1, 3, 4), stat(0, 3, 5)];
    assert_eq!(detect_winner(a), WinnerResult::Winner(1));
}

#[test]
fn players_stats_sums_blocks_and_takes_largest() {
    // Player 0 holds a 5-piece and a 3-piece; player 1 holds a 4-piece.
    let pieces = vec![(0, 5), (0, 3), (1, 4)];
    let stats = players_stats(3, &pieces);
    assert_eq!(stats.len(), 2);
    assert_eq!(stats[0], stat(0, 8, 5));
    assert_eq!(stats[1], stat(1, 4, 4));
}

#[test]
fn players_without_pieces_get_no_entry() {
    let pieces = vec![(2, 1)];
    let stats = players_stats(6, &pieces);
    assert_eq!(stats.len(), 1);
    assert_eq!(stats[0], stat(2, 1, 1));

    let none: Vec<(usize, usize)> = Vec::new();
    assert_eq!(players_stats(6, &none).len(), 0);
}

#[test]
fn stats_then_winner_end_to_end() {
    // Player 0 placed everything but a single cell; player 1 kept a
    // large piece. Player 0 wins on fewest blocks.
    let pieces = vec![(0, 1), (1, 5), (1, 2)];
    let stats = players_stats(2, &pieces);
    assert_eq!(detect_winner(stats), WinnerResult::Winner(0));
}
