//! Mutable game state: board occupancy, turn rotation, pass counting
//! and the terminal winner.
//!
//! The host drives the session: it hands placement attempts to
//! [`Game::place_piece`], reports explicit passes through
//! [`Game::pass_turn`], and — once every player has passed in a row —
//! assembles the remaining-piece stats and calls [`Game::finish`].

use vstd::prelude::*;
use crate::board::{Board, Cell};
use crate::hex::Hex;
use crate::rules::{PutPieceAction, action_when_piece_placed, spec_action, commit_overlay,
    lemma_covers_take_step};
use crate::topology::{build_board, full_board_map};
use crate::winner::{PlayerStats, WinnerResult, detect_winner, spec_detect_winner};

verus! {

/// One game session: the board, the cyclic current player, the count of
/// consecutive passes, and the winner once determined.
pub struct Game {
    /// Cell occupancy for every existing hex.
    pub board: Board,
    /// How many players take part; between two and six.
    pub player_count: usize,
    /// Whose turn it is; always below `player_count`.
    pub current_player: usize,
    /// The winning player's index, set at game end; `None` while the
    /// game runs, and on a draw or an undecided outcome.
    pub winner_player: Option<usize>,
    /// How many players passed in a row since the last placement.
    pub pass_turn_count: usize,
}

impl Game {
    /// The session is well formed: a supported player count, and the
    /// turn always with one of the players.
    pub open spec fn wf(self) -> bool {
        2 <= self.player_count <= 6 && self.current_player < self.player_count
    }

    /// Starts a session: builds the board for the player count, gives
    /// the turn to player zero, and clears the pass counter.
    pub fn new(player_count: usize) -> (g: Game)
        requires
            2 <= player_count <= 6,
        ensures
            g.wf(),
            g.board@ == full_board_map(player_count as int),
            g.player_count == player_count,
            g.current_player == 0,
            g.winner_player is None,
            g.pass_turn_count == 0,
    {
        Game {
            board: build_board(player_count),
            player_count,
            current_player: 0,
            winner_player: None,
            pass_turn_count: 0,
        }
    }

    /// Attempts to place a piece covering `piece_blocks` for the
    /// current player. A legal placement claims every covered cell,
    /// resets the pass counter and advances the turn; a rejected or
    /// off-board attempt changes nothing.
    pub fn place_piece(&mut self, piece_blocks: &Vec<Hex>) -> (a: PutPieceAction)
        requires
            old(self).wf(),
        ensures
            final(self).wf(),
            a == spec_action(old(self).board@, piece_blocks@, old(self).current_player),
            a == PutPieceAction::PutOnBoard ==> {
                &&& final(self).board@ == old(self).board@.union_prefer_right(
                    commit_overlay(piece_blocks@, old(self).current_player),
                )
                &&& final(self).current_player
                    == (old(self).current_player + 1) % (old(self).player_count as int)
                &&& final(self).pass_turn_count == 0
                &&& final(self).player_count == old(self).player_count
                &&& final(self).winner_player == old(self).winner_player
            },
            a != PutPieceAction::PutOnBoard ==> *final(self) == *old(self),
    {
        let ghost s = piece_blocks@;
        let action = action_when_piece_placed(&self.board, piece_blocks, self.current_player);
        if let PutPieceAction::PutOnBoard = action {
            let ghost prev = self.board@;
            let current = self.current_player;
            let n = piece_blocks.len();
            let mut i: usize = 0;
            while i < n
                invariant
                    s == piece_blocks@,
                    n == s.len(),
                    i <= n,
                    self.player_count == old(self).player_count,
                    self.current_player == old(self).current_player,
                    self.winner_player == old(self).winner_player,
                    self.pass_turn_count == old(self).pass_turn_count,
                    current == self.current_player,
                    self.board@ =~= prev.union_prefer_right(
                        commit_overlay(s.take(i as int), current),
                    ),
                decreases n - i,
            {
                self.board.insert(piece_blocks[i], Cell::Player(current));
                proof {
                    lemma_covers_take_step(s, i as int);
                    assert(self.board@ =~= prev.union_prefer_right(
                        commit_overlay(s.take(i + 1), current),
                    ));
                }
                i = i + 1;
            }
            proof {
                assert(s.take(n as int) =~= s);
                assert(self.board@ =~= prev.union_prefer_right(commit_overlay(s, current)));
            }
            self.pass_turn_count = 0;
            self.current_player = (self.current_player + 1) % self.player_count;
        }
        action
    }

    /// The current player passes: the turn advances and the consecutive
    /// pass counter grows. Returns whether every player has now passed
    /// in a row, which ends the game.
    pub fn pass_turn(&mut self) -> (ended: bool)
        requires
            old(self).wf(),
            old(self).pass_turn_count < usize::MAX,
        ensures
            final(self).wf(),
            final(self).current_player
                == (old(self).current_player + 1) % (old(self).player_count as int),
            final(self).pass_turn_count == old(self).pass_turn_count + 1,
            ended == (old(self).pass_turn_count + 1 >= old(self).player_count),
            final(self).board == old(self).board,
            final(self).player_count == old(self).player_count,
            final(self).winner_player == old(self).winner_player,
    {
        self.current_player = (self.current_player + 1) % self.player_count;
        self.pass_turn_count = self.pass_turn_count + 1;
        self.pass_turn_count >= self.player_count
    }

    /// Ends the game: ranks the given stats entries and records the
    /// winner — `None` on a draw or an undecided tie.
    pub fn finish(&mut self, stats: Vec<PlayerStats>) -> (w: WinnerResult)
        ensures
            w == spec_detect_winner(stats@),
            final(self).winner_player == (match w {
                WinnerResult::Winner(i) => Some(i),
                WinnerResult::Draw => None::<usize>,
                WinnerResult::Undecided => None::<usize>,
            }),
            final(self).board == old(self).board,
            final(self).player_count == old(self).player_count,
            final(self).current_player == old(self).current_player,
            final(self).pass_turn_count == old(self).pass_turn_count,
    {
        let w = detect_winner(stats);
        self.winner_player = match w {
            WinnerResult::Winner(i) => Some(i),
            _ => None,
        };
        w
    }
}

} // verus!
