//! The fixed catalog of piece shapes, and the state of every spawned
//! piece over a session.
//!
//! Every player receives one copy of each catalog shape at game start. A
//! shape is an ordered list of hex offsets anchored so that its first
//! cell is the origin; the host translates and rotates these offsets
//! while the piece is dragged.
//!
//! Each spawned piece is `Free`, `Dragging` or `Placed`. At most one
//! piece is dragging at a time, and only a free piece of the current
//! player may be picked up; the host asks the store before reacting to
//! a pointer press, and reports back how a drag ended.

use vstd::prelude::*;
use crate::hex::Hex;

verus! {

/// How many shapes the catalog holds.
pub open spec fn catalog_len() -> int {
    11
}

/// The offsets of catalog shape `i`, anchored at the origin.
pub open spec fn spec_piece_blocks(i: int) -> Seq<Hex> {
    if i == 0 {
        seq![
            Hex { q: 0, r: 0 }, Hex { q: 0, r: 1 }, Hex { q: 0, r: 2 }, Hex { q: 0, r: 3 },
            Hex { q: 0, r: 4 },
        ]
    } else if i == 1 {
        seq![Hex { q: 0, r: 0 }, Hex { q: 0, r: 1 }, Hex { q: 0, r: 2 }, Hex { q: 0, r: 3 }]
    } else if i == 2 {
        seq![Hex { q: 0, r: 0 }, Hex { q: 0, r: 1 }, Hex { q: 1, r: 1 }, Hex { q: 1, r: 2 }]
    } else if i == 3 {
        seq![Hex { q: 0, r: 0 }, Hex { q: 1, r: -1i32 }, Hex { q: 1, r: 0 }, Hex { q: 2, r: -1i32 }]
    } else if i == 4 {
        seq![Hex { q: 0, r: 0 }, Hex { q: 1, r: -1i32 }, Hex { q: 2, r: -1i32 }, Hex { q: 2, r: 0 }]
    } else if i == 5 {
        seq![Hex { q: 0, r: 0 }, Hex { q: 0, r: 1 }, Hex { q: 1, r: 1 }, Hex { q: -1i32, r: 2 }]
    } else if i == 6 {
        seq![Hex { q: 0, r: 0 }, Hex { q: 1, r: 0 }, Hex { q: 0, r: 1 }]
    } else if i == 7 {
        seq![Hex { q: 0, r: 0 }, Hex { q: 0, r: 1 }, Hex { q: -1i32, r: 2 }]
    } else if i == 8 {
        seq![Hex { q: 0, r: 0 }, Hex { q: 0, r: 1 }, Hex { q: 0, r: 2 }]
    } else if i == 9 {
        seq![Hex { q: 0, r: 0 }, Hex { q: 1, r: -1i32 }]
    } else {
        seq![Hex { q: 0, r: 0 }]
    }
}

/// One shape of the catalog, by index.
pub fn piece_blocks(i: usize) -> (blocks: Vec<Hex>)
    requires
        i < catalog_len(),
    ensures
        blocks@ == spec_piece_blocks(i as int),
        blocks@.len() >= 1,
        blocks@[0] == (Hex { q: 0, r: 0 }),
{
    let mut v: Vec<Hex> = Vec::new();
    v.push(Hex { q: 0, r: 0 });
    match i {
        0 => {
            v.push(Hex { q: 0, r: 1 });
            v.push(Hex { q: 0, r: 2 });
            v.push(Hex { q: 0, r: 3 });
            v.push(Hex { q: 0, r: 4 });
        },
        1 => {
            v.push(Hex { q: 0, r: 1 });
            v.push(Hex { q: 0, r: 2 });
            v.push(Hex { q: 0, r: 3 });
        },
        2 => {
            v.push(Hex { q: 0, r: 1 });
            v.push(Hex { q: 1, r: 1 });
            v.push(Hex { q: 1, r: 2 });
        },
        3 => {
            v.push(Hex { q: 1, r: -1 });
            v.push(Hex { q: 1, r: 0 });
            v.push(Hex { q: 2, r: -1 });
        },
        4 => {
            v.push(Hex { q: 1, r: -1 });
            v.push(Hex { q: 2, r: -1 });
            v.push(Hex { q: 2, r: 0 });
        },
        5 => {
            v.push(Hex { q: 0, r: 1 });
            v.push(Hex { q: 1, r: 1 });
            v.push(Hex { q: -1, r: 2 });
        },
        6 => {
            v.push(Hex { q: 1, r: 0 });
            v.push(Hex { q: 0, r: 1 });
        },
        7 => {
            v.push(Hex { q: 0, r: 1 });
            v.push(Hex { q: -1, r: 2 });
        },
        8 => {
            v.push(Hex { q: 0, r: 1 });
            v.push(Hex { q: 0, r: 2 });
        },
        9 => {
            v.push(Hex { q: 1, r: -1 });
        },
        _ => {},
    }
    proof {
        assert(v@ =~= spec_piece_blocks(i as int));
    }
    v
}

/// The whole catalog, in order: one five-cell shape, five four-cell
/// shapes, three three-cell shapes, one two-cell shape and one single
/// cell.
pub fn piece_catalog() -> (catalog: Vec<Vec<Hex>>)
    ensures
        catalog@.len() == catalog_len(),
        forall|i: int| 0 <= i < catalog_len() ==> #[trigger] catalog@[i]@ == spec_piece_blocks(i),
{
    let mut catalog: Vec<Vec<Hex>> = Vec::new();
    let mut i: usize = 0;
    while i < 11
        invariant
            i <= 11,
            catalog@.len() == i,
            forall|j: int| 0 <= j < i ==> #[trigger] catalog@[j]@ == spec_piece_blocks(j),
        decreases 11 - i,
    {
        catalog.push(piece_blocks(i));
        i = i + 1;
    }
    catalog
}

/// Where a spawned piece stands in its lifecycle.
#[derive(Clone, Copy, PartialEq, Eq, Structural, Debug)]
pub enum PieceState {
    /// In the player's stock, available for pickup.
    Free,
    /// Currently selected and following the pointer.
    Dragging,
    /// Committed to the board; its cells are occupied.
    Placed,
}

/// One spawned piece: its owner, which catalog shape it is, how many
/// blocks it has, and where it stands in its lifecycle.
#[derive(Clone, Copy, PartialEq, Eq, Structural, Debug)]
pub struct Piece {
    /// The player the piece belongs to.
    pub owner: usize,
    /// The catalog shape index.
    pub shape: usize,
    /// The number of blocks of the shape.
    pub size: usize,
    /// Whether the piece is free, dragging or placed.
    pub state: PieceState,
}

/// How many piece sets a game spawns: one per player, except that a
/// two-player game uses the four-corner board and spawns all four sets.
pub open spec fn spec_set_count(player_count: int) -> int {
    if player_count == 2 {
        4
    } else {
        player_count
    }
}

/// The still-unplaced pieces owned by players `< player_count`, oldest
/// first, as `(owner, size)` pairs — the input shape of the winner
/// stats.
pub open spec fn spec_remaining(ps: Seq<Piece>, player_count: usize) -> Seq<(usize, usize)>
    decreases ps.len(),
{
    if ps.len() == 0 {
        Seq::empty()
    } else {
        let rest = spec_remaining(ps.drop_last(), player_count);
        let last = ps.last();
        if last.state != PieceState::Placed && last.owner < player_count {
            rest.push((last.owner, last.size))
        } else {
            rest
        }
    }
}

/// Every spawned piece of a session, with the single selection.
pub struct PieceSet {
    /// All spawned pieces, grouped by owner in spawn order.
    pub pieces: Vec<Piece>,
    /// The index of the piece currently dragging, if any.
    pub selected: Option<usize>,
}

impl PieceSet {
    /// The store is well formed: the selection, when present, names an
    /// existing piece, and a piece is dragging exactly when it is the
    /// selected one.
    pub open spec fn wf(self) -> bool {
        &&& match self.selected {
            Some(i) => i < self.pieces@.len() && self.pieces@[i as int].state
                == PieceState::Dragging,
            None => true,
        }
        &&& forall|j: int| 0 <= j < self.pieces@.len()
            && (#[trigger] self.pieces@[j]).state == PieceState::Dragging
            ==> (self.selected is Some && self.selected->0 == j)
    }

    /// Spawns the piece sets for a game: one full catalog per set, all
    /// free, nothing selected.
    pub fn spawn_all(player_count: usize) -> (s: PieceSet)
        requires
            2 <= player_count <= 6,
        ensures
            s.wf(),
            s.selected is None,
            s.pieces@.len() == spec_set_count(player_count as int) * 11,
            forall|j: int| 0 <= j < s.pieces@.len() ==> {
                let p = #[trigger] s.pieces@[j];
                &&& p.owner == j / 11
                &&& p.shape == j % 11
                &&& p.size == spec_piece_blocks(j % 11).len()
                &&& p.state == PieceState::Free
            },
    {
        let set_count: usize = if player_count == 2 {
            4
        } else {
            player_count
        };
        let mut pieces: Vec<Piece> = Vec::new();
        let mut owner: usize = 0;
        while owner < set_count
            invariant
                owner <= set_count,
                set_count <= 6,
                set_count == spec_set_count(player_count as int),
                pieces@.len() == owner * 11,
                forall|j: int| 0 <= j < pieces@.len() ==> {
                    let p = #[trigger] pieces@[j];
                    &&& p.owner == j / 11
                    &&& p.shape == j % 11
                    &&& p.size == spec_piece_blocks(j % 11).len()
                    &&& p.state == PieceState::Free
                },
            decreases set_count - owner,
        {
            let mut shape: usize = 0;
            while shape < 11
                invariant
                    owner < set_count <= 6,
                    shape <= 11,
                    pieces@.len() == owner * 11 + shape,
                    forall|j: int| 0 <= j < pieces@.len() ==> {
                        let p = #[trigger] pieces@[j];
                        &&& p.owner == j / 11
                        &&& p.shape == j % 11
                        &&& p.size == spec_piece_blocks(j % 11).len()
                        &&& p.state == PieceState::Free
                    },
                decreases 11 - shape,
            {
                let blocks = piece_blocks(shape);
                pieces.push(
                    Piece { owner, shape, size: blocks.len(), state: PieceState::Free },
                );
                proof {
                    let j = owner * 11 + shape;
                    assert(j / 11 == owner && j % 11 == shape) by (nonlinear_arith)
                        requires j == owner * 11 + shape && 0 <= shape < 11 && owner >= 0;
                }
                shape = shape + 1;
            }
            owner = owner + 1;
        }
        PieceSet { pieces, selected: None }
    }

    /// Attempts to pick up piece `i` for `current_player`. The pickup
    /// succeeds only when nothing is dragging yet and the piece is a
    /// free piece of that player; the piece then starts dragging.
    pub fn pickup_piece(&mut self, i: usize, current_player: usize) -> (ok: bool)
        requires
            old(self).wf(),
        ensures
            final(self).wf(),
            ok == (old(self).selected is None && i < old(self).pieces@.len()
                && old(self).pieces@[i as int].state == PieceState::Free
                && old(self).pieces@[i as int].owner == current_player),
            ok ==> {
                &&& final(self).selected == Some(i)
                &&& final(self).pieces@ == old(self).pieces@.update(
                    i as int,
                    Piece { state: PieceState::Dragging, ..old(self).pieces@[i as int] },
                )
            },
            !ok ==> *final(self) == *old(self),
    {
        if self.selected.is_some() || i >= self.pieces.len() {
            return false;
        }
        let p = self.pieces[i];
        if !(matches!(p.state, PieceState::Free) && p.owner == current_player) {
            return false;
        }
        self.pieces.set(i, Piece { state: PieceState::Dragging, ..p });
        self.selected = Some(i);
        true
    }

    /// Ends the current drag: a committed piece becomes placed and
    /// leaves the game; otherwise the piece returns to the player's
    /// stock.
    pub fn release_piece(&mut self, committed: bool)
        requires
            old(self).wf(),
            old(self).selected is Some,
        ensures
            final(self).wf(),
            final(self).selected is None,
            final(self).pieces@ == old(self).pieces@.update(
                old(self).selected->0 as int,
                Piece {
                    state: if committed { PieceState::Placed } else { PieceState::Free },
                    ..old(self).pieces@[old(self).selected->0 as int]
                },
            ),
    {
        let i = self.selected.unwrap();
        let p = self.pieces[i];
        let state = if committed {
            PieceState::Placed
        } else {
            PieceState::Free
        };
        self.pieces.set(i, Piece { state, ..p });
        self.selected = None;
        proof {
            assert forall|j: int| 0 <= j < self.pieces@.len()
                && (#[trigger] self.pieces@[j]).state == PieceState::Dragging implies false by {
                assert(j != i);
                assert(self.pieces@[j] == old(self).pieces@[j]);
                assert(old(self).selected->0 == j);
            }
        }
    }

    /// The still-unplaced pieces of the ranked players, as
    /// `(owner, size)` pairs ready for the winner stats.
    pub fn remaining_pieces(&self, player_count: usize) -> (out: Vec<(usize, usize)>)
        ensures
            out@ == spec_remaining(self.pieces@, player_count),
    {
        let ghost ps = self.pieces@;
        let n = self.pieces.len();
        let mut out: Vec<(usize, usize)> = Vec::new();
        let mut i: usize = 0;
        while i < n
            invariant
                ps == self.pieces@,
                n == ps.len(),
                i <= n,
                out@ == spec_remaining(ps.take(i as int), player_count),
            decreases n - i,
        {
            proof {
                assert(ps.take(i + 1).drop_last() =~= ps.take(i as int));
                assert(ps.take(i + 1).last() == ps[i as int]);
            }
            let p = self.pieces[i];
            if !matches!(p.state, PieceState::Placed) && p.owner < player_count {
                out.push((p.owner, p.size));
            }
            i = i + 1;
        }
        proof {
            assert(ps.take(n as int) =~= ps);
        }
        out
    }
}

} // verus!
