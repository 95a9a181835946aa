//! The game board: a finite mapping from hex coordinates to cell states.
//!
//! A hex absent from the mapping is off the board — nonexistent, which is
//! distinct from a `Disabled` cell that exists but is excluded from play.
//! The mapping is keyed by the coordinate pair packed into one integer;
//! its mathematical model is a `Map<(int, int), Cell>`.

use vstd::prelude::*;
use crate::hex::Hex;

verus! {

broadcast use vstd::std_specs::hash::group_hash_axioms;

/// The state of one board hex.
#[derive(Clone, Copy, PartialEq, Eq, Structural, Debug)]
pub enum Cell {
    /// Unoccupied and playable.
    Empty,
    /// Exists in the coordinate space but is excluded from play.
    Disabled,
    /// Permanently claimed by the given player.
    Player(usize),
    /// Unoccupied; the given player may place their first piece here
    /// without the adjacency rules applying.
    PlayerStart(usize),
}

/// The coordinate pair `(q, r)` packed into a single non-negative key,
/// injectively over the full `i32` range of both components.
pub open spec fn pack_key(q: int, r: int) -> int {
    (q + 0x8000_0000) * 0x1_0000_0000 + (r + 0x8000_0000)
}

/// The cell at `(q, r)` in a board model, or `None` where the board has
/// no entry at all.
pub open spec fn cell_at(m: Map<(int, int), Cell>, q: int, r: int) -> Option<Cell> {
    if m.dom().contains((q, r)) {
        Some(m[(q, r)])
    } else {
        None
    }
}

/// Packing two in-range coordinate pairs to the same key forces the
/// pairs to be equal.
proof fn lemma_pack_key_injective(q1: int, r1: int, q2: int, r2: int)
    requires
        i32::MIN <= q1 <= i32::MAX,
        i32::MIN <= r1 <= i32::MAX,
        i32::MIN <= q2 <= i32::MAX,
        i32::MIN <= r2 <= i32::MAX,
        pack_key(q1, r1) == pack_key(q2, r2),
    ensures
        q1 == q2 && r1 == r2,
{
    assert(q1 == q2 && r1 == r2) by (nonlinear_arith)
        requires
            0 <= q1 + 0x8000_0000 < 0x1_0000_0000,
            0 <= r1 + 0x8000_0000 < 0x1_0000_0000,
            0 <= q2 + 0x8000_0000 < 0x1_0000_0000,
            0 <= r2 + 0x8000_0000 < 0x1_0000_0000,
            (q1 + 0x8000_0000) * 0x1_0000_0000 + (r1 + 0x8000_0000)
                == (q2 + 0x8000_0000) * 0x1_0000_0000 + (r2 + 0x8000_0000),
    ;
}

/// Packs a hex coordinate into its map key.
fn pack_hex(h: &Hex) -> (k: u64)
    ensures
        k == pack_key(h.q as int, h.r as int),
{
    let a = (h.q as i64 + 0x8000_0000) as u64;
    let b = (h.r as i64 + 0x8000_0000) as u64;
    proof {
        assert(a * 0x1_0000_0000 <= 0xffff_ffff_0000_0000) by (nonlinear_arith)
            requires a <= 0xffff_ffff;
    }
    a * 0x1_0000_0000 + b
}

/// A board: occupancy states for every existing hex of the play area.
pub struct Board {
    map: std::collections::HashMap<u64, Cell>,
}

impl View for Board {
    type V = Map<(int, int), Cell>;

    closed spec fn view(&self) -> Map<(int, int), Cell> {
        Map::new(
            |p: (int, int)|
                i32::MIN <= p.0 <= i32::MAX && i32::MIN <= p.1 <= i32::MAX
                    && self.map@.dom().contains(pack_key(p.0, p.1) as u64),
            |p: (int, int)| self.map@[pack_key(p.0, p.1) as u64],
        )
    }
}

impl Board {
    /// An empty board with no existing hex at all.
    pub fn new() -> (b: Board)
        ensures
            b@ == Map::<(int, int), Cell>::empty(),
    {
        let b = Board { map: std::collections::HashMap::new() };
        proof {
            assert(b@ =~= Map::<(int, int), Cell>::empty());
        }
        b
    }

    /// The cell at `h`, or `None` where the board has no entry.
    pub fn get(&self, h: &Hex) -> (c: Option<Cell>)
        ensures
            c == cell_at(self@, h.q as int, h.r as int),
    {
        let k = pack_hex(h);
        let r = match self.map.get(&k) {
            Some(c) => Some(*c),
            None => None,
        };
        proof {
            let p = (h.q as int, h.r as int);
            if self.map@.dom().contains(k) {
                assert(self@.dom().contains(p));
            }
        }
        r
    }

    /// The cell at `(q, r)`, or `None` where the board has no entry;
    /// coordinates outside the `i32` range never have an entry.
    pub fn get_at(&self, q: i64, r: i64) -> (c: Option<Cell>)
        ensures
            c == cell_at(self@, q as int, r as int),
    {
        if q < i32::MIN as i64 || q > i32::MAX as i64
            || r < i32::MIN as i64 || r > i32::MAX as i64 {
            None
        } else {
            self.get(&Hex { q: q as i32, r: r as i32 })
        }
    }

    /// Sets the cell at `h`, adding the entry if it did not exist.
    pub fn insert(&mut self, h: Hex, c: Cell)
        ensures
            final(self)@ == old(self)@.insert((h.q as int, h.r as int), c),
    {
        let k = pack_hex(&h);
        let ghost old_map = self@;
        self.map.insert(k, c);
        proof {
            let p = (h.q as int, h.r as int);
            assert forall|x: (int, int)|
                #![trigger self@.dom().contains(x)]
                #![trigger old_map.insert(p, c).dom().contains(x)]
                i32::MIN <= x.0 <= i32::MAX && i32::MIN <= x.1 <= i32::MAX implies
                (pack_key(x.0, x.1) == pack_key(p.0, p.1)) == (x == p) by {
                if pack_key(x.0, x.1) == pack_key(p.0, p.1) {
                    lemma_pack_key_injective(x.0, x.1, p.0, p.1);
                }
            }
            assert(self@ =~= old_map.insert(p, c));
        }
    }
}

} // verus!
