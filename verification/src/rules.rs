//! The placement legality engine.
//!
//! A placement attempt is the list of board hexes a piece currently
//! covers plus the acting player. It is classified as exactly one of:
//! off-board (every cell maps to no board entry), accepted, or rejected.
//!
//! The legality test walks the piece's cells in order. A cell on the
//! acting player's own start zone makes the whole placement legal at
//! once; a cell that is occupied, disabled or off the board makes it
//! illegal at once; a cell with a direct neighbour occupied by the acting
//! player makes it illegal at once. If the walk finishes, the placement
//! is legal only if some cell touches a diagonal neighbour occupied by
//! the acting player whose two flanking cells are not both held by one
//! identical player.

use vstd::prelude::*;
use crate::board::{Board, Cell, cell_at};
use crate::hex::Hex;

verus! {

/// What happens to a piece when the player releases it.
#[derive(Clone, Copy, PartialEq, Eq, Structural, Debug)]
pub enum PutPieceAction {
    /// The placement is legal: the piece is committed to the board.
    PutOnBoard,
    /// The placement is illegal: the piece returns to where it was
    /// picked up.
    ReturnToOrigin,
    /// Every cell of the piece is off the board: the piece stays in
    /// free space.
    PutOutsideBoard,
}

/// The six direct (edge-sharing) neighbour offsets of a hex.
pub open spec fn neighbor_offset(i: int) -> (int, int) {
    if i == 0 {
        (0, 1)
    } else if i == 1 {
        (1, 0)
    } else if i == 2 {
        (0, -1)
    } else if i == 3 {
        (-1, 0)
    } else if i == 4 {
        (1, -1)
    } else {
        (-1, 1)
    }
}

/// The six diagonal (corner-sharing) neighbour offsets of a hex, each
/// with the two direct-neighbour offsets that flank the diagonal.
pub open spec fn diagonal_offset(i: int) -> ((int, int), (int, int), (int, int)) {
    if i == 0 {
        ((1, 1), (1, 0), (0, 1))
    } else if i == 1 {
        ((-1, 2), (0, 1), (-1, 1))
    } else if i == 2 {
        ((-2, 1), (-1, 1), (-1, 0))
    } else if i == 3 {
        ((-1, -1), (-1, 0), (0, -1))
    } else if i == 4 {
        ((1, -2), (0, -1), (1, -1))
    } else {
        ((2, -1), (1, -1), (1, 0))
    }
}

/// The board has the cell `(q, r)` and it is occupied by `player`.
pub open spec fn is_player_cell(m: Map<(int, int), Cell>, q: int, r: int, player: usize) -> bool {
    cell_at(m, q, r) == Some(Cell::Player(player))
}

/// The two cells are both occupied by one identical player.
pub open spec fn same_single_player(m: Map<(int, int), Cell>, aq: int, ar: int, bq: int, br: int) -> bool {
    match (cell_at(m, aq, ar), cell_at(m, bq, br)) {
        (Some(Cell::Player(i)), Some(Cell::Player(j))) => i == j,
        _ => false,
    }
}

/// The cell under `h` is the acting player's own start zone.
pub open spec fn own_start(m: Map<(int, int), Cell>, h: Hex, player: usize) -> bool {
    cell_at(m, h.q as int, h.r as int) == Some(Cell::PlayerStart(player))
}

/// The cell under `h` cannot be built on: occupied by anyone, disabled,
/// or no board entry at all.
pub open spec fn blocked_cell(m: Map<(int, int), Cell>, h: Hex) -> bool {
    match cell_at(m, h.q as int, h.r as int) {
        Some(Cell::Player(_)) => true,
        Some(Cell::Disabled) => true,
        None => true,
        _ => false,
    }
}

/// Some direct neighbour of `h` is occupied by the acting player.
pub open spec fn has_own_neighbor(m: Map<(int, int), Cell>, h: Hex, player: usize) -> bool {
    exists|i: int|
        0 <= i < 6 && #[trigger] is_player_cell(
            m,
            h.q + neighbor_offset(i).0,
            h.r + neighbor_offset(i).1,
            player,
        )
}

/// The diagonal neighbour `i` of `h` is occupied by the acting player,
/// and the touch is not screened: the two flanking cells are not both
/// occupied by one identical player.
pub open spec fn corner_touch_at(m: Map<(int, int), Cell>, h: Hex, player: usize, i: int) -> bool {
    let (d, f1, f2) = diagonal_offset(i);
    is_player_cell(m, h.q + d.0, h.r + d.1, player)
        && !same_single_player(m, h.q + f1.0, h.r + f1.1, h.q + f2.0, h.r + f2.1)
}

/// Some diagonal neighbour of `h` gives an unscreened corner touch.
pub open spec fn has_corner_touch(m: Map<(int, int), Cell>, h: Hex, player: usize) -> bool {
    exists|i: int| 0 <= i < 6 && #[trigger] corner_touch_at(m, h, player, i)
}

/// Some cell of the piece has an unscreened corner touch with the acting
/// player's pieces.
pub open spec fn any_corner_touch(m: Map<(int, int), Cell>, s: Seq<Hex>, player: usize) -> bool {
    exists|j: int| 0 <= j < s.len() && #[trigger] has_corner_touch(m, s[j], player)
}

/// The legality walk from cell `i` on: the short-circuit evaluation of
/// the placement rules over the remaining cells of the piece.
pub open spec fn scan_place(m: Map<(int, int), Cell>, s: Seq<Hex>, player: usize, i: int) -> bool
    decreases s.len() - i,
{
    if i < 0 || i >= s.len() {
        any_corner_touch(m, s, player)
    } else if own_start(m, s[i], player) {
        true
    } else if blocked_cell(m, s[i]) {
        false
    } else if has_own_neighbor(m, s[i], player) {
        false
    } else {
        scan_place(m, s, player, i + 1)
    }
}

/// The piece may be placed: the legality walk over all its cells.
pub open spec fn spec_can_place(m: Map<(int, int), Cell>, s: Seq<Hex>, player: usize) -> bool {
    scan_place(m, s, player, 0)
}

/// Every cell of the piece maps to no board entry at all.
pub open spec fn all_off_board(m: Map<(int, int), Cell>, s: Seq<Hex>) -> bool {
    forall|j: int| 0 <= j < s.len() ==> #[trigger] cell_at(m, s[j].q as int, s[j].r as int) is None
}

/// The classification of a placement attempt.
pub open spec fn spec_action(m: Map<(int, int), Cell>, s: Seq<Hex>, player: usize) -> PutPieceAction {
    if all_off_board(m, s) {
        PutPieceAction::PutOutsideBoard
    } else if spec_can_place(m, s, player) {
        PutPieceAction::PutOnBoard
    } else {
        PutPieceAction::ReturnToOrigin
    }
}

/// The direct-neighbour offset of index `i`, as machine integers.
fn neighbor_delta(i: usize) -> (d: (i32, i32))
    requires
        i < 6,
    ensures
        (d.0 as int, d.1 as int) == neighbor_offset(i as int),
{
    match i {
        0 => (0, 1),
        1 => (1, 0),
        2 => (0, -1),
        3 => (-1, 0),
        4 => (1, -1),
        _ => (-1, 1),
    }
}

/// The diagonal triple of index `i`, as machine integers: the diagonal
/// offset and its two flanking direct offsets.
fn diagonal_delta(i: usize) -> (d: ((i32, i32), (i32, i32), (i32, i32)))
    requires
        i < 6,
    ensures
        ((d.0.0 as int, d.0.1 as int), (d.1.0 as int, d.1.1 as int), (d.2.0 as int, d.2.1 as int))
            == diagonal_offset(i as int),
{
    match i {
        0 => ((1, 1), (1, 0), (0, 1)),
        1 => ((-1, 2), (0, 1), (-1, 1)),
        2 => ((-2, 1), (-1, 1), (-1, 0)),
        3 => ((-1, -1), (-1, 0), (0, -1)),
        4 => ((1, -2), (0, -1), (1, -1)),
        _ => ((2, -1), (1, -1), (1, 0)),
    }
}

/// Whether the board cell under `hex` is occupied by `player_index`.
pub fn is_hex_belong_to_player(board: &Board, hex: Hex, player_index: usize) -> (r: bool)
    ensures
        r == is_player_cell(board@, hex.q as int, hex.r as int, player_index),
{
    match board.get(&hex) {
        Some(Cell::Player(i)) => i == player_index,
        _ => false,
    }
}

/// Whether the two cells are *not* both occupied by one identical
/// player; cells that are empty, disabled, start zones or off the board
/// count as differing.
pub fn is_hexes_belong_to_different_players(board: &Board, hex1: Hex, hex2: Hex) -> (r: bool)
    ensures
        r == !same_single_player(board@, hex1.q as int, hex1.r as int, hex2.q as int, hex2.r as int),
{
    match (board.get(&hex1), board.get(&hex2)) {
        (Some(Cell::Player(i)), Some(Cell::Player(j))) => i != j,
        _ => true,
    }
}

/// Whether some direct neighbour of `h` is occupied by `player`.
fn check_own_neighbor(board: &Board, h: &Hex, player: usize) -> (r: bool)
    ensures
        r == has_own_neighbor(board@, *h, player),
{
    let mut k: usize = 0;
    while k < 6
        invariant
            k <= 6,
            forall|i: int| 0 <= i < k ==> !#[trigger] is_player_cell(
                board@,
                h.q + neighbor_offset(i).0,
                h.r + neighbor_offset(i).1,
                player,
            ),
        decreases 6 - k,
    {
        let d = neighbor_delta(k);
        let c = board.get_at(h.q as i64 + d.0 as i64, h.r as i64 + d.1 as i64);
        match c {
            Some(Cell::Player(i)) => {
                if i == player {
                    assert(is_player_cell(
                        board@,
                        h.q + neighbor_offset(k as int).0,
                        h.r + neighbor_offset(k as int).1,
                        player,
                    ));
                    return true;
                }
            },
            _ => {},
        }
        k = k + 1;
    }
    false
}

/// Whether some diagonal neighbour of `h` gives `player` an unscreened
/// corner touch.
fn check_corner_touch(board: &Board, h: &Hex, player: usize) -> (r: bool)
    ensures
        r == has_corner_touch(board@, *h, player),
{
    let mut k: usize = 0;
    while k < 6
        invariant
            k <= 6,
            forall|i: int| 0 <= i < k ==> !#[trigger] corner_touch_at(board@, *h, player, i),
        decreases 6 - k,
    {
        let (diag, near1, near2) = diagonal_delta(k);
        let dc = board.get_at(h.q as i64 + diag.0 as i64, h.r as i64 + diag.1 as i64);
        let is_own_diag = match dc {
            Some(Cell::Player(i)) => i == player,
            _ => false,
        };
        if is_own_diag {
            let f1 = board.get_at(h.q as i64 + near1.0 as i64, h.r as i64 + near1.1 as i64);
            let f2 = board.get_at(h.q as i64 + near2.0 as i64, h.r as i64 + near2.1 as i64);
            let screened = match (f1, f2) {
                (Some(Cell::Player(i)), Some(Cell::Player(j))) => i == j,
                _ => false,
            };
            if !screened {
                assert(corner_touch_at(board@, *h, player, k as int));
                return true;
            }
        }
        k = k + 1;
    }
    false
}

/// Whether the piece, currently covering `piece_blocks`, may legally be
/// placed by `current_player` under the start-zone, occupancy, edge and
/// corner rules.
pub fn piece_can_be_placed_on_board(board: &Board, piece_blocks: &Vec<Hex>, current_player: usize) -> (r: bool)
    ensures
        r == spec_can_place(board@, piece_blocks@, current_player),
{
    let ghost m = board@;
    let ghost s = piece_blocks@;
    let n = piece_blocks.len();
    let mut i: usize = 0;
    while i < n
        invariant
            n == s.len(),
            s == piece_blocks@,
            m == board@,
            i <= n,
            spec_can_place(m, s, current_player) == scan_place(m, s, current_player, i as int),
        decreases n - i,
    {
        let h = piece_blocks[i];
        match board.get(&h) {
            Some(Cell::PlayerStart(idx)) => {
                if idx == current_player {
                    assert(own_start(m, s[i as int], current_player));
                    return true;
                }
            },
            Some(Cell::Player(_)) | Some(Cell::Disabled) | None => {
                assert(blocked_cell(m, s[i as int]));
                return false;
            },
            _ => {},
        }
        assert(!own_start(m, s[i as int], current_player) && !blocked_cell(m, s[i as int]));
        if check_own_neighbor(board, &h, current_player) {
            return false;
        }
        i = i + 1;
    }
    let mut j: usize = 0;
    while j < n
        invariant
            n == s.len(),
            s == piece_blocks@,
            m == board@,
            j <= n,
            spec_can_place(m, s, current_player) == any_corner_touch(m, s, current_player),
            forall|t: int| 0 <= t < j ==> !#[trigger] has_corner_touch(m, s[t], current_player),
        decreases n - j,
    {
        let h = piece_blocks[j];
        if check_corner_touch(board, &h, current_player) {
            return true;
        }
        j = j + 1;
    }
    false
}

/// Classifies a placement attempt: off the board entirely, legal, or to
/// be rejected.
pub fn action_when_piece_placed(board: &Board, piece_blocks: &Vec<Hex>, current_player: usize) -> (a: PutPieceAction)
    ensures
        a == spec_action(board@, piece_blocks@, current_player),
{
    let ghost m = board@;
    let ghost s = piece_blocks@;
    let n = piece_blocks.len();
    let mut outside = true;
    let mut i: usize = 0;
    while i < n
        invariant
            n == s.len(),
            s == piece_blocks@,
            m == board@,
            i <= n,
            outside == forall|j: int|
                0 <= j < i ==> #[trigger] cell_at(m, s[j].q as int, s[j].r as int) is None,
        decreases n - i,
    {
        let h = piece_blocks[i];
        if board.get(&h).is_some() {
            outside = false;
            proof {
                assert(!(cell_at(m, s[i as int].q as int, s[i as int].r as int) is None));
            }
        }
        i = i + 1;
    }
    if outside {
        PutPieceAction::PutOutsideBoard
    } else if piece_can_be_placed_on_board(board, piece_blocks, current_player) {
        PutPieceAction::PutOnBoard
    } else {
        PutPieceAction::ReturnToOrigin
    }
}

/// Some cell of the piece covers the position `p`.
pub open spec fn covers(s: Seq<Hex>, p: (int, int)) -> bool {
    exists|j: int| 0 <= j < s.len() && p == (#[trigger] s[j]).spec_pair()
}

/// The positions covered by the piece, all claimed by `player`.
pub open spec fn commit_overlay(s: Seq<Hex>, player: usize) -> Map<(int, int), Cell> {
    Map::new(|p: (int, int)| covers(s, p), |p: (int, int)| Cell::Player(player))
}

/// Extending a piece prefix by one cell extends the covered positions
/// by exactly that cell's position.
pub proof fn lemma_covers_take_step(s: Seq<Hex>, i: int)
    requires
        0 <= i < s.len(),
    ensures
        forall|p: (int, int)|
            #[trigger] covers(s.take(i + 1), p) == (covers(s.take(i), p) || p == s[i].spec_pair()),
{
    assert forall|p: (int, int)|
        #[trigger] covers(s.take(i + 1), p) == (covers(s.take(i), p) || p == s[i].spec_pair()) by {
        if covers(s.take(i + 1), p) {
            let j = choose|j: int| 0 <= j < s.take(i + 1).len() && p == (#[trigger] s.take(i + 1)[j]).spec_pair();
            if j < i {
                assert(s.take(i)[j] == s.take(i + 1)[j]);
                assert(covers(s.take(i), p));
            } else {
                assert(p == s[i].spec_pair());
            }
        }
        if covers(s.take(i), p) {
            let j = choose|j: int| 0 <= j < s.take(i).len() && p == (#[trigger] s.take(i)[j]).spec_pair();
            assert(s.take(i + 1)[j] == s.take(i)[j]);
            assert(covers(s.take(i + 1), p));
        }
        if p == s[i].spec_pair() {
            assert(s.take(i + 1)[i] == s[i]);
            assert(covers(s.take(i + 1), p));
        }
    }
}

/// `b` sits at the direct-neighbour offset `i` from `a`.
pub open spec fn neighbor_via(a: (int, int), b: (int, int), i: int) -> bool {
    b.0 == a.0 + neighbor_offset(i).0 && b.1 == a.1 + neighbor_offset(i).1
}

/// `b` is one of the six direct neighbours of `a`.
pub open spec fn is_direct_neighbor(a: (int, int), b: (int, int)) -> bool {
    exists|i: int| 0 <= i < 6 && #[trigger] neighbor_via(a, b, i)
}

/// The edge rule's neighbour test speaks of exactly the direct-neighbour
/// relation: a hex has an own direct neighbour precisely when some
/// direct neighbour of it is occupied by the player.
pub proof fn lemma_own_neighbor_characterization(m: Map<(int, int), Cell>, h: Hex, player: usize)
    ensures
        has_own_neighbor(m, h, player) <==> exists|b: (int, int)|
            is_direct_neighbor(h.spec_pair(), b) && #[trigger] is_player_cell(m, b.0, b.1, player),
{
    if has_own_neighbor(m, h, player) {
        let i = choose|i: int|
            0 <= i < 6 && #[trigger] is_player_cell(
                m,
                h.q + neighbor_offset(i).0,
                h.r + neighbor_offset(i).1,
                player,
            );
        let b = (h.q + neighbor_offset(i).0, h.r + neighbor_offset(i).1);
        assert(neighbor_via(h.spec_pair(), b, i));
        assert(is_player_cell(m, b.0, b.1, player));
    }
    if exists|b: (int, int)|
        is_direct_neighbor(h.spec_pair(), b) && #[trigger] is_player_cell(m, b.0, b.1, player) {
        let b = choose|b: (int, int)|
            is_direct_neighbor(h.spec_pair(), b) && #[trigger] is_player_cell(m, b.0, b.1, player);
        let i = choose|i: int| 0 <= i < 6 && #[trigger] neighbor_via(h.spec_pair(), b, i);
        assert(is_player_cell(m, h.q + neighbor_offset(i).0, h.r + neighbor_offset(i).1, player));
    }
}

/// Adjacency is symmetric: if `b` is a direct neighbour of `a`, then `a`
/// is a direct neighbour of `b`.
pub proof fn lemma_neighbor_symmetry(a: (int, int), b: (int, int))
    requires
        is_direct_neighbor(a, b),
    ensures
        is_direct_neighbor(b, a),
{
    let i = choose|i: int| 0 <= i < 6 && #[trigger] neighbor_via(a, b, i);
    if i == 0 {
        assert(neighbor_via(b, a, 2));
    } else if i == 1 {
        assert(neighbor_via(b, a, 3));
    } else if i == 2 {
        assert(neighbor_via(b, a, 0));
    } else if i == 3 {
        assert(neighbor_via(b, a, 1));
    } else if i == 4 {
        assert(neighbor_via(b, a, 5));
    } else {
        assert(neighbor_via(b, a, 4));
    }
}

/// When no cell from `i` on triggers an early exit of the legality walk
/// (no own start zone, no blocked cell, no own direct neighbour), the
/// walk from `i` reduces to the corner test.
proof fn lemma_scan_no_shortcut(m: Map<(int, int), Cell>, s: Seq<Hex>, player: usize, i: int)
    requires
        0 <= i <= s.len(),
        forall|k: int| i <= k < s.len() ==> !own_start(m, #[trigger] s[k], player),
        forall|k: int| i <= k < s.len() ==> !blocked_cell(m, #[trigger] s[k]),
        forall|k: int| i <= k < s.len() ==> !has_own_neighbor(m, #[trigger] s[k], player),
    ensures
        scan_place(m, s, player, i) == any_corner_touch(m, s, player),
    decreases s.len() - i,
{
    if i < s.len() {
        lemma_scan_no_shortcut(m, s, player, i + 1);
    }
}

/// When no cell from `i` on triggers an early rejection (no blocked
/// cell, no own direct neighbour) and some cell of the piece has an
/// unscreened corner touch, the walk from `i` accepts.
proof fn lemma_scan_accepts(m: Map<(int, int), Cell>, s: Seq<Hex>, player: usize, i: int)
    requires
        0 <= i <= s.len(),
        forall|k: int| i <= k < s.len() ==> !blocked_cell(m, #[trigger] s[k]),
        forall|k: int| i <= k < s.len() ==> !has_own_neighbor(m, #[trigger] s[k], player),
        any_corner_touch(m, s, player),
    ensures
        scan_place(m, s, player, i),
    decreases s.len() - i,
{
    if i < s.len() && !own_start(m, s[i], player) {
        lemma_scan_accepts(m, s, player, i + 1);
    }
}

/// Start-zone exemption: on the acting player's first move (no board
/// cell is occupied by them yet), a piece with some cell on their own
/// start zone — and no occupied, disabled or off-board cell before it in
/// the walk — is always legal, whatever the neighbour states are.
pub proof fn lemma_start_zone_exemption(m: Map<(int, int), Cell>, s: Seq<Hex>, player: usize, j: int)
    requires
        0 <= j < s.len(),
        own_start(m, s[j], player),
        forall|k: int| 0 <= k < j ==> !blocked_cell(m, #[trigger] s[k]),
        forall|q: int, r: int| #[trigger] cell_at(m, q, r) != Some(Cell::Player(player)),
    ensures
        spec_can_place(m, s, player),
        spec_action(m, s, player) == PutPieceAction::PutOnBoard,
{
    lemma_scan_reaches_start(m, s, player, j, 0);
    assert(cell_at(m, s[j].q as int, s[j].r as int) is Some);
    assert(!all_off_board(m, s));
}

/// The walk from any index up to a start-zone cell accepts, when no
/// cell before the start zone is blocked and the player occupies no
/// board cell at all.
proof fn lemma_scan_reaches_start(m: Map<(int, int), Cell>, s: Seq<Hex>, player: usize, j: int, i: int)
    requires
        0 <= i <= j < s.len(),
        own_start(m, s[j], player),
        forall|k: int| 0 <= k < j ==> !blocked_cell(m, #[trigger] s[k]),
        forall|q: int, r: int| #[trigger] cell_at(m, q, r) != Some(Cell::Player(player)),
    ensures
        scan_place(m, s, player, i),
    decreases j - i,
{
    if !own_start(m, s[i], player) {
        assert(!blocked_cell(m, s[i]));
        assert(!has_own_neighbor(m, s[i], player)) by {
            assert forall|t: int| 0 <= t < 6 implies !is_player_cell(
                m,
                s[i].q + neighbor_offset(t).0,
                s[i].r + neighbor_offset(t).1,
                player,
            ) by {
                assert(cell_at(m, s[i].q + neighbor_offset(t).0, s[i].r + neighbor_offset(t).1)
                    != Some(Cell::Player(player)));
            }
        }
        lemma_scan_reaches_start(m, s, player, j, i + 1);
    }
}

/// Edge rule: a piece with some cell directly adjacent to a cell already
/// occupied by the acting player is never legal, provided no cell up to
/// that point lies on the player's own start zone.
pub proof fn lemma_edge_rule(m: Map<(int, int), Cell>, s: Seq<Hex>, player: usize, j: int)
    requires
        0 <= j < s.len(),
        has_own_neighbor(m, s[j], player),
        forall|k: int| 0 <= k <= j ==> !own_start(m, #[trigger] s[k], player),
    ensures
        !spec_can_place(m, s, player),
{
    lemma_scan_rejects(m, s, player, j, 0);
}

/// The walk from any index up to a cell with an own direct neighbour
/// rejects, when no cell up to that point is an own start zone.
proof fn lemma_scan_rejects(m: Map<(int, int), Cell>, s: Seq<Hex>, player: usize, j: int, i: int)
    requires
        0 <= i <= j < s.len(),
        has_own_neighbor(m, s[j], player),
        forall|k: int| 0 <= k <= j ==> !own_start(m, #[trigger] s[k], player),
    ensures
        !scan_place(m, s, player, i),
    decreases j - i,
{
    if !blocked_cell(m, s[i]) && !has_own_neighbor(m, s[i], player) {
        assert(i < j);
        lemma_scan_rejects(m, s, player, j, i + 1);
    }
}

/// Corner rule, accepting direction: a piece whose cells are all
/// playable, with no edge adjacency to the acting player's own cells,
/// and with at least one unscreened diagonal touch to them, is legal.
pub proof fn lemma_corner_rule(m: Map<(int, int), Cell>, s: Seq<Hex>, player: usize, j: int)
    requires
        0 <= j < s.len(),
        has_corner_touch(m, s[j], player),
        forall|k: int| 0 <= k < s.len() ==> !blocked_cell(m, #[trigger] s[k]),
        forall|k: int| 0 <= k < s.len() ==> !has_own_neighbor(m, #[trigger] s[k], player),
    ensures
        spec_can_place(m, s, player),
        spec_action(m, s, player) == PutPieceAction::PutOnBoard,
{
    assert(any_corner_touch(m, s, player));
    lemma_scan_accepts(m, s, player, 0);
    assert(!blocked_cell(m, s[j]));
    assert(!all_off_board(m, s)) by {
        assert(!(cell_at(m, s[j].q as int, s[j].r as int) is None));
    }
}

/// Corner rule, rejecting direction: a piece whose cells are all
/// playable, off the acting player's start zone, with no edge adjacency
/// to their cells and no unscreened diagonal touch to them either, is
/// not legal.
pub proof fn lemma_corner_rule_rejects(m: Map<(int, int), Cell>, s: Seq<Hex>, player: usize)
    requires
        forall|k: int| 0 <= k < s.len() ==> !own_start(m, #[trigger] s[k], player),
        forall|k: int| 0 <= k < s.len() ==> !blocked_cell(m, #[trigger] s[k]),
        forall|k: int| 0 <= k < s.len() ==> !has_own_neighbor(m, #[trigger] s[k], player),
        !any_corner_touch(m, s, player),
    ensures
        !spec_can_place(m, s, player),
{
    lemma_scan_no_shortcut(m, s, player, 0);
}

} // verus!
