//! Board topology construction.
//!
//! The full coordinate space is the origin plus six 60-degree-rotated
//! copies of a triangular sector, given by a fixed row-length table
//! indexed along the q axis. The superset geometry (used by five and six
//! players) is first laid down entirely, as `Disabled` cells; the
//! per-player-count setup then re-enables a subset and places start
//! zones. Keeping unused regions as `Disabled` — rather than absent —
//! preserves coordinate stability across configurations.

use vstd::prelude::*;
use crate::board::{Board, Cell};
use crate::hex::{Hex, Rotation, rot_ccw_n, rot_cw_n, rot_cw, rot_ccw, rot_steps, spec_rotate,
    lemma_rotate_as_steps};

verus! {

/// Row length of the full triangular sector at column `q`: the number
/// of cells along the r axis. Zero outside the sector's columns.
pub open spec fn sector_len(q: int) -> int {
    if q == 1 {
        11
    } else if q == 2 || q == 3 {
        10
    } else if q == 4 || q == 5 {
        9
    } else if q == 6 || q == 7 {
        8
    } else if q == 8 {
        6
    } else if q == 9 {
        4
    } else if q == 10 {
        2
    } else {
        0
    }
}

/// Row length of the reduced sector (three-player board) at column `q`.
pub open spec fn small_sector_len(q: int) -> int {
    if q == 1 {
        8
    } else if q == 2 || q == 3 {
        7
    } else if q == 4 || q == 5 {
        6
    } else if q == 6 {
        4
    } else if q == 7 {
        2
    } else {
        0
    }
}

/// Row length of the full sector, as a machine integer.
fn sector_len_at(q: i32) -> (n: i32)
    ensures
        n == sector_len(q as int),
{
    match q {
        1 => 11,
        2 | 3 => 10,
        4 | 5 => 9,
        6 | 7 => 8,
        8 => 6,
        9 => 4,
        10 => 2,
        _ => 0,
    }
}

/// Row length of the reduced sector, as a machine integer.
fn small_sector_len_at(q: i32) -> (n: i32)
    ensures
        n == small_sector_len(q as int),
{
    match q {
        1 => 8,
        2 | 3 => 7,
        4 | 5 => 6,
        6 => 4,
        7 => 2,
        _ => 0,
    }
}

/// Membership in the unrotated full sector.
pub open spec fn in_base_sector(p: (int, int)) -> bool {
    1 <= p.0 < 11 && 0 <= p.1 < sector_len(p.0)
}

/// Membership in the unrotated reduced sector.
pub open spec fn in_small_sector(p: (int, int)) -> bool {
    1 <= p.0 < 8 && 0 <= p.1 < small_sector_len(p.0)
}

/// Membership in some rotated copy of the full sector.
pub open spec fn in_any_sector(p: (int, int)) -> bool {
    in_base_sector(rot_ccw_n(p, 0)) || in_base_sector(rot_ccw_n(p, 1))
        || in_base_sector(rot_ccw_n(p, 2)) || in_base_sector(rot_ccw_n(p, 3))
        || in_base_sector(rot_ccw_n(p, 4)) || in_base_sector(rot_ccw_n(p, 5))
}

/// Membership in some rotated copy of the reduced sector.
pub open spec fn in_any_small_sector(p: (int, int)) -> bool {
    in_small_sector(rot_ccw_n(p, 0)) || in_small_sector(rot_ccw_n(p, 1))
        || in_small_sector(rot_ccw_n(p, 2)) || in_small_sector(rot_ccw_n(p, 3))
        || in_small_sector(rot_ccw_n(p, 4)) || in_small_sector(rot_ccw_n(p, 5))
}

/// Applying the first rotation step first gives the same result as
/// applying it last.
proof fn lemma_rot_cw_n_shift(p: (int, int), n: nat)
    ensures
        rot_cw_n(p, n + 1) == rot_cw_n(rot_cw(p), n),
    decreases n,
{
    if n > 0 {
        lemma_rot_cw_n_shift(p, (n - 1) as nat);
        assert(rot_cw_n(p, n + 1) == rot_cw(rot_cw_n(p, n)));
        assert(rot_cw_n(rot_cw(p), n) == rot_cw(rot_cw_n(rot_cw(p), (n - 1) as nat)));
    } else {
        assert(rot_cw_n(p, 1) == rot_cw(rot_cw_n(p, 0)));
        assert(rot_cw_n(rot_cw(p), 0) == rot_cw(p));
    }
}

/// Applying the first counter-rotation step first gives the same result
/// as applying it last.
proof fn lemma_rot_ccw_n_shift(p: (int, int), n: nat)
    ensures
        rot_ccw_n(p, n + 1) == rot_ccw_n(rot_ccw(p), n),
    decreases n,
{
    if n > 0 {
        lemma_rot_ccw_n_shift(p, (n - 1) as nat);
        assert(rot_ccw_n(p, n + 1) == rot_ccw(rot_ccw_n(p, n)));
        assert(rot_ccw_n(rot_ccw(p), n) == rot_ccw(rot_ccw_n(rot_ccw(p), (n - 1) as nat)));
    } else {
        assert(rot_ccw_n(p, 1) == rot_ccw(rot_ccw_n(p, 0)));
        assert(rot_ccw_n(rot_ccw(p), 0) == rot_ccw(p));
    }
}

/// `k` counter-clockwise steps undo `k` clockwise steps.
proof fn lemma_rot_ccw_undoes_cw(p: (int, int), k: nat)
    ensures
        rot_ccw_n(rot_cw_n(p, k), k) == p,
    decreases k,
{
    if k > 0 {
        lemma_rot_ccw_n_shift(rot_cw_n(p, k), (k - 1) as nat);
        assert(rot_ccw(rot_cw_n(p, k)) == rot_cw_n(p, (k - 1) as nat));
        lemma_rot_ccw_undoes_cw(p, (k - 1) as nat);
    }
}

/// `k` clockwise steps undo `k` counter-clockwise steps.
proof fn lemma_rot_cw_undoes_ccw(p: (int, int), k: nat)
    ensures
        rot_cw_n(rot_ccw_n(p, k), k) == p,
    decreases k,
{
    if k > 0 {
        lemma_rot_cw_n_shift(rot_ccw_n(p, k), (k - 1) as nat);
        assert(rot_cw(rot_ccw_n(p, k)) == rot_ccw_n(p, (k - 1) as nat));
        lemma_rot_cw_undoes_ccw(p, (k - 1) as nat);
    }
}

/// The rotated copy `k` of the full sector, overlaid with cell state `c`.
pub open spec fn sector_overlay(k: nat, c: Cell) -> Map<(int, int), Cell> {
    Map::new(|p: (int, int)| in_base_sector(rot_ccw_n(p, k)), |p: (int, int)| c)
}

/// The rotated copy `k` of the reduced sector, overlaid with `Empty`.
pub open spec fn small_sector_overlay(k: nat) -> Map<(int, int), Cell> {
    Map::new(|p: (int, int)| in_small_sector(rot_ccw_n(p, k)), |p: (int, int)| Cell::Empty)
}

/// Fills one rotated copy of the full sector with `Disabled` or `Empty`
/// cells.
pub fn fill_board_sector(board: &mut Board, rotation: Rotation, disabled: bool)
    ensures
        final(board)@ == old(board)@.union_prefer_right(
            sector_overlay(rot_steps(rotation), if disabled { Cell::Disabled } else { Cell::Empty }),
        ),
{
    let ghost prev = board@;
    let ghost k = rot_steps(rotation);
    let ghost c = if disabled { Cell::Disabled } else { Cell::Empty };
    let mut q: i32 = 0;
    while q < 11
        invariant
            0 <= q <= 11,
            k == rot_steps(rotation),
            c == (if disabled { Cell::Disabled } else { Cell::Empty }),
            board@ =~= prev.union_prefer_right(
                Map::new(
                    |p: (int, int)| {
                        let b = rot_ccw_n(p, k);
                        in_base_sector(b) && b.0 < q
                    },
                    |p: (int, int)| c,
                ),
            ),
        decreases 11 - q,
    {
        let len = sector_len_at(q);
        let mut r: i32 = 0;
        while r < len
            invariant
                0 <= q < 11,
                len == sector_len(q as int),
                0 <= r <= len,
                k == rot_steps(rotation),
                c == (if disabled { Cell::Disabled } else { Cell::Empty }),
                board@ =~= prev.union_prefer_right(
                    Map::new(
                        |p: (int, int)| {
                            let b = rot_ccw_n(p, k);
                            in_base_sector(b) && (b.0 < q || (b.0 == q && b.1 < r))
                        },
                        |p: (int, int)| c,
                    ),
                ),
            decreases len - r,
        {
            let h = Hex { q, r }.rotate(rotation);
            let cell = if disabled {
                Cell::Disabled
            } else {
                Cell::Empty
            };
            let ghost before = board@;
            board.insert(h, cell);
            proof {
                lemma_rotate_as_steps((q as int, r as int), rotation);
                assert(h.spec_pair() == rot_cw_n((q as int, r as int), k));
                lemma_rot_ccw_undoes_cw((q as int, r as int), k);
                assert(rot_ccw_n(h.spec_pair(), k) == (q as int, r as int));
                assert forall|p: (int, int)|
                    #![trigger rot_ccw_n(p, k)]
                    (rot_ccw_n(p, k) == (q as int, r as int)) == (p == h.spec_pair()) by {
                    if rot_ccw_n(p, k) == (q as int, r as int) {
                        lemma_rot_cw_undoes_ccw(p, k);
                    }
                }
                assert(board@ =~= prev.union_prefer_right(
                    Map::new(
                        |p: (int, int)| {
                            let b = rot_ccw_n(p, k);
                            in_base_sector(b) && (b.0 < q || (b.0 == q && b.1 < r + 1))
                        },
                        |p: (int, int)| c,
                    ),
                ));
            }
            r = r + 1;
        }
        q = q + 1;
    }
    proof {
        assert(board@ =~= prev.union_prefer_right(sector_overlay(k, c)));
    }
}

/// Fills one rotated copy of the reduced sector with `Empty` cells.
pub fn fill_board_sector_small(board: &mut Board, rotation: Rotation)
    ensures
        final(board)@ == old(board)@.union_prefer_right(
            small_sector_overlay(rot_steps(rotation)),
        ),
{
    let ghost prev = board@;
    let ghost k = rot_steps(rotation);
    let mut q: i32 = 0;
    while q < 8
        invariant
            0 <= q <= 8,
            k == rot_steps(rotation),
            board@ =~= prev.union_prefer_right(
                Map::new(
                    |p: (int, int)| {
                        let b = rot_ccw_n(p, k);
                        in_small_sector(b) && b.0 < q
                    },
                    |p: (int, int)| Cell::Empty,
                ),
            ),
        decreases 8 - q,
    {
        let len = small_sector_len_at(q);
        let mut r: i32 = 0;
        while r < len
            invariant
                0 <= q < 8,
                len == small_sector_len(q as int),
                0 <= r <= len,
                k == rot_steps(rotation),
                board@ =~= prev.union_prefer_right(
                    Map::new(
                        |p: (int, int)| {
                            let b = rot_ccw_n(p, k);
                            in_small_sector(b) && (b.0 < q || (b.0 == q && b.1 < r))
                        },
                        |p: (int, int)| Cell::Empty,
                    ),
                ),
            decreases len - r,
        {
            let h = Hex { q, r }.rotate(rotation);
            board.insert(h, Cell::Empty);
            proof {
                lemma_rotate_as_steps((q as int, r as int), rotation);
                lemma_rot_ccw_undoes_cw((q as int, r as int), k);
                assert forall|p: (int, int)|
                    #![trigger rot_ccw_n(p, k)]
                    (rot_ccw_n(p, k) == (q as int, r as int)) == (p == h.spec_pair()) by {
                    if rot_ccw_n(p, k) == (q as int, r as int) {
                        lemma_rot_cw_undoes_ccw(p, k);
                    }
                }
                assert(board@ =~= prev.union_prefer_right(
                    Map::new(
                        |p: (int, int)| {
                            let b = rot_ccw_n(p, k);
                            in_small_sector(b) && (b.0 < q || (b.0 == q && b.1 < r + 1))
                        },
                        |p: (int, int)| Cell::Empty,
                    ),
                ));
            }
            r = r + 1;
        }
        q = q + 1;
    }
    proof {
        assert(board@ =~= prev.union_prefer_right(small_sector_overlay(k)));
    }
}

/// The full coordinate space: the origin plus the six rotated copies of
/// the full sector. The origin is `Empty`; the sector cells carry `c`.
pub open spec fn big_board_overlay(disabled: bool) -> Map<(int, int), Cell> {
    Map::new(
        |p: (int, int)| p == (0int, 0int) || in_any_sector(p),
        |p: (int, int)|
            if p == (0int, 0int) {
                Cell::Empty
            } else if disabled {
                Cell::Disabled
            } else {
                Cell::Empty
            },
    )
}

/// The six rotated copies of the reduced sector, all `Empty`.
pub open spec fn small_board_overlay() -> Map<(int, int), Cell> {
    Map::new(|p: (int, int)| in_any_small_sector(p), |p: (int, int)| Cell::Empty)
}

/// Lays down the full coordinate space: the origin as `Empty`, then the
/// six rotated sector copies, `Disabled` when `disabled` is set, else
/// `Empty`.
pub fn fill_board(board: &mut Board, disabled: bool)
    ensures
        final(board)@ == old(board)@.union_prefer_right(big_board_overlay(disabled)),
{
    let ghost prev = board@;
    let ghost c = if disabled { Cell::Disabled } else { Cell::Empty };
    board.insert(Hex { q: 0, r: 0 }, Cell::Empty);
    fill_board_sector(board, Rotation::Rot0, disabled);
    fill_board_sector(board, Rotation::Rot60Cw, disabled);
    fill_board_sector(board, Rotation::Rot120Cw, disabled);
    fill_board_sector(board, Rotation::Rot180, disabled);
    fill_board_sector(board, Rotation::Rot60Ccw, disabled);
    fill_board_sector(board, Rotation::Rot120Ccw, disabled);
    proof {
        assert(!in_any_sector((0int, 0int))) by {
            reveal_with_fuel(rot_ccw_n, 7);
        }
        assert(board@ =~= prev.union_prefer_right(big_board_overlay(disabled)));
    }
}

/// Row length of the two/four-player board at column `q`, for
/// `-9 <= q <= 9`.
pub open spec fn four_row_len(q: int) -> int {
    (q + 9) / 2 + 4
}

/// Membership in the two/four-player board region: for each column
/// `q` from -9 to 9, the cells `(q, -r)` and `(-q, r)` for `r` below
/// the column's row length.
pub open spec fn in_four_region(p: (int, int)) -> bool {
    let a = p.0;
    let b = p.1;
    (-9 <= a <= 9 && 0 <= -b && -b < four_row_len(a))
        || (-9 <= a <= 9 && 0 <= b && b < four_row_len(-a))
}

/// The two/four-player board region, all `Empty`.
pub open spec fn four_board_overlay() -> Map<(int, int), Cell> {
    Map::new(|p: (int, int)| in_four_region(p), |p: (int, int)| Cell::Empty)
}

/// The board after the three-player setup has run over `m`: the six
/// reduced sector copies re-enabled, and three start zones at the
/// anchor hex `(5, 5)` and its two 120-degree rotations.
pub open spec fn three_player_map(m: Map<(int, int), Cell>) -> Map<(int, int), Cell> {
    m.union_prefer_right(small_board_overlay())
        .insert((5, 5), Cell::PlayerStart(0))
        .insert((-10, 5), Cell::PlayerStart(1))
        .insert((5, -10), Cell::PlayerStart(2))
}

/// The board after the two/four-player setup has run over `m`: the
/// symmetric four-corner region enabled, and four start zones placed by
/// direct formula.
pub open spec fn four_player_map(m: Map<(int, int), Cell>) -> Map<(int, int), Cell> {
    m.union_prefer_right(four_board_overlay())
        .insert((9, 3), Cell::PlayerStart(0))
        .insert((-9, 12), Cell::PlayerStart(1))
        .insert((-9, -3), Cell::PlayerStart(2))
        .insert((9, -12), Cell::PlayerStart(3))
}

/// The board after the five/six-player setup has run over `m`: the full
/// space re-enabled as `Empty`, and six start zones at the anchor hex
/// `(7, 7)` and its five rotations.
pub open spec fn six_player_map(m: Map<(int, int), Cell>) -> Map<(int, int), Cell> {
    m.union_prefer_right(big_board_overlay(false))
        .insert((7, 7), Cell::PlayerStart(0))
        .insert((-7, 14), Cell::PlayerStart(1))
        .insert((-14, 7), Cell::PlayerStart(2))
        .insert((-7, -7), Cell::PlayerStart(3))
        .insert((7, -14), Cell::PlayerStart(4))
        .insert((14, -7), Cell::PlayerStart(5))
}

/// The player-count-specific setup applied to a board `m`: two and four
/// players share the four-corner layout; five and six players share the
/// full layout.
pub open spec fn spec_setup_for_players(m: Map<(int, int), Cell>, player_count: int) -> Map<(int, int), Cell> {
    if player_count == 3 {
        three_player_map(m)
    } else if player_count == 2 || player_count == 4 {
        four_player_map(m)
    } else {
        six_player_map(m)
    }
}

/// The finished board for a player count: the full space laid down as
/// `Disabled`, then the player-count-specific setup over it.
pub open spec fn full_board_map(player_count: int) -> Map<(int, int), Cell> {
    spec_setup_for_players(big_board_overlay(true), player_count)
}

/// Enables the reduced board and places the three start zones.
pub fn three_player_setup(board: &mut Board)
    ensures
        final(board)@ == three_player_map(old(board)@),
{
    let ghost prev = board@;
    fill_board_sector_small(board, Rotation::Rot0);
    fill_board_sector_small(board, Rotation::Rot60Cw);
    fill_board_sector_small(board, Rotation::Rot120Cw);
    fill_board_sector_small(board, Rotation::Rot180);
    fill_board_sector_small(board, Rotation::Rot60Ccw);
    fill_board_sector_small(board, Rotation::Rot120Ccw);
    proof {
        assert(board@ =~= prev.union_prefer_right(small_board_overlay()));
    }
    board.insert(Hex { q: 5, r: 5 }, Cell::PlayerStart(0));
    let anchor = Hex { q: 5, r: 5 };
    board.insert(anchor.rotate(Rotation::Rot120Cw), Cell::PlayerStart(1));
    board.insert(anchor.rotate(Rotation::Rot120Ccw), Cell::PlayerStart(2));
}

/// Enables the symmetric four-corner region and places the four start
/// zones.
pub fn four_player_setup(board: &mut Board)
    ensures
        final(board)@ == four_player_map(old(board)@),
{
    let ghost prev = board@;
    let mut q: i32 = -9;
    while q <= 9
        invariant
            -9 <= q <= 10,
            board@ =~= prev.union_prefer_right(
                Map::new(
                    |p: (int, int)| {
                        let a = p.0;
                        let b = p.1;
                        (-9 <= a < q && 0 <= -b && -b < four_row_len(a))
                            || (-9 <= a <= 9 && -a < q && 0 <= b && b < four_row_len(-a))
                    },
                    |p: (int, int)| Cell::Empty,
                ),
            ),
        decreases 10 - q,
    {
        let r_length = (q + 9) / 2 + 4;
        let mut r: i32 = 0;
        while r < r_length
            invariant
                -9 <= q <= 9,
                r_length == four_row_len(q as int),
                0 <= r <= r_length,
                board@ =~= prev.union_prefer_right(
                    Map::new(
                        |p: (int, int)| {
                            let a = p.0;
                            let b = p.1;
                            (-9 <= a <= 9 && 0 <= -b && -b < four_row_len(a)
                                && (a < q || (a == q && -b < r)))
                                || (-9 <= a <= 9 && 0 <= b && b < four_row_len(-a)
                                && (-a < q || (-a == q && b < r)))
                        },
                        |p: (int, int)| Cell::Empty,
                    ),
                ),
            decreases r_length - r,
        {
            board.insert(Hex { q, r: -r }, Cell::Empty);
            board.insert(Hex { q: -q, r }, Cell::Empty);
            proof {
                assert(board@ =~= prev.union_prefer_right(
                    Map::new(
                        |p: (int, int)| {
                            let a = p.0;
                            let b = p.1;
                            (-9 <= a <= 9 && 0 <= -b && -b < four_row_len(a)
                                && (a < q || (a == q && -b < r + 1)))
                                || (-9 <= a <= 9 && 0 <= b && b < four_row_len(-a)
                                && (-a < q || (-a == q && b < r + 1)))
                        },
                        |p: (int, int)| Cell::Empty,
                    ),
                ));
            }
            r = r + 1;
        }
        q = q + 1;
    }
    proof {
        assert(board@ =~= prev.union_prefer_right(four_board_overlay()));
    }
    board.insert(Hex { q: 9, r: 3 }, Cell::PlayerStart(0));
    board.insert(Hex { q: -9, r: 12 }, Cell::PlayerStart(1));
    board.insert(Hex { q: -9, r: -3 }, Cell::PlayerStart(2));
    board.insert(Hex { q: 9, r: -12 }, Cell::PlayerStart(3));
}

/// Re-enables the full board and places the six start zones.
pub fn six_player_setup(board: &mut Board)
    ensures
        final(board)@ == six_player_map(old(board)@),
{
    fill_board(board, false);
    let anchor = Hex { q: 7, r: 7 };
    board.insert(anchor, Cell::PlayerStart(0));
    board.insert(anchor.rotate(Rotation::Rot60Cw), Cell::PlayerStart(1));
    board.insert(anchor.rotate(Rotation::Rot120Cw), Cell::PlayerStart(2));
    board.insert(anchor.rotate(Rotation::Rot180), Cell::PlayerStart(3));
    board.insert(anchor.rotate(Rotation::Rot120Ccw), Cell::PlayerStart(4));
    board.insert(anchor.rotate(Rotation::Rot60Ccw), Cell::PlayerStart(5));
}

/// Applies the player-count-specific setup to a board already holding
/// the disabled full space. Player counts outside two to six are a
/// configuration error and are excluded.
pub fn setup_board_for_players(board: &mut Board, player_count: usize)
    requires
        2 <= player_count <= 6,
    ensures
        final(board)@ == spec_setup_for_players(old(board)@, player_count as int),
{
    match player_count {
        2 | 4 => four_player_setup(board),
        3 => three_player_setup(board),
        _ => six_player_setup(board),
    }
}

/// Builds the finished board for a player count: the full coordinate
/// space as `Disabled` cells, then the player-count-specific layout and
/// start zones over it.
pub fn build_board(player_count: usize) -> (board: Board)
    requires
        2 <= player_count <= 6,
    ensures
        board@ == full_board_map(player_count as int),
{
    let mut board = Board::new();
    fill_board(&mut board, true);
    proof {
        assert(board@ =~= big_board_overlay(true));
    }
    setup_board_for_players(&mut board, player_count);
    board
}

} // verus!
