//! End-of-game winner determination.
//!
//! Each player still holding pieces gets a stats entry: how many blocks
//! (individual hex cells) remain unplaced, and the size of their largest
//! unplaced piece. Ranking proceeds by sequential tie-break elimination:
//! fewest blocks remaining first, then smallest largest-piece. A player
//! with no pieces left gets no entry and is excluded from ranking. If
//! both rules leave several players tied, the outcome is explicitly
//! undecided; if no player had pieces at all, the game is a draw.

use vstd::prelude::*;

verus! {

/// The end-of-game standing of one player still holding pieces.
#[derive(Clone, Copy, PartialEq, Eq, Structural, Debug)]
pub struct PlayerStats {
    /// The player's index.
    pub index: usize,
    /// How many individual blocks remain unplaced.
    pub blocks: usize,
    /// The size of the largest remaining piece.
    pub largest_piece: usize,
}

/// The outcome of winner determination.
#[derive(Clone, Copy, PartialEq, Eq, Structural, Debug)]
pub enum WinnerResult {
    /// A single player won the tie-break.
    Winner(usize),
    /// No player had any pieces left: a draw, with nobody ranked.
    Draw,
    /// Several players remain tied after all tie-break rules; no further
    /// rule exists, so the outcome is explicitly undecided.
    Undecided,
}

/// The smallest `blocks` value among the entries.
pub open spec fn min_blocks_of(s: Seq<PlayerStats>) -> int
    decreases s.len(),
{
    if s.len() == 0 {
        0
    } else if s.len() == 1 {
        s[0].blocks as int
    } else {
        let rest = min_blocks_of(s.drop_last());
        if s.last().blocks < rest {
            s.last().blocks as int
        } else {
            rest
        }
    }
}

/// The smallest `largest_piece` value among the entries.
pub open spec fn min_largest_of(s: Seq<PlayerStats>) -> int
    decreases s.len(),
{
    if s.len() == 0 {
        0
    } else if s.len() == 1 {
        s[0].largest_piece as int
    } else {
        let rest = min_largest_of(s.drop_last());
        if s.last().largest_piece < rest {
            s.last().largest_piece as int
        } else {
            rest
        }
    }
}

/// The entries whose `blocks` equals `m`, in order.
pub open spec fn keep_blocks(s: Seq<PlayerStats>, m: int) -> Seq<PlayerStats>
    decreases s.len(),
{
    if s.len() == 0 {
        Seq::empty()
    } else {
        let rest = keep_blocks(s.drop_last(), m);
        if s.last().blocks == m {
            rest.push(s.last())
        } else {
            rest
        }
    }
}

/// The entries whose `largest_piece` equals `m`, in order.
pub open spec fn keep_largest(s: Seq<PlayerStats>, m: int) -> Seq<PlayerStats>
    decreases s.len(),
{
    if s.len() == 0 {
        Seq::empty()
    } else {
        let rest = keep_largest(s.drop_last(), m);
        if s.last().largest_piece == m {
            rest.push(s.last())
        } else {
            rest
        }
    }
}

/// The sequential tie-break: keep the players with the fewest blocks
/// remaining; if one is left they win; otherwise keep those with the
/// smallest largest piece; if one is left they win; otherwise the
/// outcome is undecided. An empty ranking is a draw.
pub open spec fn spec_detect_winner(s: Seq<PlayerStats>) -> WinnerResult {
    if s.len() == 0 {
        WinnerResult::Draw
    } else {
        let survivors = keep_blocks(s, min_blocks_of(s));
        if survivors.len() == 1 {
            WinnerResult::Winner(survivors[0].index)
        } else {
            let finalists = keep_largest(survivors, min_largest_of(survivors));
            if finalists.len() == 1 {
                WinnerResult::Winner(finalists[0].index)
            } else {
                WinnerResult::Undecided
            }
        }
    }
}

/// The total number of blocks over all pieces in the list; each piece
/// is an `(owner, size)` pair.
pub open spec fn total_blocks(ps: Seq<(usize, usize)>) -> int
    decreases ps.len(),
{
    if ps.len() == 0 {
        0
    } else {
        total_blocks(ps.drop_last()) + ps.last().1
    }
}

/// Whether player `i` owns any piece in the list.
pub open spec fn player_has_piece(ps: Seq<(usize, usize)>, i: usize) -> bool
    decreases ps.len(),
{
    if ps.len() == 0 {
        false
    } else {
        player_has_piece(ps.drop_last(), i) || ps.last().0 == i
    }
}

/// The number of blocks in pieces owned by player `i`.
pub open spec fn player_blocks(ps: Seq<(usize, usize)>, i: usize) -> int
    decreases ps.len(),
{
    if ps.len() == 0 {
        0
    } else {
        player_blocks(ps.drop_last(), i) + if ps.last().0 == i {
            ps.last().1 as int
        } else {
            0
        }
    }
}

/// The size of the largest piece owned by player `i`, zero when they
/// own none.
pub open spec fn player_largest(ps: Seq<(usize, usize)>, i: usize) -> int
    decreases ps.len(),
{
    if ps.len() == 0 {
        0
    } else {
        let rest = player_largest(ps.drop_last(), i);
        if ps.last().0 == i && ps.last().1 > rest {
            ps.last().1 as int
        } else {
            rest
        }
    }
}

/// The stats entries for players `0 .. n`, in index order, skipping
/// players who own no piece.
pub open spec fn spec_players_stats(ps: Seq<(usize, usize)>, n: int) -> Seq<PlayerStats>
    decreases n,
{
    if n <= 0 {
        Seq::empty()
    } else {
        let rest = spec_players_stats(ps, n - 1);
        let i = (n - 1) as usize;
        if player_has_piece(ps, i) {
            rest.push(
                PlayerStats {
                    index: i,
                    blocks: player_blocks(ps, i) as usize,
                    largest_piece: player_largest(ps, i) as usize,
                },
            )
        } else {
            rest
        }
    }
}

/// A player's block count is bounded by the total over all pieces, and
/// never negative.
proof fn lemma_player_blocks_le_total(ps: Seq<(usize, usize)>, i: usize)
    ensures
        0 <= player_blocks(ps, i) <= total_blocks(ps),
    decreases ps.len(),
{
    if ps.len() > 0 {
        lemma_player_blocks_le_total(ps.drop_last(), i);
    }
}

/// The block total over a prefix never exceeds the total over the whole
/// list.
proof fn lemma_total_blocks_take(ps: Seq<(usize, usize)>, j: int)
    requires
        0 <= j <= ps.len(),
    ensures
        total_blocks(ps.take(j)) <= total_blocks(ps),
    decreases ps.len(),
{
    if j == ps.len() {
        assert(ps.take(j) =~= ps);
    } else {
        assert(ps.drop_last().take(j) =~= ps.take(j));
        lemma_total_blocks_take(ps.drop_last(), j);
    }
}

/// A player's largest piece size is in `usize` range.
proof fn lemma_player_largest_bounds(ps: Seq<(usize, usize)>, i: usize)
    ensures
        0 <= player_largest(ps, i) <= usize::MAX,
    decreases ps.len(),
{
    if ps.len() > 0 {
        lemma_player_largest_bounds(ps.drop_last(), i);
    }
}

/// Assembles the stats entries for players `0 .. player_count` from the
/// list of still-unplaced pieces, each an `(owner, size)` pair; players
/// who own no piece get no entry.
pub fn players_stats(player_count: usize, pieces: &Vec<(usize, usize)>) -> (stats: Vec<PlayerStats>)
    requires
        total_blocks(pieces@) <= usize::MAX,
    ensures
        stats@ == spec_players_stats(pieces@, player_count as int),
{
    let ghost ps = pieces@;
    let pn = pieces.len();
    let mut stats: Vec<PlayerStats> = Vec::new();
    let mut i: usize = 0;
    while i < player_count
        invariant
            ps == pieces@,
            pn == ps.len(),
            i <= player_count,
            total_blocks(ps) <= usize::MAX,
            stats@ == spec_players_stats(ps, i as int),
        decreases player_count - i,
    {
        let mut has = false;
        let mut blocks: usize = 0;
        let mut largest: usize = 0;
        let mut j: usize = 0;
        while j < pn
            invariant
                ps == pieces@,
                pn == ps.len(),
                j <= pn,
                total_blocks(ps) <= usize::MAX,
                has == player_has_piece(ps.take(j as int), i),
                blocks as int == player_blocks(ps.take(j as int), i),
                largest as int == player_largest(ps.take(j as int), i),
            decreases pn - j,
        {
            proof {
                assert(ps.take(j + 1).drop_last() =~= ps.take(j as int));
                assert(ps.take(j + 1).last() == ps[j as int]);
                lemma_player_blocks_le_total(ps.take(j + 1), i);
                lemma_total_blocks_take(ps, j + 1);
            }
            let (owner, size) = pieces[j];
            if owner == i {
                has = true;
                blocks = blocks + size;
                if size > largest {
                    largest = size;
                }
            }
            j = j + 1;
        }
        proof {
            assert(ps.take(pn as int) =~= ps);
        }
        if has {
            stats.push(PlayerStats { index: i, blocks, largest_piece: largest });
        }
        i = i + 1;
    }
    stats
}

/// `min_blocks_of` is the true minimum: some entry achieves it, and no
/// entry is below it.
pub proof fn lemma_min_blocks_is_min(s: Seq<PlayerStats>)
    requires
        s.len() > 0,
    ensures
        exists|j: int| 0 <= j < s.len() && (#[trigger] s[j]).blocks == min_blocks_of(s),
        forall|j: int| 0 <= j < s.len() ==> (#[trigger] s[j]).blocks >= min_blocks_of(s),
    decreases s.len(),
{
    if s.len() == 1 {
        assert((#[trigger] s[0]).blocks == min_blocks_of(s));
    } else {
        lemma_min_blocks_is_min(s.drop_last());
        let m = min_blocks_of(s);
        if s.last().blocks < min_blocks_of(s.drop_last()) {
            assert((#[trigger] s[s.len() - 1]).blocks == m);
        } else {
            let j = choose|j: int|
                0 <= j < s.drop_last().len() && (#[trigger] s.drop_last()[j]).blocks
                    == min_blocks_of(s.drop_last());
            assert(s.drop_last()[j] == s[j]);
            assert((#[trigger] s[j]).blocks == m);
        }
        assert forall|j: int| 0 <= j < s.len() implies (#[trigger] s[j]).blocks >= m by {
            if j < s.len() - 1 {
                assert(s.drop_last()[j] == s[j]);
            }
        }
    }
}

/// `min_largest_of` is the true minimum: some entry achieves it, and no
/// entry is below it.
pub proof fn lemma_min_largest_is_min(s: Seq<PlayerStats>)
    requires
        s.len() > 0,
    ensures
        exists|j: int| 0 <= j < s.len() && (#[trigger] s[j]).largest_piece == min_largest_of(s),
        forall|j: int| 0 <= j < s.len() ==> (#[trigger] s[j]).largest_piece >= min_largest_of(s),
    decreases s.len(),
{
    if s.len() == 1 {
        assert((#[trigger] s[0]).largest_piece == min_largest_of(s));
    } else {
        lemma_min_largest_is_min(s.drop_last());
        let m = min_largest_of(s);
        if s.last().largest_piece < min_largest_of(s.drop_last()) {
            assert((#[trigger] s[s.len() - 1]).largest_piece == m);
        } else {
            let j = choose|j: int|
                0 <= j < s.drop_last().len() && (#[trigger] s.drop_last()[j]).largest_piece
                    == min_largest_of(s.drop_last());
            assert(s.drop_last()[j] == s[j]);
            assert((#[trigger] s[j]).largest_piece == m);
        }
        assert forall|j: int| 0 <= j < s.len() implies (#[trigger] s[j]).largest_piece >= m by {
            if j < s.len() - 1 {
                assert(s.drop_last()[j] == s[j]);
            }
        }
    }
}

/// Every entry that `keep_blocks` keeps achieves the given value.
pub proof fn lemma_keep_blocks_entries(s: Seq<PlayerStats>, m: int)
    ensures
        forall|i: int| 0 <= i < keep_blocks(s, m).len()
            ==> (#[trigger] keep_blocks(s, m)[i]).blocks == m,
    decreases s.len(),
{
    if s.len() > 0 {
        lemma_keep_blocks_entries(s.drop_last(), m);
        let kept = keep_blocks(s, m);
        let rest = keep_blocks(s.drop_last(), m);
        assert forall|i: int| 0 <= i < kept.len() implies (#[trigger] kept[i]).blocks == m by {
            if i < rest.len() {
                assert(kept[i] == rest[i]);
            } else {
                assert(kept[i] == s.last());
            }
        }
    }
}

/// Every entry that `keep_largest` keeps achieves the given value.
pub proof fn lemma_keep_largest_entries(s: Seq<PlayerStats>, m: int)
    ensures
        forall|i: int| 0 <= i < keep_largest(s, m).len()
            ==> (#[trigger] keep_largest(s, m)[i]).largest_piece == m,
    decreases s.len(),
{
    if s.len() > 0 {
        lemma_keep_largest_entries(s.drop_last(), m);
        let kept = keep_largest(s, m);
        let rest = keep_largest(s.drop_last(), m);
        assert forall|i: int| 0 <= i < kept.len() implies (#[trigger] kept[i]).largest_piece == m by {
            if i < rest.len() {
                assert(kept[i] == rest[i]);
            } else {
                assert(kept[i] == s.last());
            }
        }
    }
}

/// An achieved `blocks` value keeps at least one entry.
proof fn lemma_keep_blocks_nonempty(s: Seq<PlayerStats>, m: int, j: int)
    requires
        0 <= j < s.len(),
        s[j].blocks == m,
    ensures
        keep_blocks(s, m).len() >= 1,
    decreases s.len(),
{
    if j < s.len() - 1 {
        lemma_keep_blocks_nonempty(s.drop_last(), m, j);
    }
}

/// An achieved `largest_piece` value keeps at least one entry.
proof fn lemma_keep_largest_nonempty(s: Seq<PlayerStats>, m: int, j: int)
    requires
        0 <= j < s.len(),
        s[j].largest_piece == m,
    ensures
        keep_largest(s, m).len() >= 1,
    decreases s.len(),
{
    if j < s.len() - 1 {
        lemma_keep_largest_nonempty(s.drop_last(), m, j);
    }
}

/// Applies the tie-break elimination to the given stats entries.
pub fn detect_winner(players_stats: Vec<PlayerStats>) -> (w: WinnerResult)
    ensures
        w == spec_detect_winner(players_stats@),
{
    let ghost s = players_stats@;
    let n = players_stats.len();
    if n == 0 {
        return WinnerResult::Draw;
    }

    // Rule 1: minimum blocks remaining.
    let mut m1 = players_stats[0].blocks;
    let ghost mut w1: int = 0;
    let mut i: usize = 1;
    proof {
        assert(s.take(1).len() == 1);
        assert(s.take(1)[0] == s[0]);
    }
    while i < n
        invariant
            s == players_stats@,
            n == s.len(),
            1 <= i <= n,
            m1 as int == min_blocks_of(s.take(i as int)),
            0 <= w1 < i,
            s[w1].blocks == m1,
        decreases n - i,
    {
        proof {
            assert(s.take(i + 1).drop_last() =~= s.take(i as int));
            assert(s.take(i + 1).last() == s[i as int]);
        }
        if players_stats[i].blocks < m1 {
            m1 = players_stats[i].blocks;
            proof {
                w1 = i as int;
            }
        }
        i = i + 1;
    }
    proof {
        assert(s.take(n as int) =~= s);
    }

    let mut survivors: Vec<PlayerStats> = Vec::new();
    let mut i: usize = 0;
    while i < n
        invariant
            s == players_stats@,
            n == s.len(),
            i <= n,
            m1 as int == min_blocks_of(s),
            survivors@ == keep_blocks(s.take(i as int), m1 as int),
        decreases n - i,
    {
        proof {
            assert(s.take(i + 1).drop_last() =~= s.take(i as int));
            assert(s.take(i + 1).last() == s[i as int]);
        }
        if players_stats[i].blocks == m1 {
            survivors.push(players_stats[i]);
        }
        i = i + 1;
    }
    proof {
        assert(s.take(n as int) =~= s);
        lemma_keep_blocks_nonempty(s, m1 as int, w1);
    }

    if survivors.len() == 1 {
        return WinnerResult::Winner(survivors[0].index);
    }

    // Rule 2: minimum largest remaining piece among the survivors.
    let ghost t = survivors@;
    let sn = survivors.len();
    let mut m2 = survivors[0].largest_piece;
    let ghost mut w2: int = 0;
    let mut i: usize = 1;
    proof {
        assert(t.take(1).len() == 1);
        assert(t.take(1)[0] == t[0]);
    }
    while i < sn
        invariant
            t == survivors@,
            sn == t.len(),
            1 <= i <= sn,
            m2 as int == min_largest_of(t.take(i as int)),
            0 <= w2 < i,
            t[w2].largest_piece == m2,
        decreases sn - i,
    {
        proof {
            assert(t.take(i + 1).drop_last() =~= t.take(i as int));
            assert(t.take(i + 1).last() == t[i as int]);
        }
        if survivors[i].largest_piece < m2 {
            m2 = survivors[i].largest_piece;
            proof {
                w2 = i as int;
            }
        }
        i = i + 1;
    }
    proof {
        assert(t.take(sn as int) =~= t);
    }

    let mut finalists: Vec<PlayerStats> = Vec::new();
    let mut i: usize = 0;
    while i < sn
        invariant
            t == survivors@,
            sn == t.len(),
            i <= sn,
            m2 as int == min_largest_of(t),
            finalists@ == keep_largest(t.take(i as int), m2 as int),
        decreases sn - i,
    {
        proof {
            assert(t.take(i + 1).drop_last() =~= t.take(i as int));
            assert(t.take(i + 1).last() == t[i as int]);
        }
        if survivors[i].largest_piece == m2 {
            finalists.push(survivors[i]);
        }
        i = i + 1;
    }
    proof {
        assert(t.take(sn as int) =~= t);
        lemma_keep_largest_nonempty(t, m2 as int, w2);
    }

    if finalists.len() == 1 {
        WinnerResult::Winner(finalists[0].index)
    } else {
        WinnerResult::Undecided
    }
}

} // verus!
