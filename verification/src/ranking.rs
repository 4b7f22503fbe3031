//! Ordering of seats by final points.
//!
//! Seats are ranked best-first by descending final points; ties are broken
//! by descending prior standings, then by ascending seat index (the order a
//! stable sort on that key would produce).

use vstd::prelude::*;

verus! {

/// Seat `a` is ranked strictly ahead of seat `b`: higher final points, or
/// equal points and higher prior standing, or both equal and a lower seat
/// index. A strict total order on distinct seats.
pub open spec fn beats(pts: [i32; 4], prior: [i32; 4], a: int, b: int) -> bool {
    ||| pts[a] > pts[b]
    ||| (pts[a] == pts[b] && prior[a] > prior[b])
    ||| (pts[a] == pts[b] && prior[a] == prior[b] && a < b)
}

/// Ordinal rank of seat `p` (0 = best): the number of seats ranked ahead.
pub open spec fn spec_rank(pts: [i32; 4], prior: [i32; 4], p: int) -> int {
    (if beats(pts, prior, 0, p) {
        1int
    } else {
        0
    }) + (if beats(pts, prior, 1, p) {
        1int
    } else {
        0
    }) + (if beats(pts, prior, 2, p) {
        1int
    } else {
        0
    }) + (if beats(pts, prior, 3, p) {
        1int
    } else {
        0
    })
}

/// `rp` lists the four seats best rank first, consistently with `beats`.
/// Sortedness under a strict order also forces `rp` to be a permutation.
pub open spec fn is_rank_order(rp: [usize; 4], pts: [i32; 4], prior: [i32; 4]) -> bool {
    &&& forall|r: int| 0 <= r < 4 ==> #[trigger] rp[r] < 4
    &&& forall|r1: int, r2: int|
        0 <= r1 < r2 < 4 ==> beats(pts, prior, #[trigger] rp[r1] as int, #[trigger] rp[r2] as int)
}

/// A seat ranked ahead of another has the strictly smaller ordinal rank.
proof fn lemma_rank_strict(pts: [i32; 4], prior: [i32; 4])
    ensures
        forall|a: int, b: int|
            0 <= a < 4 && 0 <= b < 4 && a != b && beats(pts, prior, a, b) ==> spec_rank(
                pts,
                prior,
                a,
            ) < spec_rank(pts, prior, b),
{
}

fn beats_exec(pts: &[i32; 4], prior: &[i32; 4], a: usize, b: usize) -> (r: bool)
    requires
        a < 4,
        b < 4,
    ensures
        r == beats(*pts, *prior, a as int, b as int),
{
    pts[a] > pts[b] || (pts[a] == pts[b] && prior[a] > prior[b]) || (pts[a] == pts[b]
        && prior[a] == prior[b] && a < b)
}

fn rank_of(pts: &[i32; 4], prior: &[i32; 4], p: usize) -> (r: usize)
    requires
        p < 4,
    ensures
        r as int == spec_rank(*pts, *prior, p as int),
        r < 4,
{
    let mut r: usize = 0;
    if beats_exec(pts, prior, 0, p) {
        r = r + 1;
    }
    if beats_exec(pts, prior, 1, p) {
        r = r + 1;
    }
    if beats_exec(pts, prior, 2, p) {
        r = r + 1;
    }
    if beats_exec(pts, prior, 3, p) {
        r = r + 1;
    }
    proof {
        assert(!beats(*pts, *prior, p as int, p as int));
    }
    r
}

/// List the four seats best rank first under `beats`.
pub fn rank_seats(pts: &[i32; 4], prior: &[i32; 4]) -> (rp: [usize; 4])
    ensures
        is_rank_order(rp, *pts, *prior),
        forall|p: int| 0 <= p < 4 ==> rp[spec_rank(*pts, *prior, p)] == p,
{
    let r0 = rank_of(pts, prior, 0);
    let r1 = rank_of(pts, prior, 1);
    let r2 = rank_of(pts, prior, 2);
    let r3 = rank_of(pts, prior, 3);
    proof {
        lemma_rank_strict(*pts, *prior);
        assert(r0 != r1 && r0 != r2 && r0 != r3 && r1 != r2 && r1 != r3 && r2 != r3);
    }
    let s0: usize = if r0 == 0 {
        0
    } else if r1 == 0 {
        1
    } else if r2 == 0 {
        2
    } else {
        3
    };
    let s1: usize = if r0 == 1 {
        0
    } else if r1 == 1 {
        1
    } else if r2 == 1 {
        2
    } else {
        3
    };
    let s2: usize = if r0 == 2 {
        0
    } else if r1 == 2 {
        1
    } else if r2 == 2 {
        2
    } else {
        3
    };
    let s3: usize = if r0 == 3 {
        0
    } else if r1 == 3 {
        1
    } else if r2 == 3 {
        2
    } else {
        3
    };
    let rp = [s0, s1, s2, s3];
    proof {
        assert forall|r1x: int, r2x: int| 0 <= r1x < r2x < 4 implies beats(
            *pts,
            *prior,
            rp[r1x] as int,
            rp[r2x] as int,
        ) by {
            let a = rp[r1x] as int;
            let b = rp[r2x] as int;
            assert(spec_rank(*pts, *prior, a) == r1x);
            assert(spec_rank(*pts, *prior, b) == r2x);
            if !beats(*pts, *prior, a, b) {
                assert(beats(*pts, *prior, b, a));
            }
        }
    }
    rp
}

/// Rank slot occupied by seat `p` in `rp`, searching from the bottom slot,
/// with 0 when the seat is absent (matching an in-order fill that lets later
/// writes win).
pub open spec fn slot_of(rp: [usize; 4], p: int) -> int {
    if rp[3] == p {
        3
    } else if rp[2] == p {
        2
    } else if rp[1] == p {
        1
    } else {
        0
    }
}

/// Invert a best-first seat list into a seat-indexed rank vector.
pub fn invert_rank_order(rp: &[usize; 4]) -> (ranks: [usize; 4])
    ensures
        forall|p: int| 0 <= p < 4 ==> #[trigger] ranks[p] as int == slot_of(*rp, p),
{
    let k0: usize = if rp[3] == 0 {
        3
    } else if rp[2] == 0 {
        2
    } else if rp[1] == 0 {
        1
    } else {
        0
    };
    let k1: usize = if rp[3] == 1 {
        3
    } else if rp[2] == 1 {
        2
    } else if rp[1] == 1 {
        1
    } else {
        0
    };
    let k2: usize = if rp[3] == 2 {
        3
    } else if rp[2] == 2 {
        2
    } else if rp[1] == 2 {
        1
    } else {
        0
    };
    let k3: usize = if rp[3] == 3 {
        3
    } else if rp[2] == 3 {
        2
    } else if rp[1] == 3 {
        1
    } else {
        0
    };
    [k0, k1, k2, k3]
}

/// Re-rank consistency law: for a best-first seat list, the inverted
/// seat-indexed ranks form a permutation of the four rank slots, agree with
/// descending final points, and break point ties by descending prior points.
pub proof fn lemma_rerank_consistency(
    rp: [usize; 4],
    pts: [i32; 4],
    prior: [i32; 4],
    ranks: [usize; 4],
)
    requires
        is_rank_order(rp, pts, prior),
        forall|p: int| 0 <= p < 4 ==> #[trigger] ranks[p] as int == slot_of(rp, p),
    ensures
        forall|p: int| 0 <= p < 4 ==> #[trigger] ranks[p] < 4,
        forall|p: int, q: int|
            0 <= p < 4 && 0 <= q < 4 && p != q ==> #[trigger] ranks[p] != #[trigger] ranks[q],
        forall|r: int| 0 <= r < 4 ==> #[trigger] ranks[rp[r] as int] as int == r,
        forall|p: int, q: int|
            0 <= p < 4 && 0 <= q < 4 && pts[p] > pts[q] ==> #[trigger] ranks[p] < #[trigger] ranks[q],
        forall|p: int, q: int|
            0 <= p < 4 && 0 <= q < 4 && pts[p] == pts[q] && prior[p] > prior[q] ==> #[trigger] ranks[p]
                < #[trigger] ranks[q],
{
    assert forall|r: int| 0 <= r < 4 implies #[trigger] ranks[rp[r] as int] as int == r by {
        let p = rp[r] as int;
        if r < 3 && rp[3] == p {
            assert(beats(pts, prior, rp[r] as int, rp[3] as int));
        }
        if r < 2 && rp[2] == p {
            assert(beats(pts, prior, rp[r] as int, rp[2] as int));
        }
        if r < 1 && rp[1] == p {
            assert(beats(pts, prior, rp[r] as int, rp[1] as int));
        }
    }
    assert forall|p: int, q: int|
        0 <= p < 4 && 0 <= q < 4 && pts[p] > pts[q] implies #[trigger] ranks[p]
        < #[trigger] ranks[q] by {
        lemma_rank_order_beats(rp, pts, prior, p, q);
    }
    assert forall|p: int, q: int|
        0 <= p < 4 && 0 <= q < 4 && pts[p] == pts[q] && prior[p] > prior[q] implies #[trigger] ranks[p]
        < #[trigger] ranks[q] by {
        lemma_rank_order_beats(rp, pts, prior, p, q);
    }
}

/// Every seat occupies some rank slot of a best-first list, and a seat that
/// beats another occupies a strictly better slot.
proof fn lemma_rank_order_beats(rp: [usize; 4], pts: [i32; 4], prior: [i32; 4], p: int, q: int)
    requires
        is_rank_order(rp, pts, prior),
        0 <= p < 4,
        0 <= q < 4,
        p != q,
        beats(pts, prior, p, q),
    ensures
        seat_listed(rp, p),
        seat_listed(rp, q),
        slot_of(rp, p) < slot_of(rp, q),
{
    lemma_rank_order_onto(rp, pts, prior);
    assert(rp[slot_of(rp, p)] == p);
    assert(rp[slot_of(rp, q)] == q);
    if slot_of(rp, p) > slot_of(rp, q) {
        assert(beats(pts, prior, q, p));
        assert(false);
    }
}

/// Seat `p` appears somewhere in `rp`.
pub open spec fn seat_listed(rp: [usize; 4], p: int) -> bool {
    rp[0] == p || rp[1] == p || rp[2] == p || rp[3] == p
}

/// A best-first list mentions every seat once.
proof fn lemma_rank_order_onto(rp: [usize; 4], pts: [i32; 4], prior: [i32; 4])
    requires
        is_rank_order(rp, pts, prior),
    ensures
        forall|p: int| 0 <= p < 4 ==> seat_listed(rp, p),
        forall|r: int| 0 <= r < 4 ==> rp[#[trigger] slot_of(rp, rp[r] as int)] == rp[r],
{
    assert(!beats(pts, prior, rp[0] as int, rp[0] as int));
    assert(rp[0] != rp[1] && rp[0] != rp[2] && rp[0] != rp[3] && rp[1] != rp[2] && rp[1] != rp[3]
        && rp[2] != rp[3]);
}

} // verus!
