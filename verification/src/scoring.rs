//! Rank-based score redistribution.
//!
//! `GameConfig` holds the per-rank point awards (summing to -1000 in the
//! game's fixed-point convention, where one point is 100 currency units and
//! the table's total stake is 1000 units). `to_points` maps a raw score
//! vector plus an escrowed deposit to a zero-sum point vector: seats are
//! ranked by descending score, each tie group's combined rank awards are
//! split by Euclidean floor division, the remainder goes to the lowest seat
//! index in the group, and the deposit (worth 10 units per stick) goes to
//! the group holding first place, split the same way.

use vstd::prelude::*;
use vstd::arithmetic::div_mod::{
    lemma_fundamental_div_mod, lemma_fundamental_div_mod_converse,
    lemma_mod_division_less_than_divisor,
};

verus! {

/// Largest magnitude accepted for a single rank award.
pub const RANK_SCORE_BOUND: i32 = 10_000_000;

/// Largest magnitude accepted for a single raw score handed to `to_points`.
pub const SCORE_BOUND: i32 = 100_000_000;

/// Largest deposit accepted by `to_points`.
pub const DEPOSIT_BOUND: i32 = 10_000_000;

/// Sum of the four entries of a score vector, as a mathematical integer.
pub open spec fn sum4(a: [i32; 4]) -> int {
    a[0] + a[1] + a[2] + a[3]
}

/// Number of seats whose score equals `v`.
pub open spec fn cnt_eq(s: [i32; 4], v: int) -> int {
    (if s[0] == v { 1int } else { 0 }) + (if s[1] == v { 1int } else { 0 })
        + (if s[2] == v { 1int } else { 0 }) + (if s[3] == v { 1int } else { 0 })
}

/// Number of seats whose score is strictly greater than `v`.
pub open spec fn cnt_gt(s: [i32; 4], v: int) -> int {
    (if s[0] > v { 1int } else { 0 }) + (if s[1] > v { 1int } else { 0 })
        + (if s[2] > v { 1int } else { 0 }) + (if s[3] > v { 1int } else { 0 })
}

/// Lowest seat index whose score equals `v` (3 when no seat matches).
pub open spec fn first_eq(s: [i32; 4], v: int) -> int {
    if s[0] == v {
        0
    } else if s[1] == v {
        1
    } else if s[2] == v {
        2
    } else {
        3
    }
}

/// Configuration of the redistribution: the point award for finishing
/// 1st/2nd/3rd/4th by ordinal rank (index 0 is best).
#[derive(Clone, Copy)]
pub struct GameConfig {
    pub rank_scores: [i32; 4],
}

impl GameConfig {
    /// The awards sum to exactly -1000, so that redistribution is zero-sum,
    /// and each award is small enough that all arithmetic stays exact.
    pub open spec fn wf(self) -> bool {
        &&& sum4(self.rank_scores) == -1000
        &&& forall|k: int|
            0 <= k < 4 ==> -RANK_SCORE_BOUND <= #[trigger] self.rank_scores[k] <= RANK_SCORE_BOUND
    }

    /// Sum of the awards of rank slots `0 .. k`.
    pub open spec fn prefix_award(self, k: int) -> int {
        if k <= 0 {
            0
        } else if k == 1 {
            self.rank_scores[0] as int
        } else if k == 2 {
            self.rank_scores[0] + self.rank_scores[1]
        } else if k == 3 {
            self.rank_scores[0] + self.rank_scores[1] + self.rank_scores[2]
        } else {
            self.rank_scores[0] + self.rank_scores[1] + self.rank_scores[2] + self.rank_scores[3]
        }
    }

    pub fn new(rank_scores: [i32; 4]) -> (c: GameConfig)
        requires
            sum4(rank_scores) == -1000,
            forall|k: int|
                0 <= k < 4 ==> -RANK_SCORE_BOUND <= #[trigger] rank_scores[k] <= RANK_SCORE_BOUND,
        ensures
            c.rank_scores == rank_scores,
            c.wf(),
    {
        GameConfig { rank_scores }
    }

    /// The canonical M-League preset.
    pub fn m_league() -> (c: GameConfig)
        ensures
            c.wf(),
            c.rank_scores[0] == 200,
            c.rank_scores[1] == -200,
            c.rank_scores[2] == -400,
            c.rank_scores[3] == -600,
    {
        GameConfig::new([200, -200, -400, -600])
    }
}

/// Combined rank award of the tie group holding value `v`: the group occupies
/// the contiguous block of sorted rank slots starting after the seats with
/// strictly greater scores.
pub open spec fn group_award(cfg: GameConfig, s: [i32; 4], v: int) -> int {
    cfg.prefix_award(cnt_gt(s, v) + cnt_eq(s, v)) - cfg.prefix_award(cnt_gt(s, v))
}

/// Redistribution share of seat `p`: its tie group's award divided evenly
/// (Euclidean), the remainder going to the group's lowest seat index, plus
/// the deposit (10 units per stick) split the same way when the group holds
/// first place.
pub open spec fn seat_share(cfg: GameConfig, s: [i32; 4], deposit: int, p: int) -> int {
    let v = s[p] as int;
    let c = cnt_eq(s, v);
    let a = group_award(cfg, s, v);
    a / c + (if p == first_eq(s, v) {
        a % c
    } else {
        0
    }) + (if cnt_gt(s, v) == 0 {
        (10 * deposit) / c + (if p == first_eq(s, v) {
            (10 * deposit) % c
        } else {
            0
        })
    } else {
        0
    })
}

/// Final point total of seat `p`: its raw score plus its redistribution share.
pub open spec fn point_of(cfg: GameConfig, s: [i32; 4], deposit: int, p: int) -> int {
    s[p] + seat_share(cfg, s, deposit, p)
}

/// Euclidean division with a small positive divisor: returns the quotient
/// and the always-non-negative remainder.
fn div_rem_euclid(a: i64, b: i64) -> (qr: (i64, i64))
    requires
        1 <= b <= 4,
        -1_000_000_000 <= a <= 1_000_000_000,
    ensures
        qr.0 == a as int / b as int,
        qr.1 == a as int % b as int,
        a as int == b * qr.0 + qr.1,
        0 <= qr.1 < b,
{
    proof {
        lemma_fundamental_div_mod(a as int, b as int);
        lemma_mod_division_less_than_divisor(a as int, b as int);
    }
    if a >= 0 {
        (a / b, a % b)
    } else {
        let m = -a;
        let q0 = m / b;
        let r0 = m % b;
        proof {
            lemma_fundamental_div_mod(m as int, b as int);
            lemma_mod_division_less_than_divisor(m as int, b as int);
        }
        if r0 == 0 {
            proof {
                assert(a as int == (-q0) * (b as int) + 0) by (nonlinear_arith)
                    requires
                        m as int == b as int * (q0 as int) + 0,
                        a as int == -(m as int),
                ;
                lemma_fundamental_div_mod_converse(a as int, b as int, -q0 as int, 0);
            }
            (-q0, 0)
        } else {
            proof {
                assert(a as int == (-q0 - 1) * (b as int) + (b - r0)) by (nonlinear_arith)
                    requires
                        m as int == b as int * (q0 as int) + r0 as int,
                        a as int == -(m as int),
                ;
                lemma_fundamental_div_mod_converse(
                    a as int,
                    b as int,
                    -(q0 as int) - 1,
                    b as int - r0 as int,
                );
            }
            (-q0 - 1, b - r0)
        }
    }
}

/// Euclidean division bounds for the small divisors used here.
proof fn lemma_euclid_div_range(a: int, c: int)
    requires
        1 <= c <= 4,
    ensures
        a >= 0 ==> 0 <= a / c <= a,
        a < 0 ==> a - 3 <= a / c <= 0,
        0 <= a % c < c,
{
    lemma_fundamental_div_mod(a, c);
    lemma_mod_division_less_than_divisor(a, c);
    let q = a / c;
    let r = a % c;
    if a >= 0 {
        assert(0 <= q && q <= a) by (nonlinear_arith)
            requires
                a == c * q + r,
                0 <= r < c,
                1 <= c <= 4,
                a >= 0,
        ;
    } else {
        assert(a - 3 <= q && q <= 0) by (nonlinear_arith)
            requires
                a == c * q + r,
                0 <= r < c,
                1 <= c <= 4,
                a < 0,
        ;
    }
}

impl GameConfig {
    /// Executable mirror of `prefix_award`.
    fn prefix_award_exec(&self, k: i32) -> (r: i64)
        requires
            self.wf(),
            0 <= k <= 4,
        ensures
            r as int == self.prefix_award(k as int),
            -40_000_000 <= r <= 40_000_000,
    {
        if k <= 0 {
            0
        } else if k == 1 {
            self.rank_scores[0] as i64
        } else if k == 2 {
            self.rank_scores[0] as i64 + self.rank_scores[1] as i64
        } else if k == 3 {
            self.rank_scores[0] as i64 + self.rank_scores[1] as i64 + self.rank_scores[2] as i64
        } else {
            self.rank_scores[0] as i64 + self.rank_scores[1] as i64 + self.rank_scores[2] as i64
                + self.rank_scores[3] as i64
        }
    }

    /// Final point total of one seat, by the tie-group redistribution rule.
    #[verifier::rlimit(100)]
    fn seat_point(&self, scores: [i32; 4], deposit: i32, p: usize) -> (r: i32)
        requires
            self.wf(),
            0 <= deposit <= DEPOSIT_BOUND,
            p < 4,
            forall|k: int| 0 <= k < 4 ==> -SCORE_BOUND <= #[trigger] scores[k] <= SCORE_BOUND,
        ensures
            r as int == point_of(*self, scores, deposit as int, p as int),
            -300_000_000 <= r <= 300_000_000,
    {
        let v = scores[p];
        let c: i32 = (if scores[0] == v { 1 } else { 0 }) + (if scores[1] == v { 1 } else { 0 })
            + (if scores[2] == v { 1 } else { 0 }) + (if scores[3] == v { 1 } else { 0 });
        let g: i32 = (if scores[0] > v { 1 } else { 0 }) + (if scores[1] > v { 1 } else { 0 })
            + (if scores[2] > v { 1 } else { 0 }) + (if scores[3] > v { 1 } else { 0 });
        let f: usize = if scores[0] == v {
            0
        } else if scores[1] == v {
            1
        } else if scores[2] == v {
            2
        } else {
            3
        };
        proof {
            assert(c == cnt_eq(scores, v as int));
            assert(g == cnt_gt(scores, v as int));
            assert(f as int == first_eq(scores, v as int));
            assert(1 <= c <= 4 && 0 <= g && g + c <= 4);
        }
        let a: i64 = self.prefix_award_exec(g + c) - self.prefix_award_exec(g);
        let qr = div_rem_euclid(a, c as i64);
        proof {
            assert(a as int == group_award(*self, scores, v as int));
            lemma_euclid_div_range(a as int, c as int);
        }
        let mut total: i64 = (scores[p] as i64) + qr.0;
        if p == f {
            total = total + qr.1;
        }
        if g == 0 {
            let qrd = div_rem_euclid(10 * (deposit as i64), c as i64);
            proof {
                lemma_euclid_div_range(10 * (deposit as int), c as int);
            }
            total = total + qrd.0;
            if p == f {
                total = total + qrd.1;
            }
        }
        proof {
            assert(total as int == point_of(*self, scores, deposit as int, p as int));
        }
        total as i32
    }

    /// Redistribute a raw score vector and deposit into final points.
    ///
    /// Every seat's result is pinned by the `point_of` formula, and the four
    /// results sum to exactly zero.
    pub fn to_points(self, scores: [i32; 4], deposit: i32) -> (points: [i32; 4])
        requires
            self.wf(),
            0 <= deposit <= DEPOSIT_BOUND,
            forall|k: int| 0 <= k < 4 ==> -SCORE_BOUND <= #[trigger] scores[k] <= SCORE_BOUND,
            sum4(scores) + 10 * deposit == 1000,
        ensures
            forall|p: int|
                0 <= p < 4 ==> #[trigger] points[p] == point_of(self, scores, deposit as int, p),
            sum4(points) == 0,
            forall|p: int| 0 <= p < 4 ==> -300_000_000 <= #[trigger] points[p] <= 300_000_000,
    {
        let points = [
            self.seat_point(scores, deposit, 0),
            self.seat_point(scores, deposit, 1),
            self.seat_point(scores, deposit, 2),
            self.seat_point(scores, deposit, 3),
        ];
        proof {
            lemma_points_zero_sum(self, scores, deposit as int);
        }
        points
    }
}

/// The shares of the members of one tie group sum to the group's combined
/// rank award, plus the whole deposit when the group holds first place.
proof fn lemma_group_share_total(cfg: GameConfig, s: [i32; 4], deposit: int, v: int)
    requires
        0 <= deposit,
        cnt_eq(s, v) >= 1,
    ensures
        (if s[0] == v {
            seat_share(cfg, s, deposit, 0)
        } else {
            0
        }) + (if s[1] == v {
            seat_share(cfg, s, deposit, 1)
        } else {
            0
        }) + (if s[2] == v {
            seat_share(cfg, s, deposit, 2)
        } else {
            0
        }) + (if s[3] == v {
            seat_share(cfg, s, deposit, 3)
        } else {
            0
        }) == group_award(cfg, s, v) + (if cnt_gt(s, v) == 0 {
            10 * deposit
        } else {
            0
        }),
{
    let c = cnt_eq(s, v);
    let a = group_award(cfg, s, v);
    lemma_fundamental_div_mod(a, c);
    lemma_mod_division_less_than_divisor(a, c);
    lemma_fundamental_div_mod(10 * deposit, c);
    lemma_mod_division_less_than_divisor(10 * deposit, c);
    assert(s[first_eq(s, v)] == v);
    assert(a == c * (a / c) + a % c);
    assert(10 * deposit == c * ((10 * deposit) / c) + (10 * deposit) % c);
    if c == 1 {
        assert(c * (a / c) == a / c) by (nonlinear_arith)
            requires
                c == 1,
        ;
        assert(c * ((10 * deposit) / c) == (10 * deposit) / c) by (nonlinear_arith)
            requires
                c == 1,
        ;
    } else if c == 2 {
        assert(c * (a / c) == a / c + a / c) by (nonlinear_arith)
            requires
                c == 2,
        ;
        assert(c * ((10 * deposit) / c) == (10 * deposit) / c + (10 * deposit) / c)
            by (nonlinear_arith)
            requires
                c == 2,
        ;
    } else if c == 3 {
        assert(c * (a / c) == a / c + a / c + a / c) by (nonlinear_arith)
            requires
                c == 3,
        ;
        assert(c * ((10 * deposit) / c) == (10 * deposit) / c + (10 * deposit) / c + (10 * deposit)
            / c) by (nonlinear_arith)
            requires
                c == 3,
        ;
    } else {
        assert(c == 4);
        assert(c * (a / c) == a / c + a / c + a / c + a / c) by (nonlinear_arith)
            requires
                c == 4,
        ;
        assert(c * ((10 * deposit) / c) == (10 * deposit) / c + (10 * deposit) / c + (10 * deposit)
            / c + (10 * deposit) / c) by (nonlinear_arith)
            requires
                c == 4,
        ;
    }
}

/// Zero-sum law: for every score vector satisfying the deposit identity,
/// the four point totals sum to exactly zero.
pub proof fn lemma_points_zero_sum(cfg: GameConfig, s: [i32; 4], deposit: int)
    requires
        cfg.wf(),
        0 <= deposit,
        sum4(s) + 10 * deposit == 1000,
    ensures
        point_of(cfg, s, deposit, 0) + point_of(cfg, s, deposit, 1) + point_of(cfg, s, deposit, 2)
            + point_of(cfg, s, deposit, 3) == 0,
{
    let v0 = s[0] as int;
    let v1 = s[1] as int;
    let v2 = s[2] as int;
    let v3 = s[3] as int;
    lemma_group_share_total(cfg, s, deposit, v0);
    if v1 != v0 {
        lemma_group_share_total(cfg, s, deposit, v1);
    }
    if v2 != v0 && v2 != v1 {
        lemma_group_share_total(cfg, s, deposit, v2);
    }
    if v3 != v0 && v3 != v1 && v3 != v2 {
        lemma_group_share_total(cfg, s, deposit, v3);
    }
    assert(seat_share(cfg, s, deposit, 0) + seat_share(cfg, s, deposit, 1)
        + seat_share(cfg, s, deposit, 2) + seat_share(cfg, s, deposit, 3) == -1000 + 10
        * deposit);
}

/// Tie-collapse law: when all four scores are equal and no deposit is
/// carried, every seat's final point total is exactly zero.
pub proof fn lemma_tie_collapse(cfg: GameConfig, s: [i32; 4])
    requires
        cfg.wf(),
        s[0] == s[1],
        s[1] == s[2],
        s[2] == s[3],
        sum4(s) == 1000,
    ensures
        forall|p: int| 0 <= p < 4 ==> point_of(cfg, s, 0, p) == 0,
{
    let v = s[0] as int;
    assert(s[0] == 250);
    assert(cnt_eq(s, v) == 4);
    assert(cnt_gt(s, v) == 0);
    assert(group_award(cfg, s, v) == -1000);
    lemma_fundamental_div_mod_converse(-1000, 4, -250, 0);
    lemma_fundamental_div_mod_converse(0, 4, 0, 0);
}

/// Tie-split law for a 2/2 tie without deposit: each pair splits its two
/// combined rank awards evenly, the remainder going to the pair's lower
/// seat index.
pub proof fn lemma_two_two_tie_split(cfg: GameConfig, s: [i32; 4])
    requires
        cfg.wf(),
        s[0] == s[1],
        s[2] == s[3],
        s[0] > s[2],
        sum4(s) == 1000,
    ensures
        ({
            let top = cfg.rank_scores[0] + cfg.rank_scores[1];
            let bottom = cfg.rank_scores[2] + cfg.rank_scores[3];
            &&& point_of(cfg, s, 0, 0) == s[0] + top / 2 + top % 2
            &&& point_of(cfg, s, 0, 1) == s[1] + top / 2
            &&& point_of(cfg, s, 0, 2) == s[2] + bottom / 2 + bottom % 2
            &&& point_of(cfg, s, 0, 3) == s[3] + bottom / 2
        }),
{
    lemma_fundamental_div_mod_converse(0, 2, 0, 0);
    assert(cnt_eq(s, s[0] as int) == 2 && cnt_gt(s, s[0] as int) == 0);
    assert(cnt_eq(s, s[2] as int) == 2 && cnt_gt(s, s[2] as int) == 2);
    assert(group_award(cfg, s, s[0] as int) == cfg.rank_scores[0] + cfg.rank_scores[1]);
    assert(group_award(cfg, s, s[2] as int) == cfg.rank_scores[2] + cfg.rank_scores[3]);
}

/// Deposit-to-leader law: raising the deposit while the scores stay fixed
/// strictly increases the point total of every seat in the leading tie
/// group, and leaves every other seat's total unchanged.
pub proof fn lemma_deposit_to_leader(cfg: GameConfig, s: [i32; 4], d1: int, d2: int)
    requires
        0 <= d1 < d2,
    ensures
        forall|p: int|
            0 <= p < 4 && cnt_gt(s, s[p] as int) == 0 ==> point_of(cfg, s, d1, p) < point_of(
                cfg,
                s,
                d2,
                p,
            ),
        forall|p: int|
            0 <= p < 4 && cnt_gt(s, s[p] as int) != 0 ==> point_of(cfg, s, d1, p) == point_of(
                cfg,
                s,
                d2,
                p,
            ),
{
    assert forall|p: int| 0 <= p < 4 && cnt_gt(s, s[p] as int) == 0 implies point_of(
        cfg,
        s,
        d1,
        p,
    ) < point_of(cfg, s, d2, p) by {
        let v = s[p] as int;
        let c = cnt_eq(s, v);
        assert(1 <= c <= 4);
        lemma_fundamental_div_mod(10 * d1, c);
        lemma_mod_division_less_than_divisor(10 * d1, c);
        lemma_fundamental_div_mod(10 * d2, c);
        lemma_mod_division_less_than_divisor(10 * d2, c);
        let q1 = (10 * d1) / c;
        let r1 = (10 * d1) % c;
        let q2 = (10 * d2) / c;
        let r2 = (10 * d2) % c;
        if c == 1 {
            assert(c * q1 == q1 && c * q2 == q2) by (nonlinear_arith)
                requires
                    c == 1,
            ;
        } else if c == 2 {
            assert(c * q1 == q1 + q1 && c * q2 == q2 + q2) by (nonlinear_arith)
                requires
                    c == 2,
            ;
        } else if c == 3 {
            assert(c * q1 == q1 + q1 + q1 && c * q2 == q2 + q2 + q2) by (nonlinear_arith)
                requires
                    c == 3,
            ;
        } else {
            assert(c * q1 == q1 + q1 + q1 + q1 && c * q2 == q2 + q2 + q2 + q2) by (nonlinear_arith)
                requires
                    c == 4,
            ;
        }
        assert(q2 > q1);
        assert(q2 + r2 > q1 + r1);
    }
}

/// Remainder tie-break law: within a tie group, the lowest seat index
/// receives exactly the division remainder (and the deposit's remainder when
/// the group leads) on top of the floor share every member gets.
pub proof fn lemma_remainder_to_lowest(cfg: GameConfig, s: [i32; 4], deposit: int, p: int, q: int)
    requires
        0 <= p < 4,
        0 <= q < 4,
        p != q,
        s[p] == s[q],
        p == first_eq(s, s[p] as int),
    ensures
        ({
            let v = s[p] as int;
            let c = cnt_eq(s, v);
            let a = group_award(cfg, s, v);
            point_of(cfg, s, deposit, p) - s[p] == (point_of(cfg, s, deposit, q) - s[q]) + a % c
                + (if cnt_gt(s, v) == 0 {
                    (10 * deposit) % c
                } else {
                    0
                })
        }),
{
}

} // verus!
