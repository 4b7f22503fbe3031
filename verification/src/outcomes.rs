//! Exhaustive enumeration of terminal events of the final game.
//!
//! `FinalGameState::calc` drives every (winner, payer) seat pair and every
//! catalog entry through the scoring transform: payment transfer, riichi
//! stick transfer, deposit absorption, rank redistribution, and re-ranking
//! against prior standings. Results are grouped in a 4x4 structure indexed
//! by winner and payer (diagonal entries are self-draws), each bucket in
//! catalog order.

use vstd::prelude::*;
use vstd::arithmetic::div_mod::{
    lemma_div_is_ordered, lemma_div_pos_is_pos, lemma_fundamental_div_mod_converse,
};

use crate::ranking::{invert_rank_order, is_rank_order, rank_seats, slot_of};
use crate::scoring::{point_of, sum4, GameConfig, SCORE_BOUND};

verus! {

/// Largest magnitude accepted for one seat's carried score or points.
pub const STATE_SCORE_BOUND: i32 = 10_000_000;

/// Largest accepted repeat-counter value.
pub const STACK_BOUND: i32 = 10_000;

/// Largest accepted carried deposit.
pub const STATE_DEPOSIT_BOUND: i32 = 10_000;

/// Largest accepted raw catalog value.
pub const CATALOG_VALUE_BOUND: i32 = 10_000_000;

/// A finite, strictly ascending catalog of non-negative raw point values.
pub open spec fn singles_wf(v: Seq<i32>) -> bool {
    &&& v.len() >= 1
    &&& forall|k: int| 0 <= k < v.len() ==> 0 <= #[trigger] v[k] <= CATALOG_VALUE_BOUND
    &&& forall|k: int| 0 <= k < v.len() - 1 ==> #[trigger] v[k] < v[k + 1]
}

/// A finite catalog of payment pairs, strictly ascending lexicographically.
pub open spec fn pairs_wf(v: Seq<(i32, i32)>) -> bool {
    &&& v.len() >= 1
    &&& forall|k: int|
        0 <= k < v.len() ==> 0 <= (#[trigger] v[k]).0 <= CATALOG_VALUE_BOUND && 0 <= v[k].1
            <= CATALOG_VALUE_BOUND
    &&& forall|k: int|
        0 <= k < v.len() - 1 ==> (#[trigger] v[k]).0 < v[k + 1].0 || (v[k].0 == v[k + 1].0
            && v[k].1 < v[k + 1].1)
}

/// The four event-family catalogs consumed by the enumerator: ordered,
/// duplicate-free sequences of valid raw point values, pre-rounded to the
/// game's currency granularity. Self-draw by a non-dealer yields a pair
/// (non-dealer payment, dealer payment); the other families yield singles.
pub struct ScoreCatalog {
    pub child_tsumo: Vec<(i32, i32)>,
    pub parent_tsumo: Vec<i32>,
    pub child_rong: Vec<i32>,
    pub parent_rong: Vec<i32>,
}

impl ScoreCatalog {
    pub open spec fn wf(self) -> bool {
        &&& pairs_wf(self.child_tsumo@)
        &&& singles_wf(self.parent_tsumo@)
        &&& singles_wf(self.child_rong@)
        &&& singles_wf(self.parent_rong@)
    }

    pub fn new(
        child_tsumo: Vec<(i32, i32)>,
        parent_tsumo: Vec<i32>,
        child_rong: Vec<i32>,
        parent_rong: Vec<i32>,
    ) -> (c: ScoreCatalog)
        requires
            pairs_wf(child_tsumo@),
            singles_wf(parent_tsumo@),
            singles_wf(child_rong@),
            singles_wf(parent_rong@),
        ensures
            c.child_tsumo@ == child_tsumo@,
            c.parent_tsumo@ == parent_tsumo@,
            c.child_rong@ == child_rong@,
            c.parent_rong@ == parent_rong@,
            c.wf(),
    {
        ScoreCatalog { child_tsumo, parent_tsumo, child_rong, parent_rong }
    }
}

/// Snapshot of the match just before the final hand: prior standings
/// (`points`, zero-sum), current raw tallies (`scores`), active riichi
/// side-bets, the repeat counter (`stack`) and the escrowed deposit, tied
/// together by `sum(scores) + 10 * deposit == 1000`.
#[derive(Clone, Copy)]
pub struct FinalGameState {
    pub points: [i32; 4],
    pub scores: [i32; 4],
    pub riichi: [bool; 4],
    pub stack: i32,
    pub deposit: i32,
}

impl FinalGameState {
    pub open spec fn wf(self) -> bool {
        &&& sum4(self.points) == 0
        &&& sum4(self.scores) + 10 * self.deposit == 1000
        &&& 0 <= self.deposit <= STATE_DEPOSIT_BOUND
        &&& 0 <= self.stack <= STACK_BOUND
        &&& forall|k: int|
            0 <= k < 4 ==> -STATE_SCORE_BOUND <= #[trigger] self.scores[k] <= STATE_SCORE_BOUND
        &&& forall|k: int|
            0 <= k < 4 ==> -STATE_SCORE_BOUND <= #[trigger] self.points[k] <= STATE_SCORE_BOUND
    }

    pub fn new(
        points: [i32; 4],
        scores: [i32; 4],
        riichi: [bool; 4],
        stack: i32,
        deposit: i32,
    ) -> (st: FinalGameState)
        requires
            sum4(points) == 0,
            sum4(scores) + 10 * deposit == 1000,
            0 <= deposit <= STATE_DEPOSIT_BOUND,
            0 <= stack <= STACK_BOUND,
            forall|k: int| 0 <= k < 4 ==> -STATE_SCORE_BOUND <= #[trigger] scores[k] <= STATE_SCORE_BOUND,
            forall|k: int| 0 <= k < 4 ==> -STATE_SCORE_BOUND <= #[trigger] points[k] <= STATE_SCORE_BOUND,
        ensures
            st == (FinalGameState { points, scores, riichi, stack, deposit }),
            st.wf(),
    {
        FinalGameState { points, scores, riichi, stack, deposit }
    }
}

/// How the simulated hand ended: a self-draw (non-dealer payment, dealer
/// payment), a discard win (single payment), or a drawn hand with each
/// seat's readiness.
#[derive(Debug)]
pub enum GameEnd {
    Tsumo(i32, i32),
    Rong(i32),
    Ryukyoku([bool; 4]),
}

/// One simulated terminal outcome: the event, the resulting raw scores and
/// final points, and the seats listed best rank first.
#[derive(Debug)]
pub struct GameResult {
    pub end: GameEnd,
    pub points: [i32; 4],
    pub scores: [i32; 4],
    pub rank_people: [usize; 4],
}

impl GameResult {
    /// Seat-indexed ordinal ranks (0 = best): the inverse of `rank_people`.
    pub fn ranks(&self) -> (r: [usize; 4])
        ensures
            forall|p: int| 0 <= p < 4 ==> #[trigger] r[p] as int == slot_of(self.rank_people, p),
    {
        invert_rank_order(&self.rank_people)
    }
}

/// The full enumeration output, indexed `[winner][payer]`; the diagonal
/// holds self-draws. `no_agari` is reserved for externally supplied drawn
/// hands and is left empty by `calc`.
#[derive(Debug)]
pub struct Results {
    pub agari: [[Vec<GameResult>; 4]; 4],
    pub no_agari: Vec<GameResult>,
}

/// Payment owed by seat `j` on a self-draw: the catalog value for its role
/// (dealer pays `y`, non-dealers pay `x`) in point units, plus the repeat
/// counter.
pub open spec fn tsumo_pay(st: FinalGameState, x: int, y: int, j: int) -> int {
    (if j == 3 {
        y
    } else {
        x
    }) / 100 + st.stack
}

/// Total collected by a self-draw winner from the other three seats.
pub open spec fn tsumo_gain(st: FinalGameState, i: int, x: int, y: int) -> int {
    (if i != 0 {
        tsumo_pay(st, x, y, 0)
    } else {
        0
    }) + (if i != 1 {
        tsumo_pay(st, x, y, 1)
    } else {
        0
    }) + (if i != 2 {
        tsumo_pay(st, x, y, 2)
    } else {
        0
    }) + (if i != 3 {
        tsumo_pay(st, x, y, 3)
    } else {
        0
    })
}

/// Riichi sticks collected by the winner from the other seats (its own
/// stick returns to itself and cancels out).
pub open spec fn riichi_gain(st: FinalGameState, i: int) -> int {
    (if i != 0 && st.riichi[0] {
        10int
    } else {
        0
    }) + (if i != 1 && st.riichi[1] {
        10int
    } else {
        0
    }) + (if i != 2 && st.riichi[2] {
        10int
    } else {
        0
    }) + (if i != 3 && st.riichi[3] {
        10int
    } else {
        0
    })
}

/// Riichi stick given up by a non-winning seat.
pub open spec fn riichi_loss(st: FinalGameState, j: int) -> int {
    if st.riichi[j] {
        10int
    } else {
        0
    }
}

/// Seat `j`'s raw score after winner `i` self-draws for `(x, y)`.
pub open spec fn tsumo_score(st: FinalGameState, i: int, x: int, y: int, j: int) -> int {
    if j == i {
        st.scores[j] + tsumo_gain(st, i, x, y) + riichi_gain(st, i) + 10 * st.deposit
    } else {
        st.scores[j] - tsumo_pay(st, x, y, j) - riichi_loss(st, j)
    }
}

/// Payment on a discard win of raw value `v`: point units plus three times
/// the repeat counter.
pub open spec fn rong_pay(st: FinalGameState, v: int) -> int {
    v / 100 + 3 * st.stack
}

/// Seat `k`'s raw score after winner `i` takes a discard win of `v` off
/// seat `j`.
pub open spec fn rong_score(st: FinalGameState, i: int, j: int, v: int, k: int) -> int {
    if k == i {
        st.scores[k] + rong_pay(st, v) + riichi_gain(st, i) + 10 * st.deposit
    } else if k == j {
        st.scores[k] - rong_pay(st, v) - riichi_loss(st, k)
    } else {
        st.scores[k] - riichi_loss(st, k)
    }
}

/// `r` records the outcome of winner `i` self-drawing for `(x, y)`.
pub open spec fn tsumo_result_ok(
    st: FinalGameState,
    cfg: GameConfig,
    i: int,
    x: i32,
    y: i32,
    r: GameResult,
) -> bool {
    &&& r.end == GameEnd::Tsumo(x, y)
    &&& forall|k: int|
        0 <= k < 4 ==> #[trigger] r.scores[k] as int == tsumo_score(st, i, x as int, y as int, k)
    &&& forall|k: int|
        0 <= k < 4 ==> #[trigger] r.points[k] as int == point_of(cfg, r.scores, 0, k)
            + st.points[k]
    &&& is_rank_order(r.rank_people, r.points, st.points)
}

/// `r` records the outcome of winner `i` taking a discard win of `v` off
/// seat `j`.
pub open spec fn rong_result_ok(
    st: FinalGameState,
    cfg: GameConfig,
    i: int,
    j: int,
    v: i32,
    r: GameResult,
) -> bool {
    &&& r.end == GameEnd::Rong(v)
    &&& forall|k: int|
        0 <= k < 4 ==> #[trigger] r.scores[k] as int == rong_score(st, i, j, v as int, k)
    &&& forall|k: int|
        0 <= k < 4 ==> #[trigger] r.points[k] as int == point_of(cfg, r.scores, 0, k)
            + st.points[k]
    &&& is_rank_order(r.rank_people, r.points, st.points)
}

/// A diagonal bucket holds one self-draw result per catalog entry for the
/// winner's role, in catalog order.
pub open spec fn tsumo_bucket_ok(
    st: FinalGameState,
    cfg: GameConfig,
    cat: ScoreCatalog,
    i: int,
    b: Seq<GameResult>,
) -> bool {
    if i == 3 {
        &&& b.len() == cat.parent_tsumo@.len()
        &&& forall|k: int|
            0 <= k < b.len() ==> tsumo_result_ok(
                st,
                cfg,
                i,
                cat.parent_tsumo@[k],
                cat.parent_tsumo@[k],
                #[trigger] b[k],
            )
    } else {
        &&& b.len() == cat.child_tsumo@.len()
        &&& forall|k: int|
            0 <= k < b.len() ==> tsumo_result_ok(
                st,
                cfg,
                i,
                cat.child_tsumo@[k].0,
                cat.child_tsumo@[k].1,
                #[trigger] b[k],
            )
    }
}

/// An off-diagonal bucket holds one discard-win result per catalog entry
/// for the winner's role, in catalog order.
pub open spec fn rong_bucket_ok(
    st: FinalGameState,
    cfg: GameConfig,
    cat: ScoreCatalog,
    i: int,
    j: int,
    b: Seq<GameResult>,
) -> bool {
    if i == 3 {
        &&& b.len() == cat.parent_rong@.len()
        &&& forall|k: int|
            0 <= k < b.len() ==> rong_result_ok(st, cfg, i, j, cat.parent_rong@[k], #[trigger] b[k])
    } else {
        &&& b.len() == cat.child_rong@.len()
        &&& forall|k: int|
            0 <= k < b.len() ==> rong_result_ok(st, cfg, i, j, cat.child_rong@[k], #[trigger] b[k])
    }
}

/// The contract of `calc`: every bucket is fully enumerated and `no_agari`
/// is empty.
pub open spec fn results_ok(
    st: FinalGameState,
    cfg: GameConfig,
    cat: ScoreCatalog,
    res: Results,
) -> bool {
    &&& res.no_agari@.len() == 0
    &&& forall|i: int|
        0 <= i < 4 ==> tsumo_bucket_ok(st, cfg, cat, i, #[trigger] res.agari[i][i]@)
    &&& forall|i: int, j: int|
        0 <= i < 4 && 0 <= j < 4 && i != j ==> rong_bucket_ok(
            st,
            cfg,
            cat,
            i,
            j,
            #[trigger] res.agari[i][j]@,
        )
}

/// Catalog payments stay small: a value at most `CATALOG_VALUE_BOUND` pays
/// out at most 100,000 point units.
proof fn lemma_pay_bound(x: int)
    requires
        0 <= x <= 10_000_000,
    ensures
        0 <= x / 100 <= 100_000,
{
    lemma_div_pos_is_pos(x, 100);
    lemma_div_is_ordered(x, 10_000_000, 100);
    lemma_fundamental_div_mod_converse(10_000_000, 100, 100_000, 0);
}

/// Seat `j`'s raw score after a self-draw, executable.
fn tsumo_score_exec(st: &FinalGameState, i: usize, x: i32, y: i32, j: usize) -> (r: i32)
    requires
        st.wf(),
        i < 4,
        j < 4,
        0 <= x <= CATALOG_VALUE_BOUND,
        0 <= y <= CATALOG_VALUE_BOUND,
    ensures
        r as int == tsumo_score(*st, i as int, x as int, y as int, j as int),
        -11_000_000 <= r <= 11_000_000,
{
    proof {
        lemma_pay_bound(x as int);
        lemma_pay_bound(y as int);
    }
    if j == i {
        let mut gain: i32 = 0;
        if i != 0 {
            gain = gain + (x / 100 + st.stack);
        }
        if i != 1 {
            gain = gain + (x / 100 + st.stack);
        }
        if i != 2 {
            gain = gain + (x / 100 + st.stack);
        }
        if i != 3 {
            gain = gain + (y / 100 + st.stack);
        }
        let mut sticks: i32 = 0;
        if i != 0 && st.riichi[0] {
            sticks = sticks + 10;
        }
        if i != 1 && st.riichi[1] {
            sticks = sticks + 10;
        }
        if i != 2 && st.riichi[2] {
            sticks = sticks + 10;
        }
        if i != 3 && st.riichi[3] {
            sticks = sticks + 10;
        }
        st.scores[j] + gain + sticks + 10 * st.deposit
    } else {
        let pay = (if j == 3 {
            y
        } else {
            x
        }) / 100 + st.stack;
        let loss: i32 = if st.riichi[j] {
            10
        } else {
            0
        };
        st.scores[j] - pay - loss
    }
}

/// Seat `k`'s raw score after a discard win, executable.
fn rong_score_exec(st: &FinalGameState, i: usize, j: usize, v: i32, k: usize) -> (r: i32)
    requires
        st.wf(),
        i < 4,
        j < 4,
        k < 4,
        i != j,
        0 <= v <= CATALOG_VALUE_BOUND,
    ensures
        r as int == rong_score(*st, i as int, j as int, v as int, k as int),
        -11_000_000 <= r <= 11_000_000,
{
    proof {
        lemma_pay_bound(v as int);
    }
    let pay = v / 100 + 3 * st.stack;
    if k == i {
        let mut sticks: i32 = 0;
        if i != 0 && st.riichi[0] {
            sticks = sticks + 10;
        }
        if i != 1 && st.riichi[1] {
            sticks = sticks + 10;
        }
        if i != 2 && st.riichi[2] {
            sticks = sticks + 10;
        }
        if i != 3 && st.riichi[3] {
            sticks = sticks + 10;
        }
        st.scores[k] + pay + sticks + 10 * st.deposit
    } else if k == j {
        let loss: i32 = if st.riichi[k] {
            10
        } else {
            0
        };
        st.scores[k] - pay - loss
    } else {
        let loss: i32 = if st.riichi[k] {
            10
        } else {
            0
        };
        st.scores[k] - loss
    }
}

/// Payment, stick and deposit transfers conserve the pot: after a
/// self-draw the raw scores sum to exactly 1000.
proof fn lemma_tsumo_scores_sum(st: FinalGameState, i: int, x: int, y: int)
    requires
        st.wf(),
        0 <= i < 4,
    ensures
        tsumo_score(st, i, x, y, 0) + tsumo_score(st, i, x, y, 1) + tsumo_score(st, i, x, y, 2)
            + tsumo_score(st, i, x, y, 3) == 1000,
{
}

/// Same conservation for a discard win.
proof fn lemma_rong_scores_sum(st: FinalGameState, i: int, j: int, v: int)
    requires
        st.wf(),
        0 <= i < 4,
        0 <= j < 4,
        i != j,
    ensures
        rong_score(st, i, j, v, 0) + rong_score(st, i, j, v, 1) + rong_score(st, i, j, v, 2)
            + rong_score(st, i, j, v, 3) == 1000,
{
}

/// Redistribute adjusted raw scores, add prior standings, and re-rank.
fn make_result(st: &FinalGameState, cfg: &GameConfig, s: [i32; 4], end: GameEnd) -> (r: GameResult)
    requires
        st.wf(),
        cfg.wf(),
        sum4(s) == 1000,
        forall|k: int| 0 <= k < 4 ==> -SCORE_BOUND <= #[trigger] s[k] <= SCORE_BOUND,
    ensures
        r.end == end,
        r.scores == s,
        forall|k: int|
            0 <= k < 4 ==> #[trigger] r.points[k] as int == point_of(*cfg, s, 0, k)
                + st.points[k],
        is_rank_order(r.rank_people, r.points, st.points),
{
    let base = cfg.to_points(s, 0);
    let pts = [
        base[0] + st.points[0],
        base[1] + st.points[1],
        base[2] + st.points[2],
        base[3] + st.points[3],
    ];
    let rank_people = rank_seats(&pts, &st.points);
    GameResult { end, points: pts, scores: s, rank_people }
}

/// One self-draw outcome.
fn tsumo_result(st: &FinalGameState, cfg: &GameConfig, i: usize, x: i32, y: i32) -> (r: GameResult)
    requires
        st.wf(),
        cfg.wf(),
        i < 4,
        0 <= x <= CATALOG_VALUE_BOUND,
        0 <= y <= CATALOG_VALUE_BOUND,
    ensures
        tsumo_result_ok(*st, *cfg, i as int, x, y, r),
{
    let s = [
        tsumo_score_exec(st, i, x, y, 0),
        tsumo_score_exec(st, i, x, y, 1),
        tsumo_score_exec(st, i, x, y, 2),
        tsumo_score_exec(st, i, x, y, 3),
    ];
    proof {
        lemma_tsumo_scores_sum(*st, i as int, x as int, y as int);
    }
    make_result(st, cfg, s, GameEnd::Tsumo(x, y))
}

/// One discard-win outcome.
fn rong_result(st: &FinalGameState, cfg: &GameConfig, i: usize, j: usize, v: i32) -> (r:
    GameResult)
    requires
        st.wf(),
        cfg.wf(),
        i < 4,
        j < 4,
        i != j,
        0 <= v <= CATALOG_VALUE_BOUND,
    ensures
        rong_result_ok(*st, *cfg, i as int, j as int, v, r),
{
    let s = [
        rong_score_exec(st, i, j, v, 0),
        rong_score_exec(st, i, j, v, 1),
        rong_score_exec(st, i, j, v, 2),
        rong_score_exec(st, i, j, v, 3),
    ];
    proof {
        lemma_rong_scores_sum(*st, i as int, j as int, v as int);
    }
    make_result(st, cfg, s, GameEnd::Rong(v))
}

/// All self-draw outcomes of winner `i`, in catalog order.
fn tsumo_bucket(st: &FinalGameState, cfg: &GameConfig, cat: &ScoreCatalog, i: usize) -> (v: Vec<
    GameResult,
>)
    requires
        st.wf(),
        cfg.wf(),
        cat.wf(),
        i < 4,
    ensures
        tsumo_bucket_ok(*st, *cfg, *cat, i as int, v@),
{
    let mut v: Vec<GameResult> = Vec::new();
    if i == 3 {
        let n = cat.parent_tsumo.len();
        let mut k: usize = 0;
        while k < n
            invariant
                st.wf(),
                cfg.wf(),
                cat.wf(),
                i == 3,
                n == cat.parent_tsumo@.len(),
                k <= n,
                v@.len() == k,
                forall|m: int|
                    0 <= m < k ==> tsumo_result_ok(
                        *st,
                        *cfg,
                        i as int,
                        cat.parent_tsumo@[m],
                        cat.parent_tsumo@[m],
                        #[trigger] v@[m],
                    ),
            decreases n - k,
        {
            let x = cat.parent_tsumo[k];
            let r = tsumo_result(st, cfg, i, x, x);
            v.push(r);
            k = k + 1;
        }
    } else {
        let n = cat.child_tsumo.len();
        let mut k: usize = 0;
        while k < n
            invariant
                st.wf(),
                cfg.wf(),
                cat.wf(),
                i < 3,
                n == cat.child_tsumo@.len(),
                k <= n,
                v@.len() == k,
                forall|m: int|
                    0 <= m < k ==> tsumo_result_ok(
                        *st,
                        *cfg,
                        i as int,
                        cat.child_tsumo@[m].0,
                        cat.child_tsumo@[m].1,
                        #[trigger] v@[m],
                    ),
            decreases n - k,
        {
            let xy = cat.child_tsumo[k];
            let r = tsumo_result(st, cfg, i, xy.0, xy.1);
            v.push(r);
            k = k + 1;
        }
    }
    v
}

/// All discard-win outcomes of winner `i` off seat `j`, in catalog order.
fn rong_bucket(st: &FinalGameState, cfg: &GameConfig, cat: &ScoreCatalog, i: usize, j: usize) -> (
    v: Vec<GameResult>)
    requires
        st.wf(),
        cfg.wf(),
        cat.wf(),
        i < 4,
        j < 4,
        i != j,
    ensures
        rong_bucket_ok(*st, *cfg, *cat, i as int, j as int, v@),
{
    let mut v: Vec<GameResult> = Vec::new();
    if i == 3 {
        let n = cat.parent_rong.len();
        let mut k: usize = 0;
        while k < n
            invariant
                st.wf(),
                cfg.wf(),
                cat.wf(),
                i == 3,
                j < 4,
                i != j,
                n == cat.parent_rong@.len(),
                k <= n,
                v@.len() == k,
                forall|m: int|
                    0 <= m < k ==> rong_result_ok(
                        *st,
                        *cfg,
                        i as int,
                        j as int,
                        cat.parent_rong@[m],
                        #[trigger] v@[m],
                    ),
            decreases n - k,
        {
            let x = cat.parent_rong[k];
            let r = rong_result(st, cfg, i, j, x);
            v.push(r);
            k = k + 1;
        }
    } else {
        let n = cat.child_rong.len();
        let mut k: usize = 0;
        while k < n
            invariant
                st.wf(),
                cfg.wf(),
                cat.wf(),
                i < 3,
                j < 4,
                i != j,
                n == cat.child_rong@.len(),
                k <= n,
                v@.len() == k,
                forall|m: int|
                    0 <= m < k ==> rong_result_ok(
                        *st,
                        *cfg,
                        i as int,
                        j as int,
                        cat.child_rong@[m],
                        #[trigger] v@[m],
                    ),
            decreases n - k,
        {
            let x = cat.child_rong[k];
            let r = rong_result(st, cfg, i, j, x);
            v.push(r);
            k = k + 1;
        }
    }
    v
}

impl FinalGameState {
    /// Enumerate every terminal event reachable from this state: for each
    /// winner, every self-draw catalog entry, and for each (winner, payer)
    /// pair, every discard-win catalog entry.
    pub fn calc(self, config: GameConfig, catalog: &ScoreCatalog) -> (res: Results)
        requires
            self.wf(),
            config.wf(),
            catalog.wf(),
        ensures
            results_ok(self, config, *catalog, res),
    {
        Results {
            agari: [
                [
                    tsumo_bucket(&self, &config, catalog, 0),
                    rong_bucket(&self, &config, catalog, 0, 1),
                    rong_bucket(&self, &config, catalog, 0, 2),
                    rong_bucket(&self, &config, catalog, 0, 3),
                ],
                [
                    rong_bucket(&self, &config, catalog, 1, 0),
                    tsumo_bucket(&self, &config, catalog, 1),
                    rong_bucket(&self, &config, catalog, 1, 2),
                    rong_bucket(&self, &config, catalog, 1, 3),
                ],
                [
                    rong_bucket(&self, &config, catalog, 2, 0),
                    rong_bucket(&self, &config, catalog, 2, 1),
                    tsumo_bucket(&self, &config, catalog, 2),
                    rong_bucket(&self, &config, catalog, 2, 3),
                ],
                [
                    rong_bucket(&self, &config, catalog, 3, 0),
                    rong_bucket(&self, &config, catalog, 3, 1),
                    rong_bucket(&self, &config, catalog, 3, 2),
                    tsumo_bucket(&self, &config, catalog, 3),
                ],
            ],
            no_agari: Vec::new(),
        }
    }
}

/// Enumeration completeness law: every bucket of a `calc` result is
/// non-empty, off-diagonal buckets hold only discard wins, and diagonal
/// buckets hold only self-draws.
pub proof fn lemma_enumeration_complete(
    st: FinalGameState,
    cfg: GameConfig,
    cat: ScoreCatalog,
    res: Results,
)
    requires
        cat.wf(),
        results_ok(st, cfg, cat, res),
    ensures
        forall|i: int, j: int| 0 <= i < 4 && 0 <= j < 4 ==> #[trigger] res.agari[i][j]@.len() > 0,
        forall|i: int, j: int, k: int|
            0 <= i < 4 && 0 <= j < 4 && i != j && 0 <= k < res.agari[i][j]@.len()
                ==> (#[trigger] res.agari[i][j]@[k].end) is Rong,
        forall|i: int, k: int|
            0 <= i < 4 && 0 <= k < res.agari[i][i]@.len() ==> (#[trigger] res.agari[i][i]@[k].end) is Tsumo,
{
}

} // verus!
