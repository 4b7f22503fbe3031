use mahjong_last_game::{FinalGameState, GameConfig, GameEnd, GameResult, ScoreCatalog};

fn small_catalog() -> ScoreCatalog {
    ScoreCatalog::new(vec![(300, 500)], vec![500], vec![1000], vec![1500])
}

#[test]
fn test_calc_enumeration_complete() {
    let state = FinalGameState::new(
        [226, -218, 653, -661],
        [154, 349, 199, 298],
        [false; 4],
        0,
        0,
    );
    let results = state.calc(GameConfig::m_league(), &small_catalog());
    assert!(results.no_agari.is_empty());
    for i in 0..4 {
        for j in 0..4 {
            let bucket = &results.agari[i][j];
            assert_eq!(bucket.len(), 1);
            if i == j {
                assert!(matches!(bucket[0].end, GameEnd::Tsumo(_, _)));
            } else {
                assert!(matches!(bucket[0].end, GameEnd::Rong(_)));
            }
        }
    }
}

#[test]
fn test_calc_child_tsumo_bucket() {
    let state = FinalGameState::new(
        [226, -218, 653, -661],
        [154, 349, 199, 298],
        [false; 4],
        0,
        0,
    );
    let results = state.calc(GameConfig::m_league(), &small_catalog());
    // Winner 0 self-draws 300-500: seats 1 and 2 pay 3, the dealer pays 5.
    let r = &results.agari[0][0][0];
    assert!(matches!(r.end, GameEnd::Tsumo(300, 500)));
    assert_eq!(r.scores, [165, 346, 196, 293]);
    assert_eq!(r.points, [-209, 328, 449, -568]);
    assert_eq!(r.rank_people, [2, 1, 0, 3]);
    assert_eq!(r.ranks(), [2, 1, 0, 3]);
}

#[test]
fn test_calc_parent_tsumo_bucket() {
    let state = FinalGameState::new(
        [226, -218, 653, -661],
        [154, 349, 199, 298],
        [false; 4],
        0,
        0,
    );
    let results = state.calc(GameConfig::m_league(), &small_catalog());
    // The dealer self-draws 500 all: every child pays 5.
    let r = &results.agari[3][3][0];
    assert!(matches!(r.end, GameEnd::Tsumo(500, 500)));
    assert_eq!(r.scores, [149, 344, 194, 313]);
    assert_eq!(r.points, [-225, 326, 447, -548]);
    assert_eq!(r.rank_people, [2, 1, 0, 3]);
}

#[test]
fn test_calc_rong_bucket() {
    let state = FinalGameState::new(
        [226, -218, 653, -661],
        [154, 349, 199, 298],
        [false; 4],
        0,
        0,
    );
    let results = state.calc(GameConfig::m_league(), &small_catalog());
    // Winner 0 takes 1000 off seat 1.
    let r = &results.agari[0][1][0];
    assert!(matches!(r.end, GameEnd::Rong(1000)));
    assert_eq!(r.scores, [164, 339, 199, 298]);
    assert_eq!(r.points, [-210, 321, 452, -563]);
}

#[test]
fn test_calc_riichi_stack_deposit() {
    // Seat 0 has a riichi stick out, two repeats are on the counter, and one
    // deposit stick is escrowed.
    let state = FinalGameState::new(
        [0, 0, 0, 0],
        [100, 200, 300, 390],
        [true, false, false, false],
        2,
        1,
    );
    let catalog = ScoreCatalog::new(vec![(300, 500)], vec![500], vec![2600], vec![1500]);
    let results = state.calc(GameConfig::m_league(), &catalog);
    // Winner 1 takes 2600 off seat 2: payment 26 + 3 * 2 = 32, plus seat 0's
    // stick and the 10-unit deposit.
    let r = &results.agari[1][2][0];
    assert!(matches!(r.end, GameEnd::Rong(2600)));
    assert_eq!(r.scores, [90, 252, 268, 390]);
    assert_eq!(r.points, [-510, -148, 68, 590]);
    assert_eq!(r.rank_people, [3, 2, 1, 0]);
    assert_eq!(r.ranks(), [3, 2, 1, 0]);
}

#[test]
fn test_calc_rank_tie_broken_by_prior_points() {
    // Seats 1 and 2 end on equal points; seat 2's higher prior standing
    // ranks it ahead, and equal priors would fall back to the seat index.
    let state = FinalGameState::new(
        [226, -218, 653, -661],
        [154, 349, 199, 298],
        [false; 4],
        0,
        0,
    );
    let results = state.calc(GameConfig::m_league(), &small_catalog());
    for i in 0..4 {
        for j in 0..4 {
            for r in &results.agari[i][j] {
                let ranks = r.ranks();
                // A valid permutation of the four rank slots.
                let mut seen = [false; 4];
                for p in 0..4 {
                    assert!(ranks[p] < 4);
                    assert!(!seen[ranks[p]]);
                    seen[ranks[p]] = true;
                }
                // Consistent with descending points, ties by prior points.
                for p in 0..4 {
                    for q in 0..4 {
                        if r.points[p] > r.points[q] {
                            assert!(ranks[p] < ranks[q]);
                        }
                        if r.points[p] == r.points[q] && state_prior(p) > state_prior(q) {
                            assert!(ranks[p] < ranks[q]);
                        }
                    }
                }
            }
        }
    }
}

fn state_prior(p: usize) -> i32 {
    [226, -218, 653, -661][p]
}

#[test]
fn test_rank_tie_broken_by_prior_points_exact() {
    // After winner 0 takes 1000 off seat 1, seats 2 and 3 land on equal
    // final points (52 each); seat 2's higher prior standing ranks it ahead.
    let state = FinalGameState::new(
        [0, -204, 204, 0],
        [250, 250, 248, 252],
        [false; 4],
        0,
        0,
    );
    let catalog = ScoreCatalog::new(vec![(300, 500)], vec![500], vec![1000], vec![1500]);
    let results = state.calc(GameConfig::m_league(), &catalog);
    let r = &results.agari[0][1][0];
    assert_eq!(r.points, [460, -564, 52, 52]);
    assert_eq!(r.rank_people, [0, 2, 3, 1]);
    assert_eq!(r.ranks(), [0, 3, 1, 2]);
}

#[test]
fn test_rank_tie_broken_by_seat_index_exact() {
    // Seats 2 and 3 tie on both final and prior points; the lower seat
    // index comes first.
    let state = FinalGameState::new([0; 4], [250, 250, 250, 250], [false; 4], 0, 0);
    let catalog = ScoreCatalog::new(vec![(300, 500)], vec![500], vec![1000], vec![1500]);
    let results = state.calc(GameConfig::m_league(), &catalog);
    let r = &results.agari[0][1][0];
    assert_eq!(r.scores, [260, 240, 250, 250]);
    assert_eq!(r.points, [460, -360, -50, -50]);
    assert_eq!(r.rank_people, [0, 2, 3, 1]);
}

#[test]
fn test_ranks_inverts_rank_people() {
    let r = GameResult {
        end: GameEnd::Ryukyoku([false, true, false, true]),
        points: [0, 0, 0, 0],
        scores: [250, 250, 250, 250],
        rank_people: [1, 3, 0, 2],
    };
    assert_eq!(r.ranks(), [2, 0, 3, 1]);
}
