use mahjong_last_game::GameConfig;

#[test]
fn test_to_points() {
    let config = GameConfig::new([200, -200, -400, -600]);
    assert_eq!(
        config.to_points([453, 426, 182, -61], 0),
        [653, 226, -218, -661],
    );
    assert_eq!(
        config.to_points([383, 274, 184, 159], 0),
        [583, 74, -216, -441],
    );
    assert_eq!(
        config.to_points([237, 263, 263, 237], 0),
        // +0, +0, -500, -500
        [-263, 263, 263, -263],
    );
    assert_eq!(
        config.to_points([263, 263, 232, 232], 1),
        // +0, +0, -500, -500
        // +5, +5, 0, 0
        [268, 268, -268, -268],
    );
    assert_eq!(
        config.to_points([229, 235, 263, 263], 1),
        // +0, +0, -400, -600
        // +5, +5, 0, 0
        [229 - 600, 235 - 400, 268, 268],
    );
    assert_eq!(
        config.to_points([257, 219, 257, 257], 1),
        // -132, -134, -134, -600
        // +4, +3, +3, 0
        [257 - 132 + 4, 219 - 600, 257 - 134 + 3, 257 - 134 + 3],
    );
    assert_eq!(
        config.to_points([209, 257, 257, 257], 2),
        // +8, +6, +6, 0
        [209 - 600, 257 - 132 + 8, 257 - 134 + 6, 257 - 134 + 6],
    );
    assert_eq!(
        config.to_points([257, 257, 257, 199], 3),
        // +10, +10, +10, 0
        [257 - 132 + 10, 257 - 134 + 10, 257 - 134 + 10, 199 - 600],
    );
    assert_eq!(config.to_points([250, 250, 250, 250], 0), [0, 0, 0, 0]);
    assert_eq!(config.to_points([245, 245, 245, 245], 2), [0, 0, 0, 0]);
}

#[test]
fn test_m_league_preset() {
    let config = GameConfig::m_league();
    assert_eq!(
        config.to_points([453, 426, 182, -61], 0),
        [653, 226, -218, -661],
    );
}

#[test]
fn test_zero_sum_assorted() {
    let config = GameConfig::new([300, -100, -500, -700]);
    for (scores, deposit) in [
        ([453, 426, 182, -61], 0),
        ([257, 219, 257, 257], 1),
        ([100, 100, 100, 670], 3),
        ([1000, 0, 0, -10], 1),
    ] {
        let points = config.to_points(scores, deposit);
        assert_eq!(points.iter().sum::<i32>(), 0);
    }
}

#[test]
fn test_tie_collapse_two_two() {
    let config = GameConfig::m_league();
    // A 2/2 tie with no deposit: each pair splits its two rank awards evenly.
    assert_eq!(
        config.to_points([240, 260, 260, 240], 0),
        [-260, 260, 260, -260],
    );
}

#[test]
fn test_deposit_split_among_leaders() {
    let config = GameConfig::m_league();
    // Two seats tied for first share the 20-unit deposit evenly.
    assert_eq!(
        config.to_points([255, 255, 235, 235], 2),
        [265, 265, -265, -265],
    );
}

#[test]
fn test_remainder_goes_to_lowest_seat() {
    let config = GameConfig::m_league();
    // Three-way tie for first: award -400 splits as -134 each with
    // remainder 2 to the lowest seat index of the group.
    assert_eq!(
        config.to_points([300, 300, 300, 100], 0),
        [168, 166, 166, -500],
    );
}
