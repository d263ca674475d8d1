use skillratings::config::EloConfig;
use skillratings::elo::{elo, elo_rating_period, expected_score};
use skillratings::fixed::SCALE;
use skillratings::outcomes::Outcomes;
use skillratings::rating::EloRating;

#[test]
fn test_elo() {
    let (winner_new_elo, loser_new_elo) = elo(
        EloRating { rating: 1000 * SCALE },
        EloRating { rating: 1000 * SCALE },
        Outcomes::WIN,
        &EloConfig::new(),
    );
    assert_eq!(winner_new_elo.rating, 1016 * SCALE);
    assert_eq!(loser_new_elo.rating, 984 * SCALE);

    let (winner_new_elo, loser_new_elo) = elo(
        EloRating { rating: 1000 * SCALE },
        EloRating { rating: 1000 * SCALE },
        Outcomes::LOSS,
        &EloConfig::new(),
    );
    assert_eq!(winner_new_elo.rating, 984 * SCALE);
    assert_eq!(loser_new_elo.rating, 1016 * SCALE);

    let (winner_new_elo, loser_new_elo) = elo(
        EloRating { rating: 1000 * SCALE },
        EloRating { rating: 1000 * SCALE },
        Outcomes::DRAW,
        &EloConfig::new(),
    );
    assert_eq!(winner_new_elo.rating, 1000 * SCALE);
    assert_eq!(loser_new_elo.rating, 1000 * SCALE);

    let (winner_new_elo, loser_new_elo) = elo(
        EloRating { rating: 500 * SCALE },
        EloRating { rating: 1500 * SCALE },
        Outcomes::WIN,
        &EloConfig::default(),
    );
    assert_eq!((winner_new_elo.rating as f64 / SCALE as f64).round(), 532.0);
    assert_eq!((loser_new_elo.rating as f64 / SCALE as f64).round(), 1468.0);
}

#[test]
fn test_elo_rating_period() {
    let player = EloRating::new();

    let opponent1 = EloRating::new();
    let opponent2 = EloRating::new();
    let opponent3 = EloRating::new();

    let new_player = elo_rating_period(
        player,
        &vec![
            (opponent1, Outcomes::WIN),
            (opponent2, Outcomes::WIN),
            (opponent3, Outcomes::WIN),
        ],
        &EloConfig::new(),
    );

    assert_eq!((new_player.rating as f64 / SCALE as f64).round(), 1046.0);
}

#[test]
fn test_expected_score() {
    let player_one = EloRating::new();
    let player_two = EloRating::default();

    let (winner_expected, loser_expected) = expected_score(player_one, player_two);

    assert_eq!(winner_expected, SCALE / 2);
    assert_eq!(loser_expected, SCALE / 2);

    let player_one = EloRating { rating: 2251 * SCALE };
    let player_two = EloRating { rating: 1934 * SCALE };

    let (winner_expected, loser_expected) = expected_score(player_one, player_two);

    assert_eq!((winner_expected as f64 / SCALE as f64 * 100.0).round(), 86.0);
    assert_eq!((loser_expected as f64 / SCALE as f64 * 100.0).round(), 14.0);

    assert_eq!(winner_expected + loser_expected, SCALE);
}

#[test]
fn test_expected_score_example() {
    let (winner_expected, loser_expected) = expected_score(
        EloRating { rating: 1320 * SCALE },
        EloRating { rating: 1217 * SCALE },
    );
    assert_eq!((winner_expected as f64 / SCALE as f64 * 100.0).round(), 64.0);
    assert_eq!((loser_expected as f64 / SCALE as f64 * 100.0).round(), 36.0);
    assert_eq!(winner_expected, 644_034);
    assert_eq!(loser_expected, 355_966);
}

#[test]
fn test_expected_score_sums_to_one() {
    let pairs = [
        (743_200_000_i64, 1_891_700_000_i64),
        (-5_000_000_000, 2_000_000_000),
        (0, 0),
        (1_000_000, 999_999),
        (12_345_678_901, -98_765_432_109),
    ];
    for (a, b) in pairs {
        let (one, two) = expected_score(EloRating { rating: a }, EloRating { rating: b });
        assert_eq!(one + two, SCALE);
        assert!(0 <= one && one <= SCALE);
    }
}

#[test]
fn test_expected_score_huge_gap() {
    let (winner_expected, loser_expected) = expected_score(
        EloRating { rating: 5000 * SCALE },
        EloRating { rating: 1000 * SCALE },
    );
    assert_eq!(winner_expected, SCALE);
    assert_eq!(loser_expected, 0);
}

#[test]
fn test_elo_zero_sum() {
    let config = EloConfig::new();
    let cases = [
        (743_200_000_i64, 1_891_700_000_i64, Outcomes::WIN),
        (743_200_000, 1_891_700_000, Outcomes::LOSS),
        (743_200_000, 1_891_700_000, Outcomes::DRAW),
        (-2_500_000_000, 77_000_000, Outcomes::WIN),
    ];
    for (a, b, outcome) in cases {
        let (a2, b2) = elo(
            EloRating { rating: a },
            EloRating { rating: b },
            outcome,
            &config,
        );
        assert_eq!(a2.rating - a, -(b2.rating - b));
        assert_eq!(a2.rating + b2.rating, a + b);
    }
}

#[test]
fn test_elo_symmetry() {
    let config = EloConfig::new();
    let a = EloRating { rating: 743_200_000 };
    let b = EloRating { rating: 1_891_700_000 };

    let (a_win_a, a_win_b) = elo(a, b, Outcomes::WIN, &config);
    let (b_loss_b, b_loss_a) = elo(b, a, Outcomes::LOSS, &config);
    assert_eq!(a_win_a, b_loss_a);
    assert_eq!(a_win_b, b_loss_b);

    let (a_draw_a, a_draw_b) = elo(a, b, Outcomes::DRAW, &config);
    let (b_draw_b, b_draw_a) = elo(b, a, Outcomes::DRAW, &config);
    assert_eq!(a_draw_a, b_draw_a);
    assert_eq!(a_draw_b, b_draw_b);
}

#[test]
fn test_elo_rating_period_empty() {
    let player = EloRating { rating: 1_234_567_890 };
    let new_player = elo_rating_period(player, &Vec::new(), &EloConfig::new());
    assert_eq!(new_player, player);
}

#[test]
fn test_elo_rating_period_order_matters() {
    let config = EloConfig::new();
    let strong = EloRating { rating: 1500 * SCALE };
    let weak = EloRating { rating: 500 * SCALE };
    let player = EloRating::new();

    let up_then_down = elo_rating_period(
        player,
        &vec![(strong, Outcomes::WIN), (weak, Outcomes::LOSS)],
        &config,
    );
    let down_then_up = elo_rating_period(
        player,
        &vec![(weak, Outcomes::LOSS), (strong, Outcomes::WIN)],
        &config,
    );
    assert_ne!(up_then_down, down_then_up);
}

#[test]
fn test_defaults() {
    assert_eq!(EloRating::new().rating, 1000 * SCALE);
    assert_eq!(EloRating::default(), EloRating::new());
    assert_eq!(EloConfig::new().k, 32 * SCALE);
    assert_eq!(EloConfig::default(), EloConfig::new());
}

#[test]
fn test_elo_delta_bounded_by_k() {
    let config = EloConfig::new();
    let a = EloRating { rating: 3000 * SCALE };
    let b = EloRating { rating: 200 * SCALE };
    let (a2, b2) = elo(a, b, Outcomes::LOSS, &config);
    assert!((a2.rating - a.rating).abs() <= config.k);
    assert!((b2.rating - b.rating).abs() <= config.k);
    assert_eq!(a2.rating - a.rating, -config.k);
    assert_eq!(b2.rating - b.rating, config.k);
}
