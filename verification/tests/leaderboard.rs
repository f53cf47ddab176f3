//! Tests for the leaderboard: ranking, tie order and per-player collapse.

use rage_platformer::leaderboard::{Leaderboard, Score};

fn score(player: &str, points: u32) -> Score {
    Score { player: player.to_string(), score: points }
}

fn names(lb: &Leaderboard) -> Vec<(String, u32)> {
    lb.entries().iter().map(|s| (s.player.clone(), s.score)).collect()
}

#[test]
fn submissions_rank_by_score_descending() {
    let mut lb = Leaderboard::new();
    lb.submit(score("ada", 10));
    lb.submit(score("bo", 20));
    lb.submit(score("cy", 15));
    assert_eq!(
        names(&lb),
        vec![
            ("bo".to_string(), 20),
            ("cy".to_string(), 15),
            ("ada".to_string(), 10),
        ]
    );
}

#[test]
fn tied_submission_ranks_behind_the_earlier_one() {
    let mut lb = Leaderboard::new();
    lb.submit(score("ada", 20));
    lb.submit(score("bo", 20));
    assert_eq!(
        names(&lb),
        vec![("ada".to_string(), 20), ("bo".to_string(), 20)]
    );
}

#[test]
fn lower_score_directly_under_same_player_is_dropped() {
    let mut lb = Leaderboard::new();
    lb.submit(score("bo", 20));
    lb.submit(score("ada", 10));
    lb.submit(score("ada", 15));
    // ada's 15 ranks directly above ada's 10, so the 10 goes.
    assert_eq!(
        names(&lb),
        vec![("bo".to_string(), 20), ("ada".to_string(), 15)]
    );
    // A worse submission lands directly under ada's 15 and is dropped.
    lb.submit(score("ada", 5));
    assert_eq!(
        names(&lb),
        vec![("bo".to_string(), 20), ("ada".to_string(), 15)]
    );
}

#[test]
fn same_player_survives_when_not_consecutive() {
    let mut lb = Leaderboard::new();
    lb.submit(score("bo", 20));
    lb.submit(score("ada", 15));
    lb.submit(score("ada", 25));
    // Only consecutive entries collapse: with bo's 20 in between, ada keeps
    // two entries.
    assert_eq!(
        names(&lb),
        vec![
            ("ada".to_string(), 25),
            ("bo".to_string(), 20),
            ("ada".to_string(), 15),
        ]
    );
}

#[test]
fn empty_leaderboard_takes_first_score() {
    let mut lb = Leaderboard::new();
    assert!(lb.entries().is_empty());
    lb.submit(score("ada", 0));
    assert_eq!(names(&lb), vec![("ada".to_string(), 0)]);
}
