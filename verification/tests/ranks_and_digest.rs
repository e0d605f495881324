use distance_db_populator::common::{ScoreLeaderboardEntry, TimeLeaderboardEntry};
use distance_db_populator::digest::{compute_challenge_hash, compute_sprint_hash,
    compute_stunt_hash};
use distance_db_populator::ranks::assign_ranks;
use std::hash::{Hash, Hasher};

fn time_entry(steam_id: u64, time: i32, rank: u32, has_replay: bool) -> TimeLeaderboardEntry {
    TimeLeaderboardEntry { steam_id, time, rank, has_replay }
}

#[test]
fn competition_ranks_with_ties() {
    let scores = vec![10, 10, 7, 7, 7, 3];
    let ranks = assign_ranks(&scores);
    assert_eq!(ranks, vec![1, 1, 3, 3, 3, 6]);
}

#[test]
fn competition_ranks_distinct_scores() {
    let scores = vec![50, 40, 30, 20];
    let ranks = assign_ranks(&scores);
    assert_eq!(ranks, vec![1, 2, 3, 4]);
}

#[test]
fn competition_ranks_empty_and_single() {
    assert_eq!(assign_ranks(&Vec::new()), Vec::<u32>::new());
    assert_eq!(assign_ranks(&vec![123]), vec![1]);
}

#[test]
fn competition_ranks_all_tied() {
    let scores = vec![5, 5, 5];
    assert_eq!(assign_ranks(&scores), vec![1, 1, 1]);
}

#[test]
fn digest_is_stable_across_calls() {
    let entries = vec![
        time_entry(11, 100, 1, true),
        time_entry(22, 100, 1, false),
        time_entry(33, 80, 3, false),
    ];
    let again = entries.clone();
    assert_eq!(compute_sprint_hash(&entries), compute_sprint_hash(&again));
    assert_eq!(compute_challenge_hash(&entries), compute_challenge_hash(&again));
}

#[test]
fn digest_changes_with_score_or_replay_flag() {
    let base = vec![time_entry(11, 100, 1, true), time_entry(22, 80, 2, false)];
    let base_digest = compute_sprint_hash(&base);

    let mut changed_score = base.clone();
    changed_score[1].time = 81;
    assert_ne!(base_digest, compute_sprint_hash(&changed_score));

    let mut changed_replay = base.clone();
    changed_replay[0].has_replay = false;
    assert_ne!(base_digest, compute_sprint_hash(&changed_replay));

    let mut changed_participant = base.clone();
    changed_participant[0].steam_id = 12;
    assert_ne!(base_digest, compute_sprint_hash(&changed_participant));
}

#[test]
fn digest_ignores_ranks() {
    let a = vec![time_entry(11, 100, 1, true), time_entry(22, 80, 2, false)];
    let mut b = a.clone();
    b[0].rank = 9;
    b[1].rank = 7;
    assert_eq!(compute_sprint_hash(&a), compute_sprint_hash(&b));
}

#[test]
fn stunt_digest_covers_score_stream() {
    let a = vec![ScoreLeaderboardEntry { steam_id: 5, score: 900, rank: 1, has_replay: true }];
    let mut b = a.clone();
    assert_eq!(compute_stunt_hash(&a), compute_stunt_hash(&b));
    b[0].score = 901;
    assert_ne!(compute_stunt_hash(&a), compute_stunt_hash(&b));
}

/// The library's digest must agree with hashing the same field stream
/// through the fxhash crate, the way the store's digests were produced.
#[test]
fn digest_matches_fxhash_crate() {
    let entries = vec![
        time_entry(7412345, 61234, 1, true),
        time_entry(998, -5, 2, false),
        time_entry(0, 0, 3, false),
    ];
    let mut hasher = fxhash::FxHasher64::default();
    for entry in &entries {
        entry.steam_id.hash(&mut hasher);
        entry.time.hash(&mut hasher);
        entry.has_replay.hash(&mut hasher);
    }
    let expected = hasher.finish() as i64;
    assert_eq!(compute_sprint_hash(&entries), expected);
}

#[test]
fn stunt_digest_matches_fxhash_crate() {
    let entries = vec![
        ScoreLeaderboardEntry { steam_id: 31, score: 12000, rank: 1, has_replay: true },
        ScoreLeaderboardEntry { steam_id: 32, score: -1, rank: 2, has_replay: false },
    ];
    let mut hasher = fxhash::FxHasher64::default();
    for entry in &entries {
        entry.steam_id.hash(&mut hasher);
        entry.score.hash(&mut hasher);
        entry.has_replay.hash(&mut hasher);
    }
    let expected = hasher.finish() as i64;
    assert_eq!(compute_stunt_hash(&entries), expected);
}

#[test]
fn empty_entry_list_digest_matches_fxhash_crate() {
    let hasher = fxhash::FxHasher64::default();
    let expected = hasher.finish() as i64;
    assert_eq!(compute_sprint_hash(&Vec::new()), expected);
}
