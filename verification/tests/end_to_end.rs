use distance_db_populator::catalog::build_catalog;
use distance_db_populator::common::{GameMode, PublishedFileDetailsSubset, RawLeaderboardEntry,
    RunError, Tag};
use distance_db_populator::fetch::{attach_mode_entries, leaderboard_queries};
use distance_db_populator::identity::{assemble_users, collect_user_ids};
use distance_db_populator::report::{compute_stats, print_error};
use distance_db_populator::common::DistanceData;

const U1: u64 = 42;
const P1: u64 = 101;
const P2: u64 = 102;
const P3: u64 = 103;

/// The full pipeline on a small catalog: two built-in levels (one
/// sprint+challenge, one stunt) and one user-generated sprint level whose
/// leaderboard returns two tied times and a better third one.
#[test]
fn end_to_end_scenario() {
    let sprint_names = vec!["Alpha".to_string()];
    let challenge_names = vec!["Alpha".to_string()];
    let stunt_names = vec!["Beta".to_string()];
    let items = vec![(
        PublishedFileDetailsSubset {
            published_file_id: 900,
            creator: U1,
            filename: "UserLevel.bytes".to_string(),
            file_size: 100,
            title: "User Level".to_string(),
            tags: vec![Tag { tag: "Sprint".to_string() }],
        },
        "{\"title\":\"User Level\"}".to_string(),
    )];
    let mut levels = build_catalog(&sprint_names, &challenge_names, &stunt_names, items);
    assert_eq!(levels.len(), 3);
    assert!(levels[0].is_sprint && levels[0].is_challenge && !levels[0].is_stunt);
    assert!(!levels[1].is_sprint && !levels[1].is_challenge && levels[1].is_stunt);
    assert!(levels[2].is_sprint && !levels[2].is_challenge && !levels[2].is_stunt);

    let queries = leaderboard_queries(&levels, GameMode::Sprint);
    assert_eq!(queries.len(), 2);
    let user_level_index = queries[1].0;
    assert_eq!(user_level_index, 2);

    // The remote service returns the entries best-to-worst for the mode.
    let downloads = vec![
        RawLeaderboardEntry { steam_id: P1, score: 100, has_replay: false },
        RawLeaderboardEntry { steam_id: P2, score: 100, has_replay: false },
        RawLeaderboardEntry { steam_id: P3, score: 80, has_replay: true },
    ];
    attach_mode_entries(&mut levels, user_level_index, GameMode::Sprint, &downloads);

    let stored: Vec<u32> = levels[2].sprint_entries.iter().map(|e| e.rank).collect();
    assert_eq!(stored, vec![1, 1, 3]);

    let ids = collect_user_ids(&levels);
    let mut sorted = ids.clone();
    sorted.sort_unstable();
    assert_eq!(sorted, vec![U1, P1, P2, P3]);

    let names: Vec<Option<String>> = ids
        .iter()
        .map(|id| if *id == U1 { Some("Author".to_string()) } else { None })
        .collect();
    let users = assemble_users(&ids, &names);
    let data = DistanceData { levels, users };

    let stats = compute_stats(&data);
    assert_eq!(stats.total_levels, 3);
    assert_eq!(stats.official_levels, 2);
    assert_eq!(stats.workshop_levels, 1);
    assert_eq!(stats.total_users, 4);
    assert_eq!(stats.sprint_entries, 3);
    assert_eq!(stats.challenge_entries, 0);
    assert_eq!(stats.stunt_entries, 0);
}

#[test]
fn error_chain_renders_one_line_per_cause() {
    let e = RunError {
        message: "error storing data".to_string(),
        causes: vec!["connection reset".to_string(), "timed out".to_string()],
    };
    let lines = print_error(&e);
    assert_eq!(
        lines,
        vec![
            "error storing data".to_string(),
            "connection reset".to_string(),
            "timed out".to_string(),
        ]
    );
}

#[test]
fn stats_of_an_empty_aggregate_are_zero() {
    let stats = compute_stats(&DistanceData::new());
    assert_eq!(stats.total_levels, 0);
    assert_eq!(stats.official_levels, 0);
    assert_eq!(stats.workshop_levels, 0);
    assert_eq!(stats.total_users, 0);
    assert_eq!(stats.sprint_entries, 0);
}
