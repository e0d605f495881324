use distance_db_populator::common::{GameMode, Level, PublishedFileDetailsSubset,
    RawLeaderboardEntry, Tag, TimeLeaderboardEntry};
use distance_db_populator::fetch::{attach_mode_entries, download_step, leaderboard_queries,
    lookup_step, ranked_score_entries, ranked_time_entries, LookupDecision, LookupOutcome,
    LEADERBOARD_RETRY_COUNT};
use distance_db_populator::sync::{marker_step, plan_level_sync, plan_sync, MarkerEvent,
    MarkerState, StoredDigests};
use distance_db_populator::common::DistanceData;
use distance_db_populator::digest::{compute_sprint_hash, compute_stunt_hash};

fn raw(steam_id: u64, score: i32, has_replay: bool) -> RawLeaderboardEntry {
    RawLeaderboardEntry { steam_id, score, has_replay }
}

fn empty_level(id: i64, name: &str) -> Level {
    Level {
        id,
        name: name.to_string(),
        is_sprint: false,
        is_challenge: false,
        is_stunt: false,
        workshop_level_details: None,
        sprint_entries: Vec::new(),
        challenge_entries: Vec::new(),
        stunt_entries: Vec::new(),
    }
}

fn no_digests() -> StoredDigests {
    StoredDigests { sprint: None, challenge: None, stunt: None }
}

#[test]
fn queries_skip_ineligible_levels_and_strip_extension() {
    let mut official = empty_level(-1000, "Alpha");
    official.is_sprint = true;
    let mut workshop = empty_level(900, "User Level");
    workshop.is_sprint = true;
    workshop.workshop_level_details = Some((
        PublishedFileDetailsSubset {
            published_file_id: 900,
            creator: 42,
            filename: "UserLevel.bytes".to_string(),
            file_size: 100,
            title: "User Level".to_string(),
            tags: vec![Tag { tag: "Sprint".to_string() }],
        },
        "{}".to_string(),
    ));
    let mut stunt_only = empty_level(-3000, "Beta");
    stunt_only.is_stunt = true;

    let levels = vec![official, workshop, stunt_only];
    let queries = leaderboard_queries(&levels, GameMode::Sprint);
    assert_eq!(queries.len(), 2);
    assert_eq!(queries[0].0, 0);
    assert_eq!(queries[0].1.base, "Alpha");
    assert_eq!(queries[0].1.author, None);
    assert_eq!(queries[1].0, 1);
    assert_eq!(queries[1].1.base, "UserLevel");
    assert_eq!(queries[1].1.author, Some(42));

    let stunt_queries = leaderboard_queries(&levels, GameMode::Stunt);
    assert_eq!(stunt_queries.len(), 1);
    assert_eq!(stunt_queries[0].0, 2);
}

#[test]
fn query_base_of_a_short_file_reference_is_empty() {
    let mut workshop = empty_level(901, "Tiny");
    workshop.is_sprint = true;
    workshop.workshop_level_details = Some((
        PublishedFileDetailsSubset {
            published_file_id: 901,
            creator: 9,
            filename: "x.y".to_string(),
            file_size: 5,
            title: "Tiny".to_string(),
            tags: vec![Tag { tag: "Sprint".to_string() }],
        },
        "{}".to_string(),
    ));
    let levels = vec![workshop];
    let queries = leaderboard_queries(&levels, GameMode::Sprint);
    assert_eq!(queries.len(), 1);
    assert_eq!(queries[0].1.base, "");
}

#[test]
fn lookup_decisions_follow_the_retry_policy() {
    assert_eq!(lookup_step(0, LookupOutcome::Found), LookupDecision::Proceed);
    assert_eq!(lookup_step(0, LookupOutcome::NotFoundRetryable), LookupDecision::Retry);
    assert_eq!(
        lookup_step(LEADERBOARD_RETRY_COUNT - 1, LookupOutcome::NotFoundRetryable),
        LookupDecision::Retry
    );
    assert_eq!(
        lookup_step(LEADERBOARD_RETRY_COUNT, LookupOutcome::NotFoundRetryable),
        LookupDecision::Abandon
    );
    assert_eq!(lookup_step(0, LookupOutcome::FatalError), LookupDecision::Abandon);
}

#[test]
fn download_decisions_retry_empty_results() {
    assert!(download_step(0, false));
    assert!(!download_step(0, true));
    assert!(!download_step(LEADERBOARD_RETRY_COUNT - 1, true));
    assert!(download_step(LEADERBOARD_RETRY_COUNT, true));
}

#[test]
fn ranked_entries_carry_competition_ranks() {
    let downloads = vec![raw(1, 100, false), raw(2, 100, true), raw(3, 80, false)];
    let entries = ranked_time_entries(&downloads);
    assert_eq!(entries.len(), 3);
    assert_eq!(entries[0].rank, 1);
    assert_eq!(entries[1].rank, 1);
    assert_eq!(entries[2].rank, 3);
    assert_eq!(entries[1].steam_id, 2);
    assert_eq!(entries[1].time, 100);
    assert!(entries[1].has_replay);

    let stunt = ranked_score_entries(&downloads);
    assert_eq!(stunt[2].rank, 3);
    assert_eq!(stunt[2].score, 80);
}

#[test]
fn attaching_entries_touches_only_the_target_level() {
    let mut a = empty_level(-1000, "Alpha");
    a.is_sprint = true;
    let mut b = empty_level(-1001, "Gamma");
    b.is_sprint = true;
    let mut levels = vec![a, b];
    let downloads = vec![raw(1, 100, false), raw(3, 80, false)];
    attach_mode_entries(&mut levels, 1, GameMode::Sprint, &downloads);
    assert!(levels[0].sprint_entries.is_empty());
    assert_eq!(levels[1].sprint_entries.len(), 2);
    assert_eq!(levels[1].sprint_entries[0].steam_id, 1);
    assert_eq!(levels[1].name, "Gamma");
    assert!(levels[1].challenge_entries.is_empty());
}

#[test]
fn first_sync_rewrites_every_supported_mode() {
    let mut level = empty_level(900, "User Level");
    level.is_sprint = true;
    level.is_stunt = true;
    level.sprint_entries = vec![TimeLeaderboardEntry {
        steam_id: 1,
        time: 100,
        rank: 1,
        has_replay: false,
    }];
    let plan = plan_level_sync(&level, &no_digests());
    assert_eq!(plan.level_row.id, 900);
    assert!(plan.level_row.is_sprint && plan.level_row.is_stunt);
    let sprint = plan.sprint.expect("sprint pair is stale");
    assert_eq!(sprint.level_id, 900);
    assert_eq!(sprint.rows.len(), 1);
    assert_eq!(sprint.rows[0].steam_id, 1);
    assert_eq!(sprint.rows[0].rank, 1);
    assert_eq!(sprint.new_digest, compute_sprint_hash(&level.sprint_entries));
    let stunt = plan.stunt.expect("stunt pair is stale");
    assert_eq!(stunt.rows.len(), 0);
    assert_eq!(stunt.new_digest, compute_stunt_hash(&level.stunt_entries));
    assert!(plan.challenge.is_none(), "unsupported mode plans nothing");
}

#[test]
fn unchanged_aggregate_plans_no_rewrites_on_the_second_run() {
    let mut level = empty_level(900, "User Level");
    level.is_sprint = true;
    level.is_challenge = true;
    level.sprint_entries = vec![TimeLeaderboardEntry {
        steam_id: 1,
        time: 100,
        rank: 1,
        has_replay: false,
    }];

    let first = plan_level_sync(&level, &no_digests());
    let stored_after_first = StoredDigests {
        sprint: first.sprint.as_ref().map(|r| r.new_digest),
        challenge: first.challenge.as_ref().map(|r| r.new_digest),
        stunt: None,
    };
    let second = plan_level_sync(&level, &stored_after_first);
    assert!(second.sprint.is_none());
    assert!(second.challenge.is_none());
    assert!(second.stunt.is_none());

    let mut changed = level.clone();
    changed.sprint_entries[0].time = 99;
    let third = plan_level_sync(&changed, &stored_after_first);
    assert!(third.sprint.is_some(), "a changed entry set must be rewritten");
    assert!(third.challenge.is_none());
}

#[test]
fn whole_plan_covers_users_and_levels() {
    let mut level = empty_level(-1000, "Alpha");
    level.is_sprint = true;
    let data = DistanceData {
        levels: vec![level],
        users: vec![distance_db_populator::common::User {
            steam_id: 7,
            name: "Ada".to_string(),
        }],
    };
    let stored = vec![no_digests()];
    let plan = plan_sync(&data, &stored);
    assert_eq!(plan.user_rows.len(), 1);
    assert_eq!(plan.user_rows[0].steam_id, 7);
    assert_eq!(plan.user_rows[0].name, "Ada");
    assert_eq!(plan.level_plans.len(), 1);
    assert!(plan.level_plans[0].details_row.is_none());
    assert!(plan.level_plans[0].sprint.is_some());
}

#[test]
fn marker_commits_when_no_row_exists() {
    let mut s = MarkerState::Idle;
    s = marker_step(s, MarkerEvent::InsertIssued);
    assert_eq!(s, MarkerState::InsertAttempted);
    s = marker_step(s, MarkerEvent::InsertSucceeded);
    assert_eq!(s, MarkerState::Committed);
}

#[test]
fn marker_recovers_from_uniqueness_conflict() {
    let events = [
        MarkerEvent::InsertIssued,
        MarkerEvent::InsertConflicted,
        MarkerEvent::NestedRolledBack,
        MarkerEvent::UpdateIssued,
        MarkerEvent::UpdateSucceeded,
    ];
    let mut s = MarkerState::Idle;
    for e in events {
        s = marker_step(s, e);
        assert_ne!(s, MarkerState::Failed, "the conflict path raises no error");
    }
    assert_eq!(s, MarkerState::Committed);
}

#[test]
fn marker_treats_other_errors_as_fatal() {
    let s = marker_step(MarkerState::Idle, MarkerEvent::InsertIssued);
    assert_eq!(marker_step(s, MarkerEvent::InsertFailedOther), MarkerState::Failed);
    let conflicted = marker_step(s, MarkerEvent::InsertConflicted);
    assert_eq!(
        marker_step(conflicted, MarkerEvent::NestedRollbackFailed),
        MarkerState::Failed
    );
    let rolled = marker_step(conflicted, MarkerEvent::NestedRolledBack);
    let updating = marker_step(rolled, MarkerEvent::UpdateIssued);
    assert_eq!(marker_step(updating, MarkerEvent::UpdateFailed), MarkerState::Failed);
}
