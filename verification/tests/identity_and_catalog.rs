use distance_db_populator::catalog::{build_catalog, build_official_levels, workshop_level};
use distance_db_populator::common::{Level, PublishedFileDetailsSubset, ScoreLeaderboardEntry,
    Tag, TimeLeaderboardEntry};
use distance_db_populator::identity::{assemble_users, chunk_user_ids, collect_user_ids,
    NAME_CHUNK_SIZE};

fn details(
    id: i64,
    creator: u64,
    filename: &str,
    size: i64,
    title: &str,
    tags: &[&str],
) -> PublishedFileDetailsSubset {
    PublishedFileDetailsSubset {
        published_file_id: id,
        creator,
        filename: filename.to_string(),
        file_size: size,
        title: title.to_string(),
        tags: tags.iter().map(|t| Tag { tag: t.to_string() }).collect(),
    }
}

fn empty_level(id: i64, name: &str) -> Level {
    Level {
        id,
        name: name.to_string(),
        is_sprint: false,
        is_challenge: false,
        is_stunt: false,
        workshop_level_details: None,
        sprint_entries: Vec::new(),
        challenge_entries: Vec::new(),
        stunt_entries: Vec::new(),
    }
}

#[test]
fn official_levels_merge_mode_flags() {
    let sprint = vec!["Alpha".to_string(), "Gamma".to_string()];
    let challenge = vec!["Alpha".to_string()];
    let stunt = vec!["Beta".to_string()];
    let levels = build_official_levels(&sprint, &challenge, &stunt);

    assert_eq!(levels.len(), 3);
    assert_eq!(levels[0].name, "Alpha");
    assert_eq!(levels[0].id, -1000);
    assert!(levels[0].is_sprint && levels[0].is_challenge && !levels[0].is_stunt);
    assert_eq!(levels[1].name, "Gamma");
    assert_eq!(levels[1].id, -1001);
    assert!(levels[1].is_sprint && !levels[1].is_challenge && !levels[1].is_stunt);
    assert_eq!(levels[2].name, "Beta");
    assert_eq!(levels[2].id, -3000);
    assert!(!levels[2].is_sprint && !levels[2].is_challenge && levels[2].is_stunt);
    assert!(levels.iter().all(|l| l.workshop_level_details.is_none()));
}

#[test]
fn workshop_level_keeps_good_listing() {
    let d = details(777, 42, "Hardline.bytes", 2048, "Hardline", &["Sprint", "Challenge"]);
    let level = workshop_level(d, "{\"raw\":1}".to_string()).expect("listing should be kept");
    assert_eq!(level.id, 777);
    assert_eq!(level.name, "Hardline");
    assert!(level.is_sprint && level.is_challenge && !level.is_stunt);
    let (kept, raw) = level.workshop_level_details.expect("origin metadata kept");
    assert_eq!(kept.creator, 42);
    assert_eq!(raw, "{\"raw\":1}");
}

#[test]
fn workshop_level_discards_corrupt_listings() {
    let no_tags = details(1, 9, "a.bytes", 10, "A", &["Scenery"]);
    assert!(workshop_level(no_tags, String::new()).is_none());

    let empty_file = details(2, 9, "", 10, "B", &["Sprint"]);
    assert!(workshop_level(empty_file, String::new()).is_none());

    let zero_size = details(3, 9, "c.bytes", 0, "C", &["Stunt"]);
    assert!(workshop_level(zero_size, String::new()).is_none());
}

#[test]
fn catalog_combines_official_and_workshop() {
    let sprint = vec!["Alpha".to_string()];
    let challenge = vec!["Alpha".to_string()];
    let stunt = vec!["Beta".to_string()];
    let items = vec![
        (details(900, 42, "User.bytes", 100, "User Level", &["Sprint"]), "{}".to_string()),
        (details(901, 43, "", 100, "Broken", &["Sprint"]), "{}".to_string()),
    ];
    let levels = build_catalog(&sprint, &challenge, &stunt, items);
    assert_eq!(levels.len(), 3);
    assert_eq!(levels[2].id, 900);
    assert!(levels[2].is_sprint && !levels[2].is_challenge && !levels[2].is_stunt);
}

#[test]
fn collected_identifiers_form_the_exact_union() {
    let mut author_level = empty_level(900, "User Level");
    author_level.workshop_level_details = Some((
        details(900, 42, "User.bytes", 100, "User Level", &["Sprint"]),
        "{}".to_string(),
    ));
    author_level.sprint_entries = vec![
        TimeLeaderboardEntry { steam_id: 1, time: 100, rank: 1, has_replay: false },
        TimeLeaderboardEntry { steam_id: 2, time: 100, rank: 1, has_replay: false },
    ];
    let mut stunt_level = empty_level(-3000, "Beta");
    stunt_level.is_stunt = true;
    stunt_level.stunt_entries = vec![
        ScoreLeaderboardEntry { steam_id: 2, score: 500, rank: 1, has_replay: true },
        ScoreLeaderboardEntry { steam_id: 3, score: 400, rank: 2, has_replay: false },
    ];
    let levels = vec![author_level, stunt_level];
    let mut ids = collect_user_ids(&levels);
    ids.sort_unstable();
    assert_eq!(ids, vec![1, 2, 3, 42]);
}

#[test]
fn collecting_from_no_levels_yields_no_identifiers() {
    assert!(collect_user_ids(&Vec::new()).is_empty());
}

#[test]
fn chunks_are_bounded_and_preserve_order() {
    let ids: Vec<u64> = (0..2500u64).collect();
    let chunks = chunk_user_ids(&ids);
    assert_eq!(chunks.len(), 3);
    assert_eq!(chunks[0].len(), NAME_CHUNK_SIZE);
    assert_eq!(chunks[1].len(), NAME_CHUNK_SIZE);
    assert_eq!(chunks[2].len(), 500);
    let rejoined: Vec<u64> = chunks.concat();
    assert_eq!(rejoined, ids);

    assert!(chunk_user_ids(&Vec::new()).is_empty());

    let exactly_full: Vec<u64> = (0..NAME_CHUNK_SIZE as u64).collect();
    let chunks = chunk_user_ids(&exactly_full);
    assert_eq!(chunks.len(), 1);
    assert_eq!(chunks[0].len(), NAME_CHUNK_SIZE);
}

#[test]
fn assembled_users_pair_identifiers_with_names() {
    let ids = vec![10u64, 20, 30];
    let names = vec![Some("Ada".to_string()), None, Some("Grace".to_string())];
    let users = assemble_users(&ids, &names);
    assert_eq!(users.len(), 3);
    assert_eq!(users[0].steam_id, 10);
    assert_eq!(users[0].name, "Ada");
    assert_eq!(users[1].steam_id, 20);
    assert_eq!(users[1].name, "");
    assert_eq!(users[2].name, "Grace");
}
