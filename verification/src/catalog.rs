//! The catalog builder: merges the fixed per-mode lists of built-in level
//! names into one level per unique name (OR-ing mode flags), then turns the
//! paged user-generated listings into levels, discarding corrupt entries.
//!
//! Built-in levels draw their identifiers from reserved negative ranges
//! (one range per mode), so they can never collide with the non-negative
//! identifiers of user-generated items.

use crate::common::{DetailsModel, GameMode, Level, LevelModel, PublishedFileDetailsSubset};
use vstd::prelude::*;
use vstd::string::{StrSliceExecFns, StringExecFns};

verus! {

/// The identifier range offset of built-in levels first seen under the
/// given mode.
pub open spec fn mode_id_offset(mode: GameMode) -> i64 {
    match mode {
        GameMode::Sprint => -1000i64,
        GameMode::Challenge => -2000i64,
        GameMode::Stunt => -3000i64,
    }
}

/// A fresh built-in level: no origin metadata, no entries, only the given
/// mode flag set.
pub open spec fn official_level_model(name: Seq<char>, id: i64, mode: GameMode) -> LevelModel {
    LevelModel {
        id: id,
        name: name,
        is_sprint: mode == GameMode::Sprint,
        is_challenge: mode == GameMode::Challenge,
        is_stunt: mode == GameMode::Stunt,
        workshop_level_details: None,
        sprint_entries: Seq::empty(),
        challenge_entries: Seq::empty(),
        stunt_entries: Seq::empty(),
    }
}

/// The same level with the given mode flag switched on.
pub open spec fn set_mode_flag(l: LevelModel, mode: GameMode) -> LevelModel {
    LevelModel {
        is_sprint: l.is_sprint || mode == GameMode::Sprint,
        is_challenge: l.is_challenge || mode == GameMode::Challenge,
        is_stunt: l.is_stunt || mode == GameMode::Stunt,
        ..l
    }
}

/// Merging one built-in name into the level set: the first level already
/// carrying the name gets the mode flag OR-ed in; an unseen name becomes a
/// fresh built-in level with the given identifier.
pub open spec fn upsert_official(
    levels: Seq<LevelModel>,
    name: Seq<char>,
    id: i64,
    mode: GameMode,
) -> Seq<LevelModel>
    decreases levels.len(),
{
    if levels.len() == 0 {
        seq![official_level_model(name, id, mode)]
    } else if levels[0].name == name {
        seq![set_mode_flag(levels[0], mode)] + levels.drop_first()
    } else {
        seq![levels[0]] + upsert_official(levels.drop_first(), name, id, mode)
    }
}

/// The level set after merging the first `k` names of one mode's built-in
/// list, with identifiers `offset`, `offset - 1`, ... in list order.
pub open spec fn merge_mode_names(
    levels: Seq<LevelModel>,
    names: Seq<Seq<char>>,
    k: int,
    offset: i64,
    mode: GameMode,
) -> Seq<LevelModel>
    decreases k,
{
    if k <= 0 {
        levels
    } else {
        upsert_official(
            merge_mode_names(levels, names, k - 1, offset, mode),
            names[k - 1],
            (offset - (k - 1)) as i64,
            mode,
        )
    }
}

/// The full built-in catalog: the three per-mode name lists merged in
/// order, sprint first.
pub open spec fn official_catalog(
    sprint: Seq<Seq<char>>,
    challenge: Seq<Seq<char>>,
    stunt: Seq<Seq<char>>,
) -> Seq<LevelModel> {
    merge_mode_names(
        merge_mode_names(
            merge_mode_names(Seq::empty(), sprint, sprint.len() as int, -1000i64, GameMode::Sprint),
            challenge,
            challenge.len() as int,
            -2000i64,
            GameMode::Challenge,
        ),
        stunt,
        stunt.len() as int,
        -3000i64,
        GameMode::Stunt,
    )
}

/// When the name sits first at position `j`, the merge updates exactly that
/// level.
proof fn lemma_upsert_found(levels: Seq<LevelModel>, name: Seq<char>, id: i64, mode: GameMode, j: int)
    requires
        0 <= j < levels.len(),
        levels[j].name == name,
        forall|k: int| 0 <= k < j ==> (#[trigger] levels[k]).name != name,
    ensures
        upsert_official(levels, name, id, mode) =~= levels.update(j, set_mode_flag(levels[j], mode)),
    decreases levels.len(),
{
    if j == 0 {
        assert(seq![set_mode_flag(levels[0], mode)] + levels.drop_first() =~= levels.update(
            0,
            set_mode_flag(levels[0], mode),
        ));
    } else {
        assert(levels[0].name != name);
        lemma_upsert_found(levels.drop_first(), name, id, mode, j - 1);
        assert(seq![levels[0]] + levels.drop_first().update(
            j - 1,
            set_mode_flag(levels.drop_first()[j - 1], mode),
        ) =~= levels.update(j, set_mode_flag(levels[j], mode)));
    }
}

/// When no level carries the name, the merge appends a fresh level.
proof fn lemma_upsert_absent(levels: Seq<LevelModel>, name: Seq<char>, id: i64, mode: GameMode)
    requires
        forall|k: int| 0 <= k < levels.len() ==> (#[trigger] levels[k]).name != name,
    ensures
        upsert_official(levels, name, id, mode) =~= levels.push(
            official_level_model(name, id, mode),
        ),
    decreases levels.len(),
{
    if levels.len() == 0 {
    } else {
        lemma_upsert_absent(levels.drop_first(), name, id, mode);
        assert(seq![levels[0]] + levels.drop_first().push(official_level_model(name, id, mode))
            =~= levels.push(official_level_model(name, id, mode)));
    }
}

/// The position of the first level carrying the name, if any.
fn find_level_index(levels: &Vec<Level>, name: &String) -> (r: Option<usize>)
    ensures
        match r {
            Some(j) => j < levels@.len() && levels.deep_view()[j as int].name == name@
                && forall|k: int| 0 <= k < j ==> (#[trigger] levels.deep_view()[k]).name != name@,
            None => forall|k: int|
                0 <= k < levels@.len() ==> (#[trigger] levels.deep_view()[k]).name != name@,
        },
{
    let mut j: usize = 0;
    while j < levels.len()
        invariant
            j <= levels@.len(),
            forall|k: int| 0 <= k < j ==> (#[trigger] levels.deep_view()[k]).name != name@,
        decreases levels@.len() - j,
    {
        if levels[j].name == *name {
            return Some(j);
        }
        j = j + 1;
    }
    None
}

/// Merges one built-in name into the level vector.
fn upsert_official_level(levels: &mut Vec<Level>, name: &String, id: i64, mode: GameMode)
    ensures
        final(levels).deep_view() == upsert_official(old(levels).deep_view(), name@, id, mode),
{
    let ghost pre = levels.deep_view();
    match find_level_index(levels, name) {
        Some(j) => {
            match mode {
                GameMode::Sprint => {
                    levels[j].is_sprint = true;
                },
                GameMode::Challenge => {
                    levels[j].is_challenge = true;
                },
                GameMode::Stunt => {
                    levels[j].is_stunt = true;
                },
            }
            proof {
                lemma_upsert_found(pre, name@, id, mode, j as int);
                assert(levels.deep_view() =~= pre.update(j as int, set_mode_flag(pre[j as int], mode)));
            }
        },
        None => {
            levels.push(
                Level {
                    id,
                    name: name.clone(),
                    is_sprint: matches!(mode, GameMode::Sprint),
                    is_challenge: matches!(mode, GameMode::Challenge),
                    is_stunt: matches!(mode, GameMode::Stunt),
                    workshop_level_details: None,
                    sprint_entries: Vec::new(),
                    challenge_entries: Vec::new(),
                    stunt_entries: Vec::new(),
                },
            );
            proof {
                lemma_upsert_absent(pre, name@, id, mode);
                assert(levels.deep_view() =~= pre.push(official_level_model(name@, id, mode)));
            }
        },
    }
}

/// Merges one mode's whole built-in name list, assigning identifiers
/// downward from the mode's offset in list order.
fn merge_official_mode(levels: &mut Vec<Level>, names: &Vec<String>, offset: i64, mode: GameMode)
    requires
        names@.len() <= u32::MAX,
        -3000 <= offset <= -1000,
    ensures
        final(levels).deep_view() == merge_mode_names(
            old(levels).deep_view(),
            names.deep_view(),
            names@.len() as int,
            offset,
            mode,
        ),
{
    let ghost base = levels.deep_view();
    let mut k: usize = 0;
    while k < names.len()
        invariant
            k <= names@.len(),
            names@.len() <= u32::MAX,
            -3000 <= offset <= -1000,
            levels.deep_view() == merge_mode_names(
                base,
                names.deep_view(),
                k as int,
                offset,
                mode,
            ),
        decreases names@.len() - k,
    {
        upsert_official_level(levels, &names[k], offset - (k as i64), mode);
        proof {
            assert(names[k as int]@ == names.deep_view()[k as int]);
        }
        k = k + 1;
    }
}

/// Builds the built-in part of the catalog from the three per-mode name
/// lists: one level per unique name, mode flags OR-ed when a name appears
/// under several modes, identifiers from the reserved negative ranges.
pub fn build_official_levels(
    sprint_names: &Vec<String>,
    challenge_names: &Vec<String>,
    stunt_names: &Vec<String>,
) -> (levels: Vec<Level>)
    requires
        sprint_names@.len() <= u32::MAX,
        challenge_names@.len() <= u32::MAX,
        stunt_names@.len() <= u32::MAX,
    ensures
        levels.deep_view() == official_catalog(
            sprint_names.deep_view(),
            challenge_names.deep_view(),
            stunt_names.deep_view(),
        ),
{
    let mut levels: Vec<Level> = Vec::new();
    assert(levels.deep_view() =~= Seq::<LevelModel>::empty());
    merge_official_mode(&mut levels, sprint_names, -1000, GameMode::Sprint);
    merge_official_mode(&mut levels, challenge_names, -2000, GameMode::Challenge);
    merge_official_mode(&mut levels, stunt_names, -3000, GameMode::Stunt);
    levels
}

/// Merging a fresh built-in level with a negative identifier keeps every
/// identifier negative and every level free of origin metadata.
proof fn lemma_upsert_keeps_reserved(
    levels: Seq<LevelModel>,
    name: Seq<char>,
    id: i64,
    mode: GameMode,
)
    requires
        id < 0,
        forall|i: int|
            0 <= i < levels.len() ==> (#[trigger] levels[i]).id < 0
                && levels[i].workshop_level_details is None,
    ensures
        forall|i: int|
            0 <= i < upsert_official(levels, name, id, mode).len() ==> (#[trigger] upsert_official(
                levels,
                name,
                id,
                mode,
            )[i]).id < 0 && upsert_official(levels, name, id, mode)[i].workshop_level_details
                is None,
    decreases levels.len(),
{
    if levels.len() == 0 {
    } else if levels[0].name == name {
    } else {
        assert(levels.drop_first().len() == levels.len() - 1);
        assert(forall|i: int|
            0 <= i < levels.drop_first().len() ==> (#[trigger] levels.drop_first()[i]).id < 0
                && levels.drop_first()[i].workshop_level_details is None);
        lemma_upsert_keeps_reserved(levels.drop_first(), name, id, mode);
    }
}

/// Merging one mode's whole name list keeps the reserved range intact.
proof fn lemma_merge_keeps_reserved(
    levels: Seq<LevelModel>,
    names: Seq<Seq<char>>,
    k: int,
    offset: i64,
    mode: GameMode,
)
    requires
        0 <= k <= names.len() <= u32::MAX,
        -3000 <= offset <= -1000,
        forall|i: int|
            0 <= i < levels.len() ==> (#[trigger] levels[i]).id < 0
                && levels[i].workshop_level_details is None,
    ensures
        forall|i: int|
            0 <= i < merge_mode_names(levels, names, k, offset, mode).len() ==> (
            #[trigger] merge_mode_names(levels, names, k, offset, mode)[i]).id < 0
                && merge_mode_names(levels, names, k, offset, mode)[i].workshop_level_details
                is None,
    decreases k,
{
    if k > 0 {
        lemma_merge_keeps_reserved(levels, names, k - 1, offset, mode);
        assert(offset - (k - 1) >= -3000 - 0xffff_ffff);
        assert((offset - (k - 1)) as i64 == offset - (k - 1));
        lemma_upsert_keeps_reserved(
            merge_mode_names(levels, names, k - 1, offset, mode),
            names[k - 1],
            (offset - (k - 1)) as i64,
            mode,
        );
    }
}

/// Law: every built-in level's identifier lies in the reserved negative
/// range and no built-in level carries origin metadata, so built-in
/// identifiers can never collide with the non-negative identifiers of
/// user-generated catalog items.
pub proof fn lemma_official_ids_reserved(
    sprint: Seq<Seq<char>>,
    challenge: Seq<Seq<char>>,
    stunt: Seq<Seq<char>>,
)
    requires
        sprint.len() <= u32::MAX,
        challenge.len() <= u32::MAX,
        stunt.len() <= u32::MAX,
    ensures
        forall|i: int|
            0 <= i < official_catalog(sprint, challenge, stunt).len() ==> (
            #[trigger] official_catalog(sprint, challenge, stunt)[i]).id < 0 && official_catalog(
                sprint,
                challenge,
                stunt,
            )[i].workshop_level_details is None,
{
    let after_sprint = merge_mode_names(
        Seq::empty(),
        sprint,
        sprint.len() as int,
        -1000i64,
        GameMode::Sprint,
    );
    let after_challenge = merge_mode_names(
        after_sprint,
        challenge,
        challenge.len() as int,
        -2000i64,
        GameMode::Challenge,
    );
    lemma_merge_keeps_reserved(
        Seq::empty(),
        sprint,
        sprint.len() as int,
        -1000i64,
        GameMode::Sprint,
    );
    lemma_merge_keeps_reserved(
        after_sprint,
        challenge,
        challenge.len() as int,
        -2000i64,
        GameMode::Challenge,
    );
    lemma_merge_keeps_reserved(
        after_challenge,
        stunt,
        stunt.len() as int,
        -3000i64,
        GameMode::Stunt,
    );
}

/// Whether no two levels share a name.
pub open spec fn names_unique(levels: Seq<LevelModel>) -> bool {
    forall|i: int, j: int|
        0 <= i < j < levels.len() ==> (#[trigger] levels[i]).name != (#[trigger] levels[j]).name
}

/// Every name in a merge result is either the merged name or a name the
/// level set already had, position for position.
proof fn lemma_upsert_names(levels: Seq<LevelModel>, name: Seq<char>, id: i64, mode: GameMode)
    ensures
        levels.len() <= upsert_official(levels, name, id, mode).len() <= levels.len() + 1,
        forall|i: int|
            0 <= i < upsert_official(levels, name, id, mode).len() ==> ((#[trigger] upsert_official(
                levels,
                name,
                id,
                mode,
            )[i]).name == name || (i < levels.len() && upsert_official(levels, name, id, mode)[i].name
                == levels[i].name)),
    decreases levels.len(),
{
    if levels.len() == 0 {
    } else if levels[0].name == name {
    } else {
        lemma_upsert_names(levels.drop_first(), name, id, mode);
    }
}

/// Merging one built-in name never makes two levels share a name.
proof fn lemma_upsert_keeps_unique(levels: Seq<LevelModel>, name: Seq<char>, id: i64, mode: GameMode)
    requires
        names_unique(levels),
    ensures
        names_unique(upsert_official(levels, name, id, mode)),
    decreases levels.len(),
{
    let merged = upsert_official(levels, name, id, mode);
    if levels.len() == 0 {
    } else if levels[0].name == name {
        assert forall|i: int, j: int| 0 <= i < j < merged.len() implies (#[trigger] merged[i]).name
            != (#[trigger] merged[j]).name by {
            assert(merged[i].name == levels[i].name);
            assert(merged[j].name == levels[j].name);
        }
    } else {
        let rest = levels.drop_first();
        assert(names_unique(rest)) by {
            assert forall|i: int, j: int| 0 <= i < j < rest.len() implies (#[trigger] rest[i]).name
                != (#[trigger] rest[j]).name by {
                assert(rest[i] == levels[i + 1]);
                assert(rest[j] == levels[j + 1]);
            }
        }
        lemma_upsert_keeps_unique(rest, name, id, mode);
        lemma_upsert_names(rest, name, id, mode);
        let rest_merged = upsert_official(rest, name, id, mode);
        assert forall|i: int, j: int| 0 <= i < j < merged.len() implies (#[trigger] merged[i]).name
            != (#[trigger] merged[j]).name by {
            if i == 0 {
                assert(merged[0] == levels[0]);
                assert(merged[j] == rest_merged[j - 1]);
                assert(rest_merged[j - 1].name == name || (j - 1 < rest.len() && rest_merged[j
                    - 1].name == rest[j - 1].name));
                if rest_merged[j - 1].name != name {
                    assert(levels[0].name != levels[j].name);
                }
            } else {
                assert(merged[i] == rest_merged[i - 1]);
                assert(merged[j] == rest_merged[j - 1]);
            }
        }
    }
}

/// Merging one mode's whole name list keeps names unique.
proof fn lemma_merge_keeps_unique(
    levels: Seq<LevelModel>,
    names: Seq<Seq<char>>,
    k: int,
    offset: i64,
    mode: GameMode,
)
    requires
        names_unique(levels),
    ensures
        names_unique(merge_mode_names(levels, names, k, offset, mode)),
    decreases k,
{
    if k > 0 {
        lemma_merge_keeps_unique(levels, names, k - 1, offset, mode);
        lemma_upsert_keeps_unique(
            merge_mode_names(levels, names, k - 1, offset, mode),
            names[k - 1],
            (offset - (k - 1)) as i64,
            mode,
        );
    }
}

/// Law: the built-in catalog holds one level per unique name; merging the
/// three per-mode lists never produces two levels with the same name.
pub proof fn lemma_official_names_unique(
    sprint: Seq<Seq<char>>,
    challenge: Seq<Seq<char>>,
    stunt: Seq<Seq<char>>,
)
    ensures
        names_unique(official_catalog(sprint, challenge, stunt)),
{
    let after_sprint = merge_mode_names(
        Seq::empty(),
        sprint,
        sprint.len() as int,
        -1000i64,
        GameMode::Sprint,
    );
    let after_challenge = merge_mode_names(
        after_sprint,
        challenge,
        challenge.len() as int,
        -2000i64,
        GameMode::Challenge,
    );
    lemma_merge_keeps_unique(Seq::empty(), sprint, sprint.len() as int, -1000i64, GameMode::Sprint);
    lemma_merge_keeps_unique(
        after_sprint,
        challenge,
        challenge.len() as int,
        -2000i64,
        GameMode::Challenge,
    );
    lemma_merge_keeps_unique(
        after_challenge,
        stunt,
        stunt.len() as int,
        -3000i64,
        GameMode::Stunt,
    );
}

/// Whether a level supports at least one mode.
pub open spec fn some_mode_set(l: LevelModel) -> bool {
    l.is_sprint || l.is_challenge || l.is_stunt
}

/// Merging a built-in name leaves every level with at least one mode flag.
proof fn lemma_upsert_keeps_some_mode(
    levels: Seq<LevelModel>,
    name: Seq<char>,
    id: i64,
    mode: GameMode,
)
    requires
        forall|i: int| 0 <= i < levels.len() ==> some_mode_set(#[trigger] levels[i]),
    ensures
        forall|i: int|
            0 <= i < upsert_official(levels, name, id, mode).len() ==> some_mode_set(
                #[trigger] upsert_official(levels, name, id, mode)[i],
            ),
    decreases levels.len(),
{
    let merged = upsert_official(levels, name, id, mode);
    assert(some_mode_set(official_level_model(name, id, mode))) by {
        match mode {
            GameMode::Sprint => {},
            GameMode::Challenge => {},
            GameMode::Stunt => {},
        }
    }
    if levels.len() == 0 {
        assert(merged[0] == official_level_model(name, id, mode));
    } else if levels[0].name == name {
        assert forall|i: int| 0 <= i < merged.len() implies some_mode_set(
            #[trigger] merged[i],
        ) by {
            if i == 0 {
                assert(merged[0] == set_mode_flag(levels[0], mode));
                assert(some_mode_set(levels[0]));
            } else {
                assert(merged[i] == levels[i]);
            }
        }
    } else {
        assert(forall|i: int|
            0 <= i < levels.drop_first().len() ==> some_mode_set(
                #[trigger] levels.drop_first()[i],
            ));
        lemma_upsert_keeps_some_mode(levels.drop_first(), name, id, mode);
        let rest_merged = upsert_official(levels.drop_first(), name, id, mode);
        assert forall|i: int| 0 <= i < merged.len() implies some_mode_set(
            #[trigger] merged[i],
        ) by {
            if i == 0 {
                assert(merged[0] == levels[0]);
            } else {
                assert(merged[i] == rest_merged[i - 1]);
            }
        }
    }
}

/// Merging one mode's whole name list leaves every level with at least one
/// mode flag.
proof fn lemma_merge_keeps_some_mode(
    levels: Seq<LevelModel>,
    names: Seq<Seq<char>>,
    k: int,
    offset: i64,
    mode: GameMode,
)
    requires
        forall|i: int| 0 <= i < levels.len() ==> some_mode_set(#[trigger] levels[i]),
    ensures
        forall|i: int|
            0 <= i < merge_mode_names(levels, names, k, offset, mode).len() ==> some_mode_set(
                #[trigger] merge_mode_names(levels, names, k, offset, mode)[i],
            ),
    decreases k,
{
    if k > 0 {
        lemma_merge_keeps_some_mode(levels, names, k - 1, offset, mode);
        lemma_upsert_keeps_some_mode(
            merge_mode_names(levels, names, k - 1, offset, mode),
            names[k - 1],
            (offset - (k - 1)) as i64,
            mode,
        );
    }
}

/// Law: every level of the unified catalog supports at least one mode.  A
/// built-in level is created under the mode whose list names it; a
/// user-generated listing survives the filter only with a mode tag.
pub proof fn lemma_catalog_levels_have_a_mode(
    sprint: Seq<Seq<char>>,
    challenge: Seq<Seq<char>>,
    stunt: Seq<Seq<char>>,
    items: Seq<(DetailsModel, Seq<char>)>,
)
    ensures
        forall|i: int|
            0 <= i < official_catalog(sprint, challenge, stunt).len() ==> some_mode_set(
                #[trigger] official_catalog(sprint, challenge, stunt)[i],
            ),
        forall|i: int|
            0 <= i < workshop_levels_of(items, items.len() as int).len() ==> some_mode_set(
                #[trigger] workshop_levels_of(items, items.len() as int)[i],
            ),
{
    let after_sprint = merge_mode_names(
        Seq::empty(),
        sprint,
        sprint.len() as int,
        -1000i64,
        GameMode::Sprint,
    );
    let after_challenge = merge_mode_names(
        after_sprint,
        challenge,
        challenge.len() as int,
        -2000i64,
        GameMode::Challenge,
    );
    lemma_merge_keeps_some_mode(
        Seq::empty(),
        sprint,
        sprint.len() as int,
        -1000i64,
        GameMode::Sprint,
    );
    lemma_merge_keeps_some_mode(
        after_sprint,
        challenge,
        challenge.len() as int,
        -2000i64,
        GameMode::Challenge,
    );
    lemma_merge_keeps_some_mode(
        after_challenge,
        stunt,
        stunt.len() as int,
        -3000i64,
        GameMode::Stunt,
    );
    lemma_workshop_levels_have_a_mode(items, items.len() as int);
}

/// Every level a listing batch produces carries at least one mode flag.
proof fn lemma_workshop_levels_have_a_mode(items: Seq<(DetailsModel, Seq<char>)>, k: int)
    ensures
        forall|i: int|
            0 <= i < workshop_levels_of(items, k).len() ==> some_mode_set(
                #[trigger] workshop_levels_of(items, k)[i],
            ),
    decreases k,
{
    if k > 0 {
        lemma_workshop_levels_have_a_mode(items, k - 1);
        let prev = workshop_levels_of(items, k - 1);
        let produced = workshop_levels_of(items, k);
        assert forall|i: int| 0 <= i < produced.len() implies some_mode_set(
            #[trigger] produced[i],
        ) by {
            if i < prev.len() {
                assert(produced[i] == prev[i]);
            } else {
                assert(workshop_level_accepted(items[k - 1].0));
                assert(produced[i] == workshop_level_model(items[k - 1].0, items[k - 1].1));
            }
        }
    }
}

/// Whether a tag list carries the given tag.
pub open spec fn has_tag(tags: Seq<Seq<char>>, t: Seq<char>) -> bool {
    exists|i: int| 0 <= i < tags.len() && tags[i] == t
}

/// Whether a user-generated listing survives the corruption filter: it
/// carries at least one mode tag, a non-empty content file reference, and a
/// positive file size.
pub open spec fn workshop_level_accepted(d: DetailsModel) -> bool {
    (has_tag(d.tags, "Sprint"@) || has_tag(d.tags, "Challenge"@) || has_tag(d.tags, "Stunt"@))
        && d.filename.len() > 0 && d.file_size > 0
}

/// The level a retained user-generated listing becomes: mode flags from its
/// tags, origin metadata kept, no entries yet.
pub open spec fn workshop_level_model(d: DetailsModel, raw: Seq<char>) -> LevelModel {
    LevelModel {
        id: d.published_file_id,
        name: d.title,
        is_sprint: has_tag(d.tags, "Sprint"@),
        is_challenge: has_tag(d.tags, "Challenge"@),
        is_stunt: has_tag(d.tags, "Stunt"@),
        workshop_level_details: Some((d, raw)),
        sprint_entries: Seq::empty(),
        challenge_entries: Seq::empty(),
        stunt_entries: Seq::empty(),
    }
}

/// Whether the tag vector carries the given tag string.
fn tags_contain(tags: &Vec<crate::common::Tag>, t: &String) -> (r: bool)
    ensures
        r == has_tag(tags.deep_view(), t@),
{
    let mut i: usize = 0;
    while i < tags.len()
        invariant
            i <= tags@.len(),
            forall|k: int| 0 <= k < i ==> (#[trigger] tags.deep_view()[k]) != t@,
        decreases tags@.len() - i,
    {
        if tags[i].tag == *t {
            assert(tags.deep_view()[i as int] == t@);
            return true;
        }
        i = i + 1;
    }
    false
}

/// Turns one user-generated listing into a level, or discards it: corrupt
/// listings (no mode tag, empty content reference, non-positive size) yield
/// `None`.
pub fn workshop_level(details: PublishedFileDetailsSubset, raw_details: String) -> (r: Option<
    Level,
>)
    ensures
        match r {
            Some(l) => workshop_level_accepted(details@) && l@ == workshop_level_model(
                details@,
                raw_details@,
            ),
            None => !workshop_level_accepted(details@),
        },
{
    let sprint_tag = String::from_str("Sprint");
    let challenge_tag = String::from_str("Challenge");
    let stunt_tag = String::from_str("Stunt");
    let is_sprint = tags_contain(&details.tags, &sprint_tag);
    let is_challenge = tags_contain(&details.tags, &challenge_tag);
    let is_stunt = tags_contain(&details.tags, &stunt_tag);
    if (is_sprint || is_challenge || is_stunt) && details.filename.as_str().unicode_len() > 0
        && details.file_size > 0 {
        let id = details.published_file_id;
        let name = details.title.clone();
        Some(
            Level {
                id,
                name,
                is_sprint,
                is_challenge,
                is_stunt,
                workshop_level_details: Some((details, raw_details)),
                sprint_entries: Vec::new(),
                challenge_entries: Vec::new(),
                stunt_entries: Vec::new(),
            },
        )
    } else {
        None
    }
}

/// The levels the first `k` user-generated listings produce, in listing
/// order, corrupt ones discarded.
pub open spec fn workshop_levels_of(
    items: Seq<(DetailsModel, Seq<char>)>,
    k: int,
) -> Seq<LevelModel>
    decreases k,
{
    if k <= 0 {
        Seq::empty()
    } else {
        workshop_levels_of(items, k - 1) + (if workshop_level_accepted(items[k - 1].0) {
            seq![workshop_level_model(items[k - 1].0, items[k - 1].1)]
        } else {
            Seq::empty()
        })
    }
}

/// Appends the levels of a batch of user-generated listings to the level
/// vector, in listing order, discarding corrupt listings.
pub fn append_workshop_levels(
    levels: &mut Vec<Level>,
    items: Vec<(PublishedFileDetailsSubset, String)>,
)
    ensures
        final(levels).deep_view() == old(levels).deep_view() + workshop_levels_of(
            items.deep_view(),
            items@.len() as int,
        ),
{
    let ghost base = levels.deep_view();
    let ghost items_view = items.deep_view();
    let n = items.len();
    let mut rest = items;
    let mut k: usize = 0;
    while k < n
        invariant
            k <= n,
            n == items_view.len(),
            rest@.len() == n - k,
            forall|t: int| 0 <= t < n - k ==> #[trigger] rest.deep_view()[t] == items_view[k + t],
            levels.deep_view() == base + workshop_levels_of(items_view, k as int),
        decreases n - k,
    {
        let ghost pre = levels.deep_view();
        let ghost rest_pre = rest@;
        let ghost rest_deep_pre = rest.deep_view();
        let item = rest.remove(0);
        let ghost item_view = (item.0@, item.1@);
        proof {
            assert(item == rest_pre[0]);
            assert(rest_deep_pre[0] == rest_pre[0].deep_view());
            assert(item_view == items_view[k as int]);
            assert forall|t: int| 0 <= t < n - (k + 1) implies #[trigger] rest.deep_view()[t]
                == items_view[k + 1 + t] by {
                assert(rest@[t] == rest_pre.remove(0)[t]);
                assert(rest_pre.remove(0)[t] == rest_pre[t + 1]);
                assert(rest.deep_view()[t] == rest@[t].deep_view());
                assert(rest_deep_pre[t + 1] == rest_pre[t + 1].deep_view());
                assert(rest_deep_pre[t + 1] == items_view[k + (t + 1)]);
            }
        }
        match workshop_level(item.0, item.1) {
            Some(level) => {
                let ghost level_view = level@;
                levels.push(level);
                proof {
                    assert(levels.deep_view() =~= pre.push(level_view));
                    assert(pre.push(level_view) =~= base + workshop_levels_of(
                        items_view,
                        k + 1,
                    ));
                }
            },
            None => {
                proof {
                    assert(workshop_levels_of(items_view, k + 1) =~= workshop_levels_of(
                        items_view,
                        k as int,
                    ));
                }
            },
        }
        k = k + 1;
    }
    assert(levels.deep_view() == base + workshop_levels_of(items_view, n as int));
}

/// Builds the unified catalog: the built-in levels merged from the three
/// per-mode name lists, followed by the levels of every retained
/// user-generated listing.
pub fn build_catalog(
    sprint_names: &Vec<String>,
    challenge_names: &Vec<String>,
    stunt_names: &Vec<String>,
    workshop_items: Vec<(PublishedFileDetailsSubset, String)>,
) -> (levels: Vec<Level>)
    requires
        sprint_names@.len() <= u32::MAX,
        challenge_names@.len() <= u32::MAX,
        stunt_names@.len() <= u32::MAX,
    ensures
        levels.deep_view() == official_catalog(
            sprint_names.deep_view(),
            challenge_names.deep_view(),
            stunt_names.deep_view(),
        ) + workshop_levels_of(workshop_items.deep_view(), workshop_items@.len() as int),
{
    let mut levels = build_official_levels(sprint_names, challenge_names, stunt_names);
    append_workshop_levels(&mut levels, workshop_items);
    levels
}

} // verus!
