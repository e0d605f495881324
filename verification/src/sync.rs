//! The synchronization engine's verified core.
//!
//! One run reconciles the in-memory aggregate into the relational store
//! under a single enclosing transaction.  The engine here plans that work
//! as data: upsert rows for every user and level, and — for each (level,
//! mode) pair whose stored digest is absent or different — a rewrite
//! (delete the pair's rows, bulk-insert the new ones, overwrite the
//! digest).  A matching digest plans nothing for the pair, which is the
//! point of the design: repeated runs with unchanged leaderboards cost only
//! a digest comparison.  The unverified driver executes the plan inside the
//! transaction and drives the marker state machine at the end.

use crate::common::{DataModel, DistanceData, Level, LevelModel, UserModel};
use crate::digest::{compute_challenge_hash, compute_sprint_hash, compute_stunt_hash,
    spec_challenge_digest, spec_sprint_digest, spec_stunt_digest};
use vstd::prelude::*;

verus! {

/// One user upsert row: insert, on identifier conflict overwrite the name.
#[derive(Debug, Clone)]
pub struct NewUser {
    pub steam_id: i64,
    pub name: String,
}

/// Mathematical model of a `NewUser`.
pub ghost struct NewUserModel {
    pub steam_id: i64,
    pub name: Seq<char>,
}

impl View for NewUser {
    type V = NewUserModel;

    open spec fn view(&self) -> NewUserModel {
        NewUserModel { steam_id: self.steam_id, name: self.name@ }
    }
}

impl DeepView for NewUser {
    type V = NewUserModel;

    open spec fn deep_view(&self) -> NewUserModel {
        self@
    }
}

/// One level upsert row: insert, on identifier conflict overwrite name and
/// mode flags.
#[derive(Debug, Clone)]
pub struct NewLevel {
    pub id: i64,
    pub name: String,
    pub is_sprint: bool,
    pub is_challenge: bool,
    pub is_stunt: bool,
}

/// Mathematical model of a `NewLevel`.
pub ghost struct NewLevelModel {
    pub id: i64,
    pub name: Seq<char>,
    pub is_sprint: bool,
    pub is_challenge: bool,
    pub is_stunt: bool,
}

impl View for NewLevel {
    type V = NewLevelModel;

    open spec fn view(&self) -> NewLevelModel {
        NewLevelModel {
            id: self.id,
            name: self.name@,
            is_sprint: self.is_sprint,
            is_challenge: self.is_challenge,
            is_stunt: self.is_stunt,
        }
    }
}

/// One origin-metadata upsert row for a user-generated level: insert, on
/// level conflict overwrite the raw payload and the tag set.
#[derive(Debug, Clone)]
pub struct NewWorkshopLevelDetails {
    pub level_id: i64,
    pub raw_details: String,
    pub tags: Vec<String>,
}

/// Mathematical model of a `NewWorkshopLevelDetails`.
pub ghost struct NewWorkshopLevelDetailsModel {
    pub level_id: i64,
    pub raw_details: Seq<char>,
    pub tags: Seq<Seq<char>>,
}

impl View for NewWorkshopLevelDetails {
    type V = NewWorkshopLevelDetailsModel;

    open spec fn view(&self) -> NewWorkshopLevelDetailsModel {
        NewWorkshopLevelDetailsModel {
            level_id: self.level_id,
            raw_details: self.raw_details@,
            tags: self.tags.deep_view(),
        }
    }
}

/// One stored sprint leaderboard row.
#[derive(Debug, Copy, Clone, PartialEq, Eq, Structural)]
pub struct NewSprintLeaderboardEntry {
    pub level_id: i64,
    pub steam_id: i64,
    pub time: i32,
    pub rank: i32,
    pub has_replay: bool,
}

/// One stored challenge leaderboard row.
#[derive(Debug, Copy, Clone, PartialEq, Eq, Structural)]
pub struct NewChallengeLeaderboardEntry {
    pub level_id: i64,
    pub steam_id: i64,
    pub time: i32,
    pub rank: i32,
    pub has_replay: bool,
}

/// One stored stunt leaderboard row.
#[derive(Debug, Copy, Clone, PartialEq, Eq, Structural)]
pub struct NewStuntLeaderboardEntry {
    pub level_id: i64,
    pub steam_id: i64,
    pub score: i32,
    pub rank: i32,
    pub has_replay: bool,
}

/// The digests stored for one level's three modes, as read from the store;
/// `None` where no digest was ever written.
#[derive(Debug, Copy, Clone)]
pub struct StoredDigests {
    pub sprint: Option<i64>,
    pub challenge: Option<i64>,
    pub stunt: Option<i64>,
}

/// The rewrite of one (level, sprint) pair: delete the pair's stored rows,
/// bulk-insert `rows`, overwrite the stored digest with `new_digest`.
#[derive(Debug, Clone)]
pub struct SprintRewrite {
    pub level_id: i64,
    pub rows: Vec<NewSprintLeaderboardEntry>,
    pub new_digest: i64,
}

/// Mathematical model of a `SprintRewrite`.
pub ghost struct SprintRewriteModel {
    pub level_id: i64,
    pub rows: Seq<NewSprintLeaderboardEntry>,
    pub new_digest: i64,
}

impl View for SprintRewrite {
    type V = SprintRewriteModel;

    open spec fn view(&self) -> SprintRewriteModel {
        SprintRewriteModel { level_id: self.level_id, rows: self.rows@, new_digest: self.new_digest }
    }
}

/// The rewrite of one (level, challenge) pair.
#[derive(Debug, Clone)]
pub struct ChallengeRewrite {
    pub level_id: i64,
    pub rows: Vec<NewChallengeLeaderboardEntry>,
    pub new_digest: i64,
}

/// Mathematical model of a `ChallengeRewrite`.
pub ghost struct ChallengeRewriteModel {
    pub level_id: i64,
    pub rows: Seq<NewChallengeLeaderboardEntry>,
    pub new_digest: i64,
}

impl View for ChallengeRewrite {
    type V = ChallengeRewriteModel;

    open spec fn view(&self) -> ChallengeRewriteModel {
        ChallengeRewriteModel {
            level_id: self.level_id,
            rows: self.rows@,
            new_digest: self.new_digest,
        }
    }
}

/// The rewrite of one (level, stunt) pair.
#[derive(Debug, Clone)]
pub struct StuntRewrite {
    pub level_id: i64,
    pub rows: Vec<NewStuntLeaderboardEntry>,
    pub new_digest: i64,
}

/// Mathematical model of a `StuntRewrite`.
pub ghost struct StuntRewriteModel {
    pub level_id: i64,
    pub rows: Seq<NewStuntLeaderboardEntry>,
    pub new_digest: i64,
}

impl View for StuntRewrite {
    type V = StuntRewriteModel;

    open spec fn view(&self) -> StuntRewriteModel {
        StuntRewriteModel { level_id: self.level_id, rows: self.rows@, new_digest: self.new_digest }
    }
}

/// Everything the store must do for one level: upsert its identity and
/// flags, upsert its origin metadata (user-generated levels only), and
/// rewrite each mode whose stored digest does not match.
#[derive(Debug, Clone)]
pub struct LevelPlan {
    pub level_row: NewLevel,
    pub details_row: Option<NewWorkshopLevelDetails>,
    pub sprint: Option<SprintRewrite>,
    pub challenge: Option<ChallengeRewrite>,
    pub stunt: Option<StuntRewrite>,
}

/// Mathematical model of a `LevelPlan`.
pub ghost struct LevelPlanModel {
    pub level_row: NewLevelModel,
    pub details_row: Option<NewWorkshopLevelDetailsModel>,
    pub sprint: Option<SprintRewriteModel>,
    pub challenge: Option<ChallengeRewriteModel>,
    pub stunt: Option<StuntRewriteModel>,
}

impl View for LevelPlan {
    type V = LevelPlanModel;

    open spec fn view(&self) -> LevelPlanModel {
        LevelPlanModel {
            level_row: self.level_row@,
            details_row: match self.details_row {
                Some(d) => Some(d@),
                None => None,
            },
            sprint: match self.sprint {
                Some(r) => Some(r@),
                None => None,
            },
            challenge: match self.challenge {
                Some(r) => Some(r@),
                None => None,
            },
            stunt: match self.stunt {
                Some(r) => Some(r@),
                None => None,
            },
        }
    }
}

impl DeepView for LevelPlan {
    type V = LevelPlanModel;

    open spec fn deep_view(&self) -> LevelPlanModel {
        self@
    }
}

/// The whole run's plan: user upserts, then one plan per level, executed
/// inside the one enclosing transaction.
#[derive(Debug, Clone)]
pub struct SyncPlan {
    pub user_rows: Vec<NewUser>,
    pub level_plans: Vec<LevelPlan>,
}

/// Mathematical model of a `SyncPlan`.
pub ghost struct SyncPlanModel {
    pub user_rows: Seq<NewUserModel>,
    pub level_plans: Seq<LevelPlanModel>,
}

impl View for SyncPlan {
    type V = SyncPlanModel;

    open spec fn view(&self) -> SyncPlanModel {
        SyncPlanModel {
            user_rows: self.user_rows.deep_view(),
            level_plans: self.level_plans.deep_view(),
        }
    }
}

/// The upsert row of one user; the store keys users by a signed column.
pub open spec fn user_row_model(u: UserModel) -> NewUserModel {
    NewUserModel { steam_id: u.steam_id as i64, name: u.name }
}

/// The upsert row of one level's identity and flags.
pub open spec fn level_row_model(l: LevelModel) -> NewLevelModel {
    NewLevelModel {
        id: l.id,
        name: l.name,
        is_sprint: l.is_sprint,
        is_challenge: l.is_challenge,
        is_stunt: l.is_stunt,
    }
}

/// The origin-metadata upsert row of a user-generated level.
pub open spec fn details_row_model(l: LevelModel) -> Option<NewWorkshopLevelDetailsModel> {
    match l.workshop_level_details {
        Some(details) => Some(
            NewWorkshopLevelDetailsModel {
                level_id: l.id,
                raw_details: details.1,
                tags: details.0.tags,
            },
        ),
        None => None,
    }
}

/// The stored rows a level's sprint entries become.
pub open spec fn sprint_rows_model(l: LevelModel) -> Seq<NewSprintLeaderboardEntry> {
    Seq::new(
        l.sprint_entries.len(),
        |t: int|
            NewSprintLeaderboardEntry {
                level_id: l.id,
                steam_id: l.sprint_entries[t].steam_id as i64,
                time: l.sprint_entries[t].time,
                rank: l.sprint_entries[t].rank as i32,
                has_replay: l.sprint_entries[t].has_replay,
            },
    )
}

/// The stored rows a level's challenge entries become.
pub open spec fn challenge_rows_model(l: LevelModel) -> Seq<NewChallengeLeaderboardEntry> {
    Seq::new(
        l.challenge_entries.len(),
        |t: int|
            NewChallengeLeaderboardEntry {
                level_id: l.id,
                steam_id: l.challenge_entries[t].steam_id as i64,
                time: l.challenge_entries[t].time,
                rank: l.challenge_entries[t].rank as i32,
                has_replay: l.challenge_entries[t].has_replay,
            },
    )
}

/// The stored rows a level's stunt entries become.
pub open spec fn stunt_rows_model(l: LevelModel) -> Seq<NewStuntLeaderboardEntry> {
    Seq::new(
        l.stunt_entries.len(),
        |t: int|
            NewStuntLeaderboardEntry {
                level_id: l.id,
                steam_id: l.stunt_entries[t].steam_id as i64,
                score: l.stunt_entries[t].score,
                rank: l.stunt_entries[t].rank as i32,
                has_replay: l.stunt_entries[t].has_replay,
            },
    )
}

/// Whether the (level, sprint) pair must be rewritten: the mode is
/// supported and the stored digest is absent or different.
pub open spec fn sprint_stale(l: LevelModel, stored: StoredDigests) -> bool {
    l.is_sprint && stored.sprint != Some(spec_sprint_digest(l.sprint_entries))
}

/// Whether the (level, challenge) pair must be rewritten.
pub open spec fn challenge_stale(l: LevelModel, stored: StoredDigests) -> bool {
    l.is_challenge && stored.challenge != Some(spec_challenge_digest(l.challenge_entries))
}

/// Whether the (level, stunt) pair must be rewritten.
pub open spec fn stunt_stale(l: LevelModel, stored: StoredDigests) -> bool {
    l.is_stunt && stored.stunt != Some(spec_stunt_digest(l.stunt_entries))
}

/// The sprint rewrite of one level, if the pair is stale.
pub open spec fn spec_sprint_rewrite(l: LevelModel, stored: StoredDigests) -> Option<
    SprintRewriteModel,
> {
    if sprint_stale(l, stored) {
        Some(
            SprintRewriteModel {
                level_id: l.id,
                rows: sprint_rows_model(l),
                new_digest: spec_sprint_digest(l.sprint_entries),
            },
        )
    } else {
        None
    }
}

/// The challenge rewrite of one level, if the pair is stale.
pub open spec fn spec_challenge_rewrite(l: LevelModel, stored: StoredDigests) -> Option<
    ChallengeRewriteModel,
> {
    if challenge_stale(l, stored) {
        Some(
            ChallengeRewriteModel {
                level_id: l.id,
                rows: challenge_rows_model(l),
                new_digest: spec_challenge_digest(l.challenge_entries),
            },
        )
    } else {
        None
    }
}

/// The stunt rewrite of one level, if the pair is stale.
pub open spec fn spec_stunt_rewrite(l: LevelModel, stored: StoredDigests) -> Option<
    StuntRewriteModel,
> {
    if stunt_stale(l, stored) {
        Some(
            StuntRewriteModel {
                level_id: l.id,
                rows: stunt_rows_model(l),
                new_digest: spec_stunt_digest(l.stunt_entries),
            },
        )
    } else {
        None
    }
}

/// The whole plan of one level.
pub open spec fn spec_level_plan(l: LevelModel, stored: StoredDigests) -> LevelPlanModel {
    LevelPlanModel {
        level_row: level_row_model(l),
        details_row: details_row_model(l),
        sprint: spec_sprint_rewrite(l, stored),
        challenge: spec_challenge_rewrite(l, stored),
        stunt: spec_stunt_rewrite(l, stored),
    }
}

/// The whole run's plan.
pub open spec fn spec_sync_plan(data: DataModel, stored: Seq<StoredDigests>) -> SyncPlanModel {
    SyncPlanModel {
        user_rows: data.users.map_values(|u: UserModel| user_row_model(u)),
        level_plans: Seq::new(data.levels.len(), |i: int| spec_level_plan(data.levels[i], stored[i])),
    }
}

/// Builds the stored rows of a level's sprint entries.
fn build_sprint_rows(level: &Level) -> (rows: Vec<NewSprintLeaderboardEntry>)
    ensures
        rows@ == sprint_rows_model(level@),
{
    let mut rows: Vec<NewSprintLeaderboardEntry> = Vec::new();
    let mut t: usize = 0;
    while t < level.sprint_entries.len()
        invariant
            t <= level@.sprint_entries.len(),
            rows@ =~= sprint_rows_model(level@).take(t as int),
        decreases level@.sprint_entries.len() - t,
    {
        let e = level.sprint_entries[t];
        rows.push(
            NewSprintLeaderboardEntry {
                level_id: level.id,
                steam_id: #[verifier::truncate] (e.steam_id as i64),
                time: e.time,
                rank: #[verifier::truncate] (e.rank as i32),
                has_replay: e.has_replay,
            },
        );
        assert(rows@ =~= sprint_rows_model(level@).take(t + 1));
        t = t + 1;
    }
    assert(rows@ =~= sprint_rows_model(level@));
    rows
}

/// Builds the stored rows of a level's challenge entries.
fn build_challenge_rows(level: &Level) -> (rows: Vec<NewChallengeLeaderboardEntry>)
    ensures
        rows@ == challenge_rows_model(level@),
{
    let mut rows: Vec<NewChallengeLeaderboardEntry> = Vec::new();
    let mut t: usize = 0;
    while t < level.challenge_entries.len()
        invariant
            t <= level@.challenge_entries.len(),
            rows@ =~= challenge_rows_model(level@).take(t as int),
        decreases level@.challenge_entries.len() - t,
    {
        let e = level.challenge_entries[t];
        rows.push(
            NewChallengeLeaderboardEntry {
                level_id: level.id,
                steam_id: #[verifier::truncate] (e.steam_id as i64),
                time: e.time,
                rank: #[verifier::truncate] (e.rank as i32),
                has_replay: e.has_replay,
            },
        );
        assert(rows@ =~= challenge_rows_model(level@).take(t + 1));
        t = t + 1;
    }
    assert(rows@ =~= challenge_rows_model(level@));
    rows
}

/// Builds the stored rows of a level's stunt entries.
fn build_stunt_rows(level: &Level) -> (rows: Vec<NewStuntLeaderboardEntry>)
    ensures
        rows@ == stunt_rows_model(level@),
{
    let mut rows: Vec<NewStuntLeaderboardEntry> = Vec::new();
    let mut t: usize = 0;
    while t < level.stunt_entries.len()
        invariant
            t <= level@.stunt_entries.len(),
            rows@ =~= stunt_rows_model(level@).take(t as int),
        decreases level@.stunt_entries.len() - t,
    {
        let e = level.stunt_entries[t];
        rows.push(
            NewStuntLeaderboardEntry {
                level_id: level.id,
                steam_id: #[verifier::truncate] (e.steam_id as i64),
                score: e.score,
                rank: #[verifier::truncate] (e.rank as i32),
                has_replay: e.has_replay,
            },
        );
        assert(rows@ =~= stunt_rows_model(level@).take(t + 1));
        t = t + 1;
    }
    assert(rows@ =~= stunt_rows_model(level@));
    rows
}

/// Plans one level's synchronization against the digests currently stored
/// for it: upsert rows always, a rewrite only for each stale mode.
pub fn plan_level_sync(level: &Level, stored: &StoredDigests) -> (p: LevelPlan)
    ensures
        p@ == spec_level_plan(level@, *stored),
{
    let level_row = NewLevel {
        id: level.id,
        name: level.name.clone(),
        is_sprint: level.is_sprint,
        is_challenge: level.is_challenge,
        is_stunt: level.is_stunt,
    };
    let details_row = match &level.workshop_level_details {
        Some((details, raw)) => {
            let mut tags: Vec<String> = Vec::new();
            let mut t: usize = 0;
            while t < details.tags.len()
                invariant
                    t <= details.tags@.len(),
                    tags.deep_view() =~= details.tags.deep_view().take(t as int),
                decreases details.tags@.len() - t,
            {
                let ghost pre = tags.deep_view();
                let tag = details.tags[t].tag.clone();
                let ghost tag_view = tag@;
                tags.push(tag);
                proof {
                    assert(tags.deep_view() =~= pre.push(tag_view));
                    assert(details.tags.deep_view()[t as int] == details.tags@[t as int]@);
                    assert(tags.deep_view() =~= details.tags.deep_view().take(t + 1));
                }
                t = t + 1;
            }
            assert(tags.deep_view() =~= details.tags.deep_view());
            Some(NewWorkshopLevelDetails { level_id: level.id, raw_details: raw.clone(), tags })
        },
        None => None,
    };
    let sprint = if level.is_sprint {
        let new_digest = compute_sprint_hash(&level.sprint_entries);
        let matches_stored = match stored.sprint {
            Some(d) => d == new_digest,
            None => false,
        };
        if matches_stored {
            None
        } else {
            Some(SprintRewrite { level_id: level.id, rows: build_sprint_rows(level), new_digest })
        }
    } else {
        None
    };
    let challenge = if level.is_challenge {
        let new_digest = compute_challenge_hash(&level.challenge_entries);
        let matches_stored = match stored.challenge {
            Some(d) => d == new_digest,
            None => false,
        };
        if matches_stored {
            None
        } else {
            Some(
                ChallengeRewrite {
                    level_id: level.id,
                    rows: build_challenge_rows(level),
                    new_digest,
                },
            )
        }
    } else {
        None
    };
    let stunt = if level.is_stunt {
        let new_digest = compute_stunt_hash(&level.stunt_entries);
        let matches_stored = match stored.stunt {
            Some(d) => d == new_digest,
            None => false,
        };
        if matches_stored {
            None
        } else {
            Some(StuntRewrite { level_id: level.id, rows: build_stunt_rows(level), new_digest })
        }
    } else {
        None
    };
    LevelPlan { level_row, details_row, sprint, challenge, stunt }
}

/// Plans the whole run: one upsert row per user, one level plan per level,
/// each gated by the digests the driver read for that level.
pub fn plan_sync(data: &DistanceData, stored: &Vec<StoredDigests>) -> (plan: SyncPlan)
    requires
        stored@.len() == data.levels@.len(),
    ensures
        plan@ == spec_sync_plan(data@, stored@),
{
    let mut user_rows: Vec<NewUser> = Vec::new();
    let mut i: usize = 0;
    while i < data.users.len()
        invariant
            i <= data.users@.len(),
            user_rows.deep_view() =~= data@.users.map_values(
                |u: UserModel| user_row_model(u),
            ).take(i as int),
        decreases data.users@.len() - i,
    {
        let u = &data.users[i];
        let ghost pre = user_rows.deep_view();
        let row = NewUser {
            steam_id: #[verifier::truncate] (u.steam_id as i64),
            name: u.name.clone(),
        };
        let ghost row_view = row@;
        user_rows.push(row);
        proof {
            assert(u@ == data@.users[i as int]);
            assert(row_view == user_row_model(data@.users[i as int]));
            assert(user_rows.deep_view() =~= pre.push(row_view));
            assert(user_rows.deep_view() =~= data@.users.map_values(
                |u: UserModel| user_row_model(u),
            ).take(i + 1));
        }
        i = i + 1;
    }
    assert(user_rows.deep_view() =~= data@.users.map_values(|u: UserModel| user_row_model(u)));
    let mut level_plans: Vec<LevelPlan> = Vec::new();
    let mut i: usize = 0;
    while i < data.levels.len()
        invariant
            i <= data.levels@.len(),
            stored@.len() == data.levels@.len(),
            level_plans.deep_view() =~= Seq::new(
                i as nat,
                |k: int| spec_level_plan(data@.levels[k], stored@[k]),
            ),
        decreases data.levels@.len() - i,
    {
        let p = plan_level_sync(&data.levels[i], &stored[i]);
        let ghost p_view = p@;
        let ghost pre = level_plans.deep_view();
        level_plans.push(p);
        proof {
            assert(data.levels[i as int]@ == data@.levels[i as int]);
            assert(p_view == spec_level_plan(data@.levels[i as int], stored@[i as int]));
            assert(level_plans.deep_view() =~= pre.push(p_view));
            assert(level_plans.deep_view() =~= Seq::new(
                (i + 1) as nat,
                |k: int| spec_level_plan(data@.levels[k], stored@[k]),
            ));
        }
        i = i + 1;
    }
    let plan = SyncPlan { user_rows, level_plans };
    assert(plan@.level_plans =~= spec_sync_plan(data@, stored@).level_plans);
    plan
}

/// The rows and digests the store holds for one level's three modes.
pub ghost struct LevelRowsModel {
    pub sprint_rows: Seq<NewSprintLeaderboardEntry>,
    pub challenge_rows: Seq<NewChallengeLeaderboardEntry>,
    pub stunt_rows: Seq<NewStuntLeaderboardEntry>,
    pub digests: StoredDigests,
}

/// What the store holds for one level after executing that level's plan:
/// each planned rewrite replaces the pair's rows and digest; a pair with no
/// rewrite keeps its rows and digest untouched.
pub open spec fn apply_level_plan(rows: LevelRowsModel, p: LevelPlanModel) -> LevelRowsModel {
    LevelRowsModel {
        sprint_rows: match p.sprint {
            Some(r) => r.rows,
            None => rows.sprint_rows,
        },
        challenge_rows: match p.challenge {
            Some(r) => r.rows,
            None => rows.challenge_rows,
        },
        stunt_rows: match p.stunt {
            Some(r) => r.rows,
            None => rows.stunt_rows,
        },
        digests: StoredDigests {
            sprint: match p.sprint {
                Some(r) => Some(r.new_digest),
                None => rows.digests.sprint,
            },
            challenge: match p.challenge {
                Some(r) => Some(r.new_digest),
                None => rows.digests.challenge,
            },
            stunt: match p.stunt {
                Some(r) => Some(r.new_digest),
                None => rows.digests.stunt,
            },
        },
    }
}

/// Law: synchronization is idempotent.  After one run's plan for a level is
/// executed, a second run with the unchanged level plans no rewrite for any
/// mode — zero deletes, zero inserts, zero digest writes — and executing
/// that empty plan leaves the store's rows and digests identical.
pub proof fn lemma_sync_idempotent(l: LevelModel, store: LevelRowsModel)
    ensures
        ({
            let store1 = apply_level_plan(store, spec_level_plan(l, store.digests));
            let p2 = spec_level_plan(l, store1.digests);
            p2.sprint is None && p2.challenge is None && p2.stunt is None && apply_level_plan(
                store1,
                p2,
            ) == store1
        }),
{
}

/// The digests stored for one level after its plan is executed: each
/// planned rewrite overwrites the pair's digest, a pair with no rewrite
/// keeps it.
pub open spec fn digests_after_sync(l: LevelModel, stored: StoredDigests) -> StoredDigests {
    StoredDigests {
        sprint: match spec_sprint_rewrite(l, stored) {
            Some(r) => Some(r.new_digest),
            None => stored.sprint,
        },
        challenge: match spec_challenge_rewrite(l, stored) {
            Some(r) => Some(r.new_digest),
            None => stored.challenge,
        },
        stunt: match spec_stunt_rewrite(l, stored) {
            Some(r) => Some(r.new_digest),
            None => stored.stunt,
        },
    }
}

/// Law: synchronization is idempotent across the whole run.  Whatever
/// digests the store held before, a second run with an unchanged aggregate,
/// planned against the digests the first run left behind, plans no rewrite
/// for any level and any mode.
pub proof fn lemma_sync_plan_idempotent(data: DataModel, stored: Seq<StoredDigests>)
    requires
        stored.len() == data.levels.len(),
    ensures
        ({
            let after = Seq::new(
                data.levels.len(),
                |j: int| digests_after_sync(data.levels[j], stored[j]),
            );
            forall|i: int|
                0 <= i < data.levels.len()
                    ==> (#[trigger] spec_sync_plan(data, after).level_plans[i]).sprint is None
                    && spec_sync_plan(data, after).level_plans[i].challenge is None
                    && spec_sync_plan(data, after).level_plans[i].stunt is None
        }),
{
}

// ------------------------------------------------------------------
// The "last synchronized" marker state machine.
// ------------------------------------------------------------------

/// The states of the marker update at the end of a run: optimistic insert
/// first; on a uniqueness conflict the nested transaction is rolled back
/// and the existing marker's timestamp is updated instead.
#[derive(Debug, Copy, Clone, PartialEq, Eq, Structural)]
pub enum MarkerState {
    /// Nothing attempted yet.
    Idle,
    /// The insert was issued inside a nested transaction.
    InsertAttempted,
    /// The insert failed with a uniqueness conflict: the marker row exists.
    ConflictDetected,
    /// The nested transaction was rolled back; the outer one is intact.
    RolledBackNested,
    /// The timestamp update of the existing marker was issued.
    UpdateAttempted,
    /// The marker carries this run's timestamp; the update step succeeded.
    Committed,
    /// An unrecovered error; the whole run must roll back.
    Failed,
}

/// The events the driver reports to the marker machine.
#[derive(Debug, Copy, Clone, PartialEq, Eq, Structural)]
pub enum MarkerEvent {
    /// The insert was issued inside a nested transaction.
    InsertIssued,
    /// The insert (and the nested commit) succeeded.
    InsertSucceeded,
    /// The insert failed with the store's uniqueness-conflict error code.
    InsertConflicted,
    /// The insert failed with any other error.
    InsertFailedOther,
    /// The nested transaction was rolled back.
    NestedRolledBack,
    /// Rolling back the nested transaction itself failed.
    NestedRollbackFailed,
    /// The timestamp update was issued on the outer transaction.
    UpdateIssued,
    /// The timestamp update succeeded.
    UpdateSucceeded,
    /// The timestamp update failed.
    UpdateFailed,
}

/// The marker machine's transition function.  Only the uniqueness conflict
/// is recoverable; every other failure, and every event out of place, is
/// fatal to the run.
pub open spec fn spec_marker_step(s: MarkerState, e: MarkerEvent) -> MarkerState {
    match (s, e) {
        (MarkerState::Idle, MarkerEvent::InsertIssued) => MarkerState::InsertAttempted,
        (MarkerState::InsertAttempted, MarkerEvent::InsertSucceeded) => MarkerState::Committed,
        (MarkerState::InsertAttempted, MarkerEvent::InsertConflicted) => MarkerState::ConflictDetected,
        (MarkerState::ConflictDetected, MarkerEvent::NestedRolledBack) => MarkerState::RolledBackNested,
        (MarkerState::RolledBackNested, MarkerEvent::UpdateIssued) => MarkerState::UpdateAttempted,
        (MarkerState::UpdateAttempted, MarkerEvent::UpdateSucceeded) => MarkerState::Committed,
        _ => MarkerState::Failed,
    }
}

/// One transition of the marker machine.
pub fn marker_step(s: MarkerState, e: MarkerEvent) -> (next: MarkerState)
    ensures
        next == spec_marker_step(s, e),
{
    match (s, e) {
        (MarkerState::Idle, MarkerEvent::InsertIssued) => MarkerState::InsertAttempted,
        (MarkerState::InsertAttempted, MarkerEvent::InsertSucceeded) => MarkerState::Committed,
        (MarkerState::InsertAttempted, MarkerEvent::InsertConflicted) => MarkerState::ConflictDetected,
        (MarkerState::ConflictDetected, MarkerEvent::NestedRolledBack) => MarkerState::RolledBackNested,
        (MarkerState::RolledBackNested, MarkerEvent::UpdateIssued) => MarkerState::UpdateAttempted,
        (MarkerState::UpdateAttempted, MarkerEvent::UpdateSucceeded) => MarkerState::Committed,
        _ => MarkerState::Failed,
    }
}

/// The state after running the machine from `Idle` over an event sequence.
pub open spec fn marker_run(events: Seq<MarkerEvent>) -> MarkerState
    decreases events.len(),
{
    if events.len() == 0 {
        MarkerState::Idle
    } else {
        spec_marker_step(marker_run(events.drop_last()), events.last())
    }
}

/// Law: when the marker row does not exist yet, the optimistic insert
/// commits the marker.
pub proof fn lemma_marker_fresh_row_commits()
    ensures
        marker_run(seq![MarkerEvent::InsertIssued, MarkerEvent::InsertSucceeded])
            == MarkerState::Committed,
{
    let e0 = Seq::<MarkerEvent>::empty();
    let e1 = e0.push(MarkerEvent::InsertIssued);
    let e2 = e1.push(MarkerEvent::InsertSucceeded);
    assert(marker_run(e0) == MarkerState::Idle);
    assert(e1.drop_last() =~= e0 && e1.last() == MarkerEvent::InsertIssued);
    assert(marker_run(e1) == MarkerState::InsertAttempted);
    assert(e2.drop_last() =~= e1 && e2.last() == MarkerEvent::InsertSucceeded);
    assert(marker_run(e2) == MarkerState::Committed);
    assert(seq![MarkerEvent::InsertIssued, MarkerEvent::InsertSucceeded] =~= e2);
}

/// Law: when the marker row already exists, the run recovers through the
/// nested rollback and the timestamp update, ends committed, and passes
/// through no failed state, so no error reaches the caller.
pub proof fn lemma_marker_existing_row_recovers()
    ensures
        ({
            let evs = seq![
                MarkerEvent::InsertIssued,
                MarkerEvent::InsertConflicted,
                MarkerEvent::NestedRolledBack,
                MarkerEvent::UpdateIssued,
                MarkerEvent::UpdateSucceeded,
            ];
            marker_run(evs) == MarkerState::Committed && (forall|k: int|
                0 <= k <= evs.len() ==> #[trigger] marker_run(evs.take(k)) != MarkerState::Failed)
        }),
{
    let evs = seq![
        MarkerEvent::InsertIssued,
        MarkerEvent::InsertConflicted,
        MarkerEvent::NestedRolledBack,
        MarkerEvent::UpdateIssued,
        MarkerEvent::UpdateSucceeded,
    ];
    let e0 = Seq::<MarkerEvent>::empty();
    let e1 = e0.push(MarkerEvent::InsertIssued);
    let e2 = e1.push(MarkerEvent::InsertConflicted);
    let e3 = e2.push(MarkerEvent::NestedRolledBack);
    let e4 = e3.push(MarkerEvent::UpdateIssued);
    let e5 = e4.push(MarkerEvent::UpdateSucceeded);
    assert(marker_run(e0) == MarkerState::Idle);
    assert(e1.drop_last() =~= e0 && e1.last() == MarkerEvent::InsertIssued);
    assert(marker_run(e1) == MarkerState::InsertAttempted);
    assert(e2.drop_last() =~= e1 && e2.last() == MarkerEvent::InsertConflicted);
    assert(marker_run(e2) == MarkerState::ConflictDetected);
    assert(e3.drop_last() =~= e2 && e3.last() == MarkerEvent::NestedRolledBack);
    assert(marker_run(e3) == MarkerState::RolledBackNested);
    assert(e4.drop_last() =~= e3 && e4.last() == MarkerEvent::UpdateIssued);
    assert(marker_run(e4) == MarkerState::UpdateAttempted);
    assert(e5.drop_last() =~= e4 && e5.last() == MarkerEvent::UpdateSucceeded);
    assert(marker_run(e5) == MarkerState::Committed);
    assert(evs =~= e5);
    assert(marker_run(evs) == MarkerState::Committed);
    assert forall|k: int| 0 <= k <= evs.len() implies #[trigger] marker_run(evs.take(k))
        != MarkerState::Failed by {
        assert(evs.take(0) =~= e0);
        assert(evs.take(1) =~= e1);
        assert(evs.take(2) =~= e2);
        assert(evs.take(3) =~= e3);
        assert(evs.take(4) =~= e4);
        assert(evs.take(5) =~= e5);
    }
}

/// Law: any insert failure other than the uniqueness conflict, and any
/// failure of the rollback or of the update, is fatal.
pub proof fn lemma_marker_other_errors_fatal()
    ensures
        spec_marker_step(MarkerState::InsertAttempted, MarkerEvent::InsertFailedOther)
            == MarkerState::Failed,
        spec_marker_step(MarkerState::ConflictDetected, MarkerEvent::NestedRollbackFailed)
            == MarkerState::Failed,
        spec_marker_step(MarkerState::UpdateAttempted, MarkerEvent::UpdateFailed)
            == MarkerState::Failed,
{
}

} // verus!
