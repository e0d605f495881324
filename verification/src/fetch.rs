//! The leaderboard fetcher's verified core: deterministic construction of
//! the per-(level, mode) leaderboard queries, the bounded retry decisions,
//! and the conversion of downloaded raw entries into ranked entries.
//!
//! The downloads themselves are I/O and run in the unverified driver, which
//! asks these functions what to fetch, whether to retry, and how to fold
//! each download result back into the aggregate.

use crate::common::{GameMode, Level, LevelModel, RawLeaderboardEntry, ScoreLeaderboardEntry,
    TimeLeaderboardEntry};
use crate::ranks::rank_at;
use vstd::prelude::*;
use vstd::string::{StrSliceExecFns, StringExecFns};

verus! {

/// The concurrent-download fan-out cap the driver must respect.
pub const FETCH_CONCURRENCY: usize = 4;

/// How many times a "leaderboard not found" lookup or an empty download is
/// retried before the result is accepted.
pub const LEADERBOARD_RETRY_COUNT: usize = 5;

/// The number of characters of the content-file extension stripped from a
/// user-generated level's file reference.
pub const CONTENT_EXTENSION_CHARS: usize = 6;

/// Whether a level supports the given mode.
pub open spec fn eligible(l: LevelModel, mode: GameMode) -> bool {
    match mode {
        GameMode::Sprint => l.is_sprint,
        GameMode::Challenge => l.is_challenge,
        GameMode::Stunt => l.is_stunt,
    }
}

/// A deterministically derived leaderboard query: the base name, the mode,
/// and (for user-generated levels) the author identifier.
#[derive(Debug, Clone)]
pub struct LeaderboardQuery {
    pub base: String,
    pub mode: GameMode,
    pub author: Option<u64>,
}

/// Mathematical model of a `LeaderboardQuery`.
pub ghost struct QueryModel {
    pub base: Seq<char>,
    pub mode: GameMode,
    pub author: Option<u64>,
}

impl View for LeaderboardQuery {
    type V = QueryModel;

    open spec fn view(&self) -> QueryModel {
        QueryModel { base: self.base@, mode: self.mode, author: self.author }
    }
}

impl DeepView for LeaderboardQuery {
    type V = QueryModel;

    open spec fn deep_view(&self) -> QueryModel {
        self@
    }
}

/// The base name a level's leaderboard is looked up under: the content-file
/// reference without its extension for user-generated levels, the level
/// name itself for built-in ones.
pub open spec fn query_base(l: LevelModel) -> Seq<char> {
    match l.workshop_level_details {
        Some(details) => {
            let filename = details.0.filename;
            if filename.len() >= CONTENT_EXTENSION_CHARS {
                filename.take(filename.len() - CONTENT_EXTENSION_CHARS)
            } else {
                Seq::empty()
            }
        },
        None => l.name,
    }
}

/// The query of one (level, mode) pair.
pub open spec fn query_of(l: LevelModel, mode: GameMode) -> QueryModel {
    QueryModel {
        base: query_base(l),
        mode: mode,
        author: match l.workshop_level_details {
            Some(details) => Some(details.0.creator),
            None => None,
        },
    }
}

/// The (index, query) pairs of the eligible levels among the first `k`, in
/// index order.
pub open spec fn queries_of(levels: Seq<LevelModel>, mode: GameMode, k: int) -> Seq<
    (usize, QueryModel),
>
    decreases k,
{
    if k <= 0 {
        Seq::empty()
    } else {
        queries_of(levels, mode, k - 1) + (if eligible(levels[k - 1], mode) {
            seq![(((k - 1) as usize), query_of(levels[k - 1], mode))]
        } else {
            Seq::empty()
        })
    }
}

/// Builds the leaderboard query of one level for one mode.
fn build_query(level: &Level, mode: GameMode) -> (q: LeaderboardQuery)
    ensures
        q@ == query_of(level@, mode),
{
    match &level.workshop_level_details {
        Some((details, _raw)) => {
            let len = details.filename.as_str().unicode_len();
            let base = if len >= CONTENT_EXTENSION_CHARS {
                details.filename.as_str().substring_char(
                    0,
                    len - CONTENT_EXTENSION_CHARS,
                ).to_owned()
            } else {
                String::new()
            };
            assert(base@ =~= query_base(level@));
            LeaderboardQuery { base, mode, author: Some(details.creator) }
        },
        None => {
            LeaderboardQuery { base: level.name.clone(), mode, author: None }
        },
    }
}

/// Derives the queries of every level eligible for the mode, each paired
/// with the level's index, in index order.  Levels lacking the mode flag
/// are skipped.
pub fn leaderboard_queries(levels: &Vec<Level>, mode: GameMode) -> (queries: Vec<
    (usize, LeaderboardQuery),
>)
    ensures
        queries.deep_view() == queries_of(levels.deep_view(), mode, levels@.len() as int),
{
    let mut queries: Vec<(usize, LeaderboardQuery)> = Vec::new();
    let mut i: usize = 0;
    while i < levels.len()
        invariant
            i <= levels@.len(),
            queries.deep_view() =~= queries_of(levels.deep_view(), mode, i as int),
        decreases levels@.len() - i,
    {
        let level = &levels[i];
        let wanted = match mode {
            GameMode::Sprint => level.is_sprint,
            GameMode::Challenge => level.is_challenge,
            GameMode::Stunt => level.is_stunt,
        };
        proof {
            assert(levels[i as int]@ == levels.deep_view()[i as int]);
        }
        if wanted {
            let q = build_query(level, mode);
            let ghost pre = queries.deep_view();
            let ghost q_view = q@;
            queries.push((i, q));
            proof {
                assert(queries.deep_view() =~= pre.push((i, q_view)));
                assert(queries.deep_view() =~= queries_of(levels.deep_view(), mode, i + 1));
            }
        } else {
            proof {
                assert(queries.deep_view() =~= queries_of(levels.deep_view(), mode, i + 1));
            }
        }
        i = i + 1;
    }
    queries
}

/// One lookup attempt's outcome, as the driver classifies the remote
/// service's answer.
#[derive(Debug, Copy, Clone, PartialEq, Eq, Structural)]
pub enum LookupOutcome {
    /// The leaderboard was located.
    Found,
    /// The service answered "not found"; possibly transient.
    NotFoundRetryable,
    /// Any other lookup failure.
    FatalError,
}

/// What the driver must do after one lookup attempt.
#[derive(Debug, Copy, Clone, PartialEq, Eq, Structural)]
pub enum LookupDecision {
    /// Use the located leaderboard.
    Proceed,
    /// Attempt the lookup again.
    Retry,
    /// Treat the (level, mode) pair as absent; no error surfaces.
    Abandon,
}

/// The retry decision after lookup attempt number `attempt` (0-based) came
/// back with `outcome`: a located leaderboard is used, "not found" is
/// retried until the retry budget is spent, any other failure abandons the
/// pair at once.
pub fn lookup_step(attempt: usize, outcome: LookupOutcome) -> (d: LookupDecision)
    ensures
        (d == LookupDecision::Proceed) <==> (outcome == LookupOutcome::Found),
        (d == LookupDecision::Retry) <==> (outcome == LookupOutcome::NotFoundRetryable && attempt
            < LEADERBOARD_RETRY_COUNT),
        (d == LookupDecision::Abandon) <==> (outcome == LookupOutcome::FatalError || (outcome
            == LookupOutcome::NotFoundRetryable && attempt >= LEADERBOARD_RETRY_COUNT)),
{
    match outcome {
        LookupOutcome::Found => LookupDecision::Proceed,
        LookupOutcome::NotFoundRetryable => {
            if attempt < LEADERBOARD_RETRY_COUNT {
                LookupDecision::Retry
            } else {
                LookupDecision::Abandon
            }
        },
        LookupOutcome::FatalError => LookupDecision::Abandon,
    }
}

/// Whether a download result is accepted after attempt number `attempt`
/// (0-based): a non-empty result is always accepted; an empty one is
/// retried until the retry budget is spent, then accepted as a true empty
/// leaderboard.
pub fn download_step(attempt: usize, is_empty: bool) -> (accept: bool)
    ensures
        accept <==> (!is_empty || attempt >= LEADERBOARD_RETRY_COUNT),
{
    !is_empty || attempt >= LEADERBOARD_RETRY_COUNT
}

/// The raw scores of a downloaded entry list, in download order.
pub open spec fn raw_scores(rs: Seq<RawLeaderboardEntry>) -> Seq<i32> {
    rs.map_values(|r: RawLeaderboardEntry| r.score)
}

/// The ranked time-mode entry a raw entry at position `t` becomes.
pub open spec fn time_entry_model(rs: Seq<RawLeaderboardEntry>, t: int) -> TimeLeaderboardEntry {
    TimeLeaderboardEntry {
        steam_id: rs[t].steam_id,
        time: rs[t].score,
        rank: rank_at(raw_scores(rs), t) as u32,
        has_replay: rs[t].has_replay,
    }
}

/// The ranked score-mode entry a raw entry at position `t` becomes.
pub open spec fn score_entry_model(rs: Seq<RawLeaderboardEntry>, t: int) -> ScoreLeaderboardEntry {
    ScoreLeaderboardEntry {
        steam_id: rs[t].steam_id,
        score: rs[t].score,
        rank: rank_at(raw_scores(rs), t) as u32,
        has_replay: rs[t].has_replay,
    }
}

/// The whole ranked time-mode entry list of a download.
pub open spec fn ranked_time_model(rs: Seq<RawLeaderboardEntry>) -> Seq<TimeLeaderboardEntry> {
    Seq::new(rs.len(), |t: int| time_entry_model(rs, t))
}

/// The whole ranked score-mode entry list of a download.
pub open spec fn ranked_score_model(rs: Seq<RawLeaderboardEntry>) -> Seq<ScoreLeaderboardEntry> {
    Seq::new(rs.len(), |t: int| score_entry_model(rs, t))
}

/// Converts a downloaded entry list (already in the service's best-to-worst
/// order) into time-mode entries carrying their competition ranks.
pub fn ranked_time_entries(raw: &Vec<RawLeaderboardEntry>) -> (entries: Vec<TimeLeaderboardEntry>)
    requires
        raw@.len() <= u32::MAX,
    ensures
        entries@ == ranked_time_model(raw@),
{
    let mut scores: Vec<i32> = Vec::new();
    let mut t: usize = 0;
    while t < raw.len()
        invariant
            t <= raw@.len(),
            scores@ =~= raw_scores(raw@).take(t as int),
        decreases raw@.len() - t,
    {
        scores.push(raw[t].score);
        assert(scores@ =~= raw_scores(raw@).take(t + 1));
        t = t + 1;
    }
    assert(scores@ =~= raw_scores(raw@));
    let ranks = crate::ranks::assign_ranks(&scores);
    let mut entries: Vec<TimeLeaderboardEntry> = Vec::new();
    let mut t: usize = 0;
    while t < raw.len()
        invariant
            t <= raw@.len(),
            ranks@.len() == raw@.len(),
            forall|i: int| 0 <= i < raw@.len() ==> ranks@[i] == rank_at(raw_scores(raw@), i),
            entries@ =~= ranked_time_model(raw@).take(t as int),
        decreases raw@.len() - t,
    {
        let e = raw[t];
        entries.push(
            TimeLeaderboardEntry {
                steam_id: e.steam_id,
                time: e.score,
                rank: ranks[t],
                has_replay: e.has_replay,
            },
        );
        assert(entries@ =~= ranked_time_model(raw@).take(t + 1));
        t = t + 1;
    }
    assert(entries@ =~= ranked_time_model(raw@));
    entries
}

/// Converts a downloaded entry list into score-mode entries carrying their
/// competition ranks.
pub fn ranked_score_entries(raw: &Vec<RawLeaderboardEntry>) -> (entries: Vec<
    ScoreLeaderboardEntry,
>)
    requires
        raw@.len() <= u32::MAX,
    ensures
        entries@ == ranked_score_model(raw@),
{
    let mut scores: Vec<i32> = Vec::new();
    let mut t: usize = 0;
    while t < raw.len()
        invariant
            t <= raw@.len(),
            scores@ =~= raw_scores(raw@).take(t as int),
        decreases raw@.len() - t,
    {
        scores.push(raw[t].score);
        assert(scores@ =~= raw_scores(raw@).take(t + 1));
        t = t + 1;
    }
    assert(scores@ =~= raw_scores(raw@));
    let ranks = crate::ranks::assign_ranks(&scores);
    let mut entries: Vec<ScoreLeaderboardEntry> = Vec::new();
    let mut t: usize = 0;
    while t < raw.len()
        invariant
            t <= raw@.len(),
            ranks@.len() == raw@.len(),
            forall|i: int| 0 <= i < raw@.len() ==> ranks@[i] == rank_at(raw_scores(raw@), i),
            entries@ =~= ranked_score_model(raw@).take(t as int),
        decreases raw@.len() - t,
    {
        let e = raw[t];
        entries.push(
            ScoreLeaderboardEntry {
                steam_id: e.steam_id,
                score: e.score,
                rank: ranks[t],
                has_replay: e.has_replay,
            },
        );
        assert(entries@ =~= ranked_score_model(raw@).take(t + 1));
        t = t + 1;
    }
    assert(entries@ =~= ranked_score_model(raw@));
    entries
}

/// The level with one mode's entry list replaced.
pub open spec fn with_mode_entries(
    l: LevelModel,
    mode: GameMode,
    rs: Seq<RawLeaderboardEntry>,
) -> LevelModel {
    match mode {
        GameMode::Sprint => LevelModel { sprint_entries: ranked_time_model(rs), ..l },
        GameMode::Challenge => LevelModel { challenge_entries: ranked_time_model(rs), ..l },
        GameMode::Stunt => LevelModel { stunt_entries: ranked_score_model(rs), ..l },
    }
}

/// Folds one download result back into the aggregate: level `i` receives
/// the ranked entries for the mode; every other level, and every other
/// field of level `i`, stays as it was.
pub fn attach_mode_entries(
    levels: &mut Vec<Level>,
    i: usize,
    mode: GameMode,
    raw: &Vec<RawLeaderboardEntry>,
)
    requires
        i < old(levels)@.len(),
        raw@.len() <= u32::MAX,
    ensures
        final(levels).deep_view() == old(levels).deep_view().update(
            i as int,
            with_mode_entries(old(levels).deep_view()[i as int], mode, raw@),
        ),
{
    let ghost pre = levels.deep_view();
    match mode {
        GameMode::Sprint => {
            let entries = ranked_time_entries(raw);
            levels[i].sprint_entries = entries;
        },
        GameMode::Challenge => {
            let entries = ranked_time_entries(raw);
            levels[i].challenge_entries = entries;
        },
        GameMode::Stunt => {
            let entries = ranked_score_entries(raw);
            levels[i].stunt_entries = entries;
        },
    }
    assert(levels.deep_view() =~= pre.update(i as int, with_mode_entries(pre[i as int], mode, raw@)));
}

} // verus!
