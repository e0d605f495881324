//! Run statistics for human-readable reporting, and the rendering of an
//! error chain into printable lines.

use crate::common::{DistanceData, LevelModel, RunError};
use vstd::prelude::*;

verus! {

/// What one run reports: level counts split by origin, the participant
/// count, and the entry count of each mode.
#[derive(Debug, Copy, Clone, PartialEq, Eq, Structural)]
pub struct Stats {
    pub total_levels: usize,
    pub official_levels: usize,
    pub workshop_levels: usize,
    pub total_users: usize,
    pub sprint_entries: usize,
    pub challenge_entries: usize,
    pub stunt_entries: usize,
}

/// How many of the first `k` levels are built-in (no origin metadata).
pub open spec fn official_count(levels: Seq<LevelModel>, k: int) -> int
    decreases k,
{
    if k <= 0 {
        0
    } else {
        official_count(levels, k - 1) + (if levels[k - 1].workshop_level_details is None {
            1int
        } else {
            0int
        })
    }
}

/// The total sprint entry count of the first `k` levels.
pub open spec fn sprint_entry_count(levels: Seq<LevelModel>, k: int) -> int
    decreases k,
{
    if k <= 0 {
        0
    } else {
        sprint_entry_count(levels, k - 1) + levels[k - 1].sprint_entries.len()
    }
}

/// The total challenge entry count of the first `k` levels.
pub open spec fn challenge_entry_count(levels: Seq<LevelModel>, k: int) -> int
    decreases k,
{
    if k <= 0 {
        0
    } else {
        challenge_entry_count(levels, k - 1) + levels[k - 1].challenge_entries.len()
    }
}

/// The total stunt entry count of the first `k` levels.
pub open spec fn stunt_entry_count(levels: Seq<LevelModel>, k: int) -> int
    decreases k,
{
    if k <= 0 {
        0
    } else {
        stunt_entry_count(levels, k - 1) + levels[k - 1].stunt_entries.len()
    }
}

/// Computes the run statistics of an aggregate.
pub fn compute_stats(data: &DistanceData) -> (s: Stats)
    requires
        sprint_entry_count(data@.levels, data@.levels.len() as int) <= usize::MAX,
        challenge_entry_count(data@.levels, data@.levels.len() as int) <= usize::MAX,
        stunt_entry_count(data@.levels, data@.levels.len() as int) <= usize::MAX,
    ensures
        s.total_levels == data@.levels.len(),
        s.official_levels == official_count(data@.levels, data@.levels.len() as int),
        s.workshop_levels == s.total_levels - s.official_levels,
        s.total_users == data@.users.len(),
        s.sprint_entries == sprint_entry_count(data@.levels, data@.levels.len() as int),
        s.challenge_entries == challenge_entry_count(data@.levels, data@.levels.len() as int),
        s.stunt_entries == stunt_entry_count(data@.levels, data@.levels.len() as int),
{
    let total_levels = data.levels.len();
    let total_users = data.users.len();
    let ghost levels = data@.levels;
    let ghost n = data@.levels.len() as int;
    let mut official: usize = 0;
    let mut sprint: usize = 0;
    let mut challenge: usize = 0;
    let mut stunt: usize = 0;
    let mut i: usize = 0;
    while i < data.levels.len()
        invariant
            i <= levels.len(),
            n == levels.len(),
            levels == data@.levels,
            sprint_entry_count(levels, n) <= usize::MAX,
            challenge_entry_count(levels, n) <= usize::MAX,
            stunt_entry_count(levels, n) <= usize::MAX,
            official == official_count(levels, i as int),
            official <= i,
            sprint == sprint_entry_count(levels, i as int),
            challenge == challenge_entry_count(levels, i as int),
            stunt == stunt_entry_count(levels, i as int),
        decreases levels.len() - i,
    {
        let level = &data.levels[i];
        proof {
            assert(level@ == levels[i as int]);
            lemma_entry_count_monotonic(levels, i + 1, n);
        }
        if level.workshop_level_details.is_none() {
            official = official + 1;
        }
        sprint = sprint + level.sprint_entries.len();
        challenge = challenge + level.challenge_entries.len();
        stunt = stunt + level.stunt_entries.len();
        i = i + 1;
    }
    Stats {
        total_levels,
        official_levels: official,
        workshop_levels: total_levels - official,
        total_users,
        sprint_entries: sprint,
        challenge_entries: challenge,
        stunt_entries: stunt,
    }
}

/// Each per-mode entry count grows with the level prefix, so every partial
/// sum stays under the full one.
proof fn lemma_entry_count_monotonic(levels: Seq<LevelModel>, k: int, n: int)
    requires
        0 <= k <= n <= levels.len(),
    ensures
        sprint_entry_count(levels, k) <= sprint_entry_count(levels, n),
        challenge_entry_count(levels, k) <= challenge_entry_count(levels, n),
        stunt_entry_count(levels, k) <= stunt_entry_count(levels, n),
        sprint_entry_count(levels, k) >= 0,
        challenge_entry_count(levels, k) >= 0,
        stunt_entry_count(levels, k) >= 0,
    decreases n - k,
{
    lemma_entry_count_nonneg(levels, k);
    if k < n {
        lemma_entry_count_monotonic(levels, k + 1, n);
    }
}

/// Entry counts are sums of lengths, so never negative.
proof fn lemma_entry_count_nonneg(levels: Seq<LevelModel>, k: int)
    ensures
        sprint_entry_count(levels, k) >= 0,
        challenge_entry_count(levels, k) >= 0,
        stunt_entry_count(levels, k) >= 0,
    decreases (if k > 0 { k } else { 0 }),
{
    if k > 0 {
        lemma_entry_count_nonneg(levels, k - 1);
    }
}

/// Renders an error chain as printable lines: the error's own message
/// first, then one line per cause, outermost first.
pub fn print_error(e: &RunError) -> (lines: Vec<String>)
    ensures
        lines@.len() == 1 + e@.causes.len(),
        lines.deep_view()[0] == e@.message,
        forall|k: int| 0 <= k < e@.causes.len() ==> lines.deep_view()[k + 1] == e@.causes[k],
{
    let mut lines: Vec<String> = Vec::new();
    lines.push(e.message.clone());
    let mut k: usize = 0;
    while k < e.causes.len()
        invariant
            k <= e@.causes.len(),
            lines@.len() == 1 + k,
            lines.deep_view()[0] == e@.message,
            forall|t: int| 0 <= t < k ==> lines.deep_view()[t + 1] == e@.causes[t],
        decreases e@.causes.len() - k,
    {
        let ghost pre = lines.deep_view();
        let cause = e.causes[k].clone();
        let ghost cause_view = cause@;
        lines.push(cause);
        proof {
            assert(lines.deep_view() =~= pre.push(cause_view));
            assert(cause_view == e@.causes[k as int]);
        }
        k = k + 1;
    }
    lines
}

} // verus!
