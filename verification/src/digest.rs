//! Content digests over leaderboard entry lists.
//!
//! The synchronization engine compares a digest of the freshly fetched
//! entries of each (level, mode) pair against the digest stored alongside
//! the previous run's rows; only a mismatch triggers a rewrite.  The digest
//! is the 64-bit Fx hash (a fast, non-cryptographic change detector) of the
//! ordered (participant identifier, raw score, replay flag) tuple stream,
//! fed to the hash one 64-bit word at a time.  Ranks are deliberately not
//! part of the digest: they are a function of the scores.

use crate::common::{ScoreLeaderboardEntry, TimeLeaderboardEntry};
use vstd::prelude::*;

verus! {

/// The multiplier of the Fx word-mixing step.
pub const FX_SEED: u64 = 0x517cc1b727220a95;

/// One mixing step of the 64-bit Fx hash: rotate the state left by five
/// bits, fold in the word, multiply by the seed (wrapping).
pub open spec fn fx_step(state: u64, word: u64) -> u64 {
    vstd::wrapping::u64_specs::wrapping_mul(((state << 5) | (state >> 59)) ^ word, FX_SEED)
}

/// The hash state after mixing in the first `m` words, starting from zero.
pub open spec fn fx_fold(words: Seq<u64>, m: int) -> u64
    decreases m,
{
    if m <= 0 {
        0
    } else {
        fx_step(fx_fold(words, m - 1), words[m - 1])
    }
}

/// The 64-bit Fx digest of a word sequence.
pub open spec fn fx_digest(words: Seq<u64>) -> u64 {
    fx_fold(words, words.len() as int)
}

/// Mixes a word sequence into the Fx hash, left to right.
pub fn fx_hash_words(words: &Vec<u64>) -> (h: u64)
    ensures
        h == fx_digest(words@),
{
    let mut state: u64 = 0;
    let mut idx: usize = 0;
    while idx < words.len()
        invariant
            idx <= words@.len(),
            state == fx_fold(words@, idx as int),
        decreases words@.len() - idx,
    {
        state = (((state << 5u64) | (state >> 59u64)) ^ words[idx]).wrapping_mul(FX_SEED);
        idx = idx + 1;
    }
    state
}

/// The three words one entry feeds into the digest: participant identifier,
/// raw score (reinterpreted as an unsigned 32-bit word), replay flag.
pub open spec fn entry_words(id: u64, raw: i32, has_replay: bool) -> Seq<u64> {
    seq![id, (raw as u32) as u64, if has_replay { 1u64 } else { 0u64 }]
}

/// The word stream of the first `m` tuples.
pub open spec fn tuples_words_prefix(ts: Seq<(u64, i32, bool)>, m: int) -> Seq<u64>
    decreases m,
{
    if m <= 0 {
        Seq::empty()
    } else {
        tuples_words_prefix(ts, m - 1) + entry_words(ts[m - 1].0, ts[m - 1].1, ts[m - 1].2)
    }
}

/// The full word stream of a tuple sequence.
pub open spec fn tuples_words(ts: Seq<(u64, i32, bool)>) -> Seq<u64> {
    tuples_words_prefix(ts, ts.len() as int)
}

/// The digest tuple stream of a time-mode entry list.
pub open spec fn time_tuples(es: Seq<TimeLeaderboardEntry>) -> Seq<(u64, i32, bool)> {
    es.map_values(|e: TimeLeaderboardEntry| (e.steam_id, e.time, e.has_replay))
}

/// The digest tuple stream of a score-mode entry list.
pub open spec fn score_tuples(es: Seq<ScoreLeaderboardEntry>) -> Seq<(u64, i32, bool)> {
    es.map_values(|e: ScoreLeaderboardEntry| (e.steam_id, e.score, e.has_replay))
}

/// The stored digest of a sprint entry list, as the signed 64-bit value the
/// store's digest column holds.
pub open spec fn spec_sprint_digest(es: Seq<TimeLeaderboardEntry>) -> i64 {
    fx_digest(tuples_words(time_tuples(es))) as i64
}

/// The stored digest of a challenge entry list.
pub open spec fn spec_challenge_digest(es: Seq<TimeLeaderboardEntry>) -> i64 {
    fx_digest(tuples_words(time_tuples(es))) as i64
}

/// The stored digest of a stunt entry list.
pub open spec fn spec_stunt_digest(es: Seq<ScoreLeaderboardEntry>) -> i64 {
    fx_digest(tuples_words(score_tuples(es))) as i64
}

/// Builds the word stream of a tuple list.
fn build_tuple_words(ts: &Vec<(u64, i32, bool)>) -> (words: Vec<u64>)
    ensures
        words@ == tuples_words(ts@),
{
    let mut words: Vec<u64> = Vec::new();
    let mut idx: usize = 0;
    while idx < ts.len()
        invariant
            idx <= ts@.len(),
            words@ =~= tuples_words_prefix(ts@, idx as int),
        decreases ts@.len() - idx,
    {
        let (id, raw, has_replay) = ts[idx];
        words.push(id);
        words.push((raw as u32) as u64);
        words.push(if has_replay { 1u64 } else { 0u64 });
        assert(words@ =~= tuples_words_prefix(ts@, idx + 1));
        idx = idx + 1;
    }
    words
}

/// Digest of a time-mode entry list over its (participant, time, replay)
/// tuple stream.
pub fn compute_sprint_hash(entries: &Vec<TimeLeaderboardEntry>) -> (h: i64)
    ensures
        h == spec_sprint_digest(entries@),
{
    let mut tuples: Vec<(u64, i32, bool)> = Vec::new();
    let mut idx: usize = 0;
    while idx < entries.len()
        invariant
            idx <= entries@.len(),
            tuples@ =~= time_tuples(entries@).take(idx as int),
        decreases entries@.len() - idx,
    {
        let e = &entries[idx];
        tuples.push((e.steam_id, e.time, e.has_replay));
        assert(tuples@ =~= time_tuples(entries@).take(idx + 1));
        idx = idx + 1;
    }
    assert(tuples@ =~= time_tuples(entries@));
    let words = build_tuple_words(&tuples);
    fx_hash_words(&words) as i64
}

/// Digest of a challenge entry list; same tuple stream layout as sprint.
pub fn compute_challenge_hash(entries: &Vec<TimeLeaderboardEntry>) -> (h: i64)
    ensures
        h == spec_challenge_digest(entries@),
{
    compute_sprint_hash(entries)
}

/// Digest of a stunt entry list over its (participant, score, replay)
/// tuple stream.
pub fn compute_stunt_hash(entries: &Vec<ScoreLeaderboardEntry>) -> (h: i64)
    ensures
        h == spec_stunt_digest(entries@),
{
    let mut tuples: Vec<(u64, i32, bool)> = Vec::new();
    let mut idx: usize = 0;
    while idx < entries.len()
        invariant
            idx <= entries@.len(),
            tuples@ =~= score_tuples(entries@).take(idx as int),
        decreases entries@.len() - idx,
    {
        let e = &entries[idx];
        tuples.push((e.steam_id, e.score, e.has_replay));
        assert(tuples@ =~= score_tuples(entries@).take(idx + 1));
        idx = idx + 1;
    }
    assert(tuples@ =~= score_tuples(entries@));
    let words = build_tuple_words(&tuples);
    fx_hash_words(&words) as i64
}

/// The word stream of `m` tuples is `3 * m` words long.
pub proof fn lemma_tuples_words_len(ts: Seq<(u64, i32, bool)>, m: int)
    requires
        0 <= m <= ts.len(),
    ensures
        tuples_words_prefix(ts, m).len() == 3 * m,
    decreases m,
{
    if m > 0 {
        lemma_tuples_words_len(ts, m - 1);
    }
}

/// The words of tuple `i` sit at positions `3 * i` to `3 * i + 2` of the
/// word stream.
pub proof fn lemma_tuples_words_index(ts: Seq<(u64, i32, bool)>, m: int, i: int)
    requires
        0 <= i < m <= ts.len(),
    ensures
        tuples_words_prefix(ts, m).len() == 3 * m,
        tuples_words_prefix(ts, m)[3 * i] == ts[i].0,
        tuples_words_prefix(ts, m)[3 * i + 1] == (ts[i].1 as u32) as u64,
        tuples_words_prefix(ts, m)[3 * i + 2] == (if ts[i].2 { 1u64 } else { 0u64 }),
    decreases m,
{
    lemma_tuples_words_len(ts, m);
    if i < m - 1 {
        lemma_tuples_words_index(ts, m - 1, i);
    } else {
        lemma_tuples_words_len(ts, m - 1);
    }
}

/// Law: the word stream determines the tuple stream.  Two entry lists that
/// differ in any participant, score or replay flag feed different word
/// streams into the hash, so their digests agree only on a hash collision.
pub proof fn lemma_tuple_words_injective(a: Seq<(u64, i32, bool)>, b: Seq<(u64, i32, bool)>)
    requires
        tuples_words(a) == tuples_words(b),
    ensures
        a =~= b,
{
    lemma_tuples_words_len(a, a.len() as int);
    lemma_tuples_words_len(b, b.len() as int);
    assert(a.len() == b.len());
    assert forall|i: int| 0 <= i < a.len() implies a[i] == b[i] by {
        lemma_tuples_words_index(a, a.len() as int, i);
        lemma_tuples_words_index(b, b.len() as int, i);
        let x = a[i].1;
        let y = b[i].1;
        assert((x as u32) == (y as u32) ==> x == y) by (bit_vector);
    }
}

/// Law: the digest of a time-mode entry list reads nothing but the ordered
/// (participant, time, replay) tuple stream; in particular it ignores the
/// computed ranks.
pub proof fn lemma_time_digest_stable(a: Seq<TimeLeaderboardEntry>, b: Seq<TimeLeaderboardEntry>)
    requires
        time_tuples(a) == time_tuples(b),
    ensures
        spec_sprint_digest(a) == spec_sprint_digest(b),
        spec_challenge_digest(a) == spec_challenge_digest(b),
{
}

/// Law: the digest of a stunt entry list reads nothing but the ordered
/// (participant, score, replay) tuple stream.
pub proof fn lemma_score_digest_stable(a: Seq<ScoreLeaderboardEntry>, b: Seq<ScoreLeaderboardEntry>)
    requires
        score_tuples(a) == score_tuples(b),
    ensures
        spec_stunt_digest(a) == spec_stunt_digest(b),
{
}

} // verus!
