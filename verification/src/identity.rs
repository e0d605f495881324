//! The identity resolver: collects every distinct participant identifier
//! referenced by the aggregate, splits the collection into bounded batches
//! for the external identity service, and assembles the resolved users.

use crate::common::{Level, LevelModel, ScoreLeaderboardEntry, TimeLeaderboardEntry, User,
    UserModel};
use vstd::prelude::*;

verus! {

/// The largest number of identifiers handed to the identity service in one
/// request.
pub const NAME_CHUNK_SIZE: usize = 1000;

/// The origin author of a level, present only for user-generated levels.
pub open spec fn author_of(l: LevelModel) -> Option<u64> {
    match l.workshop_level_details {
        Some(details) => Some(details.0.creator),
        None => None,
    }
}

/// The participant identifiers one level contributes to the identity set:
/// its origin author (if user-generated) and the participant of every entry
/// of every mode.
pub open spec fn level_user_ids(l: LevelModel) -> Set<u64> {
    Set::new(
        |id: u64|
            author_of(l) == Some(id) || (exists|k: int|
                0 <= k < l.sprint_entries.len() && (#[trigger] l.sprint_entries[k]).steam_id == id)
                || (exists|k: int|
                0 <= k < l.challenge_entries.len() && (#[trigger] l.challenge_entries[k]).steam_id
                    == id) || (exists|k: int|
                0 <= k < l.stunt_entries.len() && (#[trigger] l.stunt_entries[k]).steam_id == id),
    )
}

/// The union of every level's participant identifiers: exactly the
/// identifiers the resolved participant set must cover.
pub open spec fn aggregate_user_ids(levels: Seq<LevelModel>) -> Set<u64> {
    Set::new(
        |id: u64|
            exists|j: int| 0 <= j < levels.len() && (#[trigger] level_user_ids(levels[j])).contains(
                id,
            ),
    )
}

/// Whether an identifier already stands in the collection vector.
fn vec_contains_id(ids: &Vec<u64>, x: u64) -> (r: bool)
    ensures
        r == ids@.contains(x),
{
    let mut idx: usize = 0;
    while idx < ids.len()
        invariant
            idx <= ids@.len(),
            forall|k: int| 0 <= k < idx ==> ids@[k] != x,
        decreases ids@.len() - idx,
    {
        if ids[idx] == x {
            return true;
        }
        idx = idx + 1;
    }
    false
}

/// Inserts an identifier unless it is already present, keeping the
/// collection duplicate-free.
fn insert_id(ids: &mut Vec<u64>, x: u64)
    requires
        old(ids)@.no_duplicates(),
    ensures
        final(ids)@.no_duplicates(),
        forall|y: u64| final(ids)@.contains(y) <==> (old(ids)@.contains(y) || y == x),
{
    let present = vec_contains_id(ids, x);
    if !present {
        let ghost pre = ids@;
        ids.push(x);
        proof {
            assert forall|y: u64| ids@.contains(y) implies (pre.contains(y) || y == x) by {
                let k = choose|k: int| 0 <= k < ids@.len() && ids@[k] == y;
                if k < pre.len() {
                    assert(pre[k] == y);
                }
            }
            assert forall|y: u64| pre.contains(y) || y == x implies ids@.contains(y) by {
                if pre.contains(y) {
                    let k = choose|k: int| 0 <= k < pre.len() && pre[k] == y;
                    assert(ids@[k] == y);
                } else {
                    assert(ids@[pre.len() as int] == x);
                }
            }
            assert forall|i: int, j: int|
                0 <= i < ids@.len() && 0 <= j < ids@.len() && i != j implies ids@[i]
                != ids@[j] by {
                if i < pre.len() && j < pre.len() {
                } else if j == pre.len() {
                    assert(ids@[j] == x);
                    if ids@[i] == x {
                        assert(pre[i] == x);
                        assert(pre.contains(x));
                    }
                } else {
                    assert(ids@[i] == x);
                    if ids@[j] == x {
                        assert(pre[j] == x);
                        assert(pre.contains(x));
                    }
                }
            }
        }
    }
}

/// Inserts the participant of every time-mode entry.
fn insert_time_entry_ids(ids: &mut Vec<u64>, entries: &Vec<TimeLeaderboardEntry>)
    requires
        old(ids)@.no_duplicates(),
    ensures
        final(ids)@.no_duplicates(),
        forall|y: u64|
            final(ids)@.contains(y) <==> (old(ids)@.contains(y) || (exists|t: int|
                0 <= t < entries@.len() && (#[trigger] entries@[t]).steam_id == y)),
{
    let ghost ids0 = ids@;
    let mut k: usize = 0;
    while k < entries.len()
        invariant
            k <= entries@.len(),
            ids@.no_duplicates(),
            forall|y: u64|
                ids@.contains(y) <==> (ids0.contains(y) || (exists|t: int|
                    0 <= t < k && (#[trigger] entries@[t]).steam_id == y)),
        decreases entries@.len() - k,
    {
        let ghost pre = ids@;
        insert_id(ids, entries[k].steam_id);
        proof {
            let ghost x = entries@[k as int].steam_id;
            assert forall|y: u64| ids@.contains(y) implies (ids0.contains(y) || (exists|t: int|
                0 <= t < k + 1 && (#[trigger] entries@[t]).steam_id == y)) by {
                if pre.contains(y) {
                    if !ids0.contains(y) {
                        let t = choose|t: int|
                            0 <= t < k && (#[trigger] entries@[t]).steam_id == y;
                        assert(0 <= t < k + 1 && entries@[t].steam_id == y);
                    }
                } else {
                    assert(y == x);
                    assert(entries@[k as int].steam_id == y);
                }
            }
            assert forall|y: u64| (ids0.contains(y) || (exists|t: int|
                0 <= t < k + 1 && (#[trigger] entries@[t]).steam_id == y)) implies ids@.contains(
                y,
            ) by {
                if !ids0.contains(y) {
                    let t = choose|t: int| 0 <= t < k + 1 && (#[trigger] entries@[t]).steam_id == y;
                    if t < k {
                        assert(pre.contains(y));
                    }
                }
            }
        }
        k = k + 1;
    }
}

/// Inserts the participant of every score-mode entry.
fn insert_score_entry_ids(ids: &mut Vec<u64>, entries: &Vec<ScoreLeaderboardEntry>)
    requires
        old(ids)@.no_duplicates(),
    ensures
        final(ids)@.no_duplicates(),
        forall|y: u64|
            final(ids)@.contains(y) <==> (old(ids)@.contains(y) || (exists|t: int|
                0 <= t < entries@.len() && (#[trigger] entries@[t]).steam_id == y)),
{
    let ghost ids0 = ids@;
    let mut k: usize = 0;
    while k < entries.len()
        invariant
            k <= entries@.len(),
            ids@.no_duplicates(),
            forall|y: u64|
                ids@.contains(y) <==> (ids0.contains(y) || (exists|t: int|
                    0 <= t < k && (#[trigger] entries@[t]).steam_id == y)),
        decreases entries@.len() - k,
    {
        let ghost pre = ids@;
        insert_id(ids, entries[k].steam_id);
        proof {
            let ghost x = entries@[k as int].steam_id;
            assert forall|y: u64| ids@.contains(y) implies (ids0.contains(y) || (exists|t: int|
                0 <= t < k + 1 && (#[trigger] entries@[t]).steam_id == y)) by {
                if pre.contains(y) {
                    if !ids0.contains(y) {
                        let t = choose|t: int|
                            0 <= t < k && (#[trigger] entries@[t]).steam_id == y;
                        assert(0 <= t < k + 1 && entries@[t].steam_id == y);
                    }
                } else {
                    assert(y == x);
                    assert(entries@[k as int].steam_id == y);
                }
            }
            assert forall|y: u64| (ids0.contains(y) || (exists|t: int|
                0 <= t < k + 1 && (#[trigger] entries@[t]).steam_id == y)) implies ids@.contains(
                y,
            ) by {
                if !ids0.contains(y) {
                    let t = choose|t: int| 0 <= t < k + 1 && (#[trigger] entries@[t]).steam_id == y;
                    if t < k {
                        assert(pre.contains(y));
                    }
                }
            }
        }
        k = k + 1;
    }
}

/// Inserts every identifier one level contributes: the origin author (if
/// any), then the participants of the sprint, challenge and stunt entries.
fn insert_level_ids(ids: &mut Vec<u64>, level: &Level)
    requires
        old(ids)@.no_duplicates(),
    ensures
        final(ids)@.no_duplicates(),
        forall|y: u64|
            final(ids)@.contains(y) <==> (old(ids)@.contains(y) || level_user_ids(level@).contains(
                y,
            )),
{
    if let Some((details, _raw)) = &level.workshop_level_details {
        insert_id(ids, details.creator);
    }
    insert_time_entry_ids(ids, &level.sprint_entries);
    insert_time_entry_ids(ids, &level.challenge_entries);
    insert_score_entry_ids(ids, &level.stunt_entries);
}

/// Collects every distinct participant identifier referenced by the level
/// set: origin authors and entry participants across all three modes.  The
/// result has set semantics: no identifier appears twice, and the set of
/// identifiers equals the aggregate union exactly.
pub fn collect_user_ids(levels: &Vec<Level>) -> (ids: Vec<u64>)
    ensures
        ids@.no_duplicates(),
        forall|y: u64| ids@.contains(y) <==> aggregate_user_ids(levels.deep_view()).contains(y),
{
    let mut ids: Vec<u64> = Vec::new();
    let mut i: usize = 0;
    while i < levels.len()
        invariant
            i <= levels@.len(),
            ids@.no_duplicates(),
            forall|y: u64|
                ids@.contains(y) <==> (exists|j: int|
                    0 <= j < i && (#[trigger] level_user_ids(levels.deep_view()[j])).contains(y)),
        decreases levels@.len() - i,
    {
        let ghost pre = ids@;
        insert_level_ids(&mut ids, &levels[i]);
        proof {
            assert(levels[i as int]@ == levels.deep_view()[i as int]);
            assert forall|y: u64| ids@.contains(y) implies (exists|j: int|
                0 <= j < i + 1 && (#[trigger] level_user_ids(levels.deep_view()[j])).contains(
                    y,
                )) by {
                if pre.contains(y) {
                    let j = choose|j: int|
                        0 <= j < i && (#[trigger] level_user_ids(levels.deep_view()[j])).contains(
                            y,
                        );
                    assert(0 <= j < i + 1 && level_user_ids(levels.deep_view()[j]).contains(y));
                } else {
                    assert(level_user_ids(levels.deep_view()[i as int]).contains(y));
                }
            }
            assert forall|y: u64| (exists|j: int|
                0 <= j < i + 1 && (#[trigger] level_user_ids(levels.deep_view()[j])).contains(
                    y,
                )) implies ids@.contains(y) by {
                let j = choose|j: int|
                    0 <= j < i + 1 && (#[trigger] level_user_ids(levels.deep_view()[j])).contains(
                        y,
                    );
                if j < i {
                    assert(pre.contains(y));
                }
            }
        }
        i = i + 1;
    }
    ids
}

/// Splits the identifier list into consecutive batches of at most
/// `NAME_CHUNK_SIZE`, every batch but the last exactly full, whose
/// concatenation is the original list.
pub fn chunk_user_ids(ids: &Vec<u64>) -> (chunks: Vec<Vec<u64>>)
    ensures
        chunks.deep_view().flatten() == ids@,
        forall|j: int|
            0 <= j < chunks@.len() ==> 0 < #[trigger] chunks.deep_view()[j].len()
                <= NAME_CHUNK_SIZE,
        forall|j: int|
            0 <= j < chunks@.len() - 1 ==> #[trigger] chunks.deep_view()[j].len()
                == NAME_CHUNK_SIZE,
{
    let mut chunks: Vec<Vec<u64>> = Vec::new();
    let mut idx: usize = 0;
    while idx < ids.len()
        invariant
            idx <= ids@.len(),
            chunks.deep_view().flatten() =~= ids@.take(idx as int),
            forall|j: int|
                0 <= j < chunks@.len() ==> 0 < #[trigger] chunks.deep_view()[j].len()
                    <= NAME_CHUNK_SIZE,
            forall|j: int|
                0 <= j < chunks@.len() - 1 ==> #[trigger] chunks.deep_view()[j].len()
                    == NAME_CHUNK_SIZE,
            idx < ids@.len() ==> forall|j: int|
                0 <= j < chunks@.len() ==> #[trigger] chunks.deep_view()[j].len()
                    == NAME_CHUNK_SIZE,
        decreases ids@.len() - idx,
    {
        let ghost idx0 = idx as int;
        let mut chunk: Vec<u64> = Vec::new();
        while chunk.len() < NAME_CHUNK_SIZE && idx < ids.len()
            invariant
                0 <= idx0 <= idx <= ids@.len(),
                chunk@.len() <= NAME_CHUNK_SIZE,
                chunk@ =~= ids@.subrange(idx0, idx as int),
            decreases ids@.len() - idx,
        {
            chunk.push(ids[idx]);
            assert(chunk@ =~= ids@.subrange(idx0, idx + 1));
            idx = idx + 1;
        }
        assert(chunk@.len() == NAME_CHUNK_SIZE || idx == ids@.len());
        let ghost old_chunks = chunks.deep_view();
        let ghost chunk_view = chunk@;
        chunks.push(chunk);
        assert(chunks.deep_view().flatten() =~= ids@.take(idx as int)) by {
            assert(chunks.deep_view() =~~= old_chunks.push(chunk_view));
            old_chunks.lemma_flatten_push(chunk_view);
            assert(old_chunks.flatten() + chunk_view =~= ids@.take(idx as int));
        }
        assert(chunks.deep_view()[chunks@.len() - 1] == chunk_view);
    }
    chunks
}

/// Zips the identifier list with the names the identity service returned,
/// one user per identifier in order; a missing name becomes the empty
/// string, never an error.
pub fn assemble_users(ids: &Vec<u64>, names: &Vec<Option<String>>) -> (users: Vec<User>)
    requires
        names@.len() == ids@.len(),
    ensures
        users@.len() == ids@.len(),
        forall|i: int|
            0 <= i < ids@.len() ==> (#[trigger] users.deep_view()[i]).steam_id == ids@[i],
        forall|i: int|
            0 <= i < ids@.len() ==> (#[trigger] users.deep_view()[i]).name == (match names@[i] {
                Some(n) => n@,
                None => Seq::<char>::empty(),
            }),
{
    let mut users: Vec<User> = Vec::new();
    let mut i: usize = 0;
    while i < ids.len()
        invariant
            i <= ids@.len(),
            names@.len() == ids@.len(),
            users@.len() == i,
            forall|k: int|
                0 <= k < i ==> (#[trigger] users.deep_view()[k]).steam_id == ids@[k],
            forall|k: int|
                0 <= k < i ==> (#[trigger] users.deep_view()[k]).name == (match names@[k] {
                    Some(n) => n@,
                    None => Seq::<char>::empty(),
                }),
        decreases ids@.len() - i,
    {
        let name: String = match &names[i] {
            Some(n) => n.clone(),
            None => String::new(),
        };
        let ghost name_view = name@;
        let ghost pre = users.deep_view();
        users.push(User { steam_id: ids[i], name });
        proof {
            assert(users.deep_view() =~= pre.push(users@[i as int]@));
            assert(users.deep_view()[i as int].steam_id == ids@[i as int]);
            assert(users.deep_view()[i as int].name == name_view);
        }
        i = i + 1;
    }
    users
}

/// Law: the resolved participant set's identifier set equals exactly the
/// union of all origin-author identifiers and all entry-participant
/// identifiers, with no duplicates.  The premises are the contracts of
/// `collect_user_ids` and `assemble_users`.
pub proof fn lemma_identity_set_correct(
    levels: Seq<LevelModel>,
    ids: Seq<u64>,
    users: Seq<UserModel>,
)
    requires
        ids.no_duplicates(),
        forall|y: u64| ids.contains(y) <==> aggregate_user_ids(levels).contains(y),
        users.len() == ids.len(),
        forall|i: int| 0 <= i < ids.len() ==> (#[trigger] users[i]).steam_id == ids[i],
    ensures
        forall|y: u64|
            users.map_values(|u: UserModel| u.steam_id).contains(y) <==> aggregate_user_ids(
                levels,
            ).contains(y),
        users.map_values(|u: UserModel| u.steam_id).no_duplicates(),
{
    assert(users.map_values(|u: UserModel| u.steam_id) =~= ids);
}

} // verus!
