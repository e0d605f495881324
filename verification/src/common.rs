//! Core data model: levels, leaderboard entries, users, and the aggregate
//! that one synchronization run materializes.

use vstd::prelude::*;

verus! {

/// One of the three independent leaderboard categories a level may support.
#[derive(Debug, Copy, Clone, PartialEq, Eq, Structural)]
pub enum GameMode {
    Sprint,
    Challenge,
    Stunt,
}

/// One entry as the remote leaderboard service returns it, before rank
/// computation: participant, raw score (a time or a score depending on the
/// mode), and whether a replay artifact exists.
#[derive(Debug, Copy, Clone, PartialEq, Eq, Structural)]
pub struct RawLeaderboardEntry {
    pub steam_id: u64,
    pub score: i32,
    pub has_replay: bool,
}

/// One participant's result on a (level, mode) pair whose raw score is a
/// lower-is-better time.
#[derive(Debug, Copy, Clone, PartialEq, Eq, Structural)]
pub struct TimeLeaderboardEntry {
    pub steam_id: u64,
    pub time: i32,
    pub rank: u32,
    pub has_replay: bool,
}

/// One participant's result on a (level, mode) pair whose raw score is a
/// higher-is-better score.
#[derive(Debug, Copy, Clone, PartialEq, Eq, Structural)]
pub struct ScoreLeaderboardEntry {
    pub steam_id: u64,
    pub score: i32,
    pub rank: u32,
    pub has_replay: bool,
}

/// A resolved participant identity.  `name` is empty when resolution failed.
#[derive(Debug, Clone)]
pub struct User {
    pub steam_id: u64,
    pub name: String,
}

/// Mathematical model of a `User`.
pub ghost struct UserModel {
    pub steam_id: u64,
    pub name: Seq<char>,
}

impl View for User {
    type V = UserModel;

    open spec fn view(&self) -> UserModel {
        UserModel { steam_id: self.steam_id, name: self.name@ }
    }
}

impl DeepView for User {
    type V = UserModel;

    open spec fn deep_view(&self) -> UserModel {
        self@
    }
}

/// One tag attached to a user-generated catalog item.
#[derive(Debug, Clone)]
pub struct Tag {
    pub tag: String,
}

impl View for Tag {
    type V = Seq<char>;

    open spec fn view(&self) -> Seq<char> {
        self.tag@
    }
}

impl DeepView for Tag {
    type V = Seq<char>;

    open spec fn deep_view(&self) -> Seq<char> {
        self@
    }
}

/// The fields of one user-generated catalog listing that the pipeline reads.
#[derive(Debug, Clone)]
pub struct PublishedFileDetailsSubset {
    pub published_file_id: i64,
    pub creator: u64,
    pub filename: String,
    pub file_size: i64,
    pub title: String,
    pub tags: Vec<Tag>,
}

/// Mathematical model of a `PublishedFileDetailsSubset`.
pub ghost struct DetailsModel {
    pub published_file_id: i64,
    pub creator: u64,
    pub filename: Seq<char>,
    pub file_size: i64,
    pub title: Seq<char>,
    pub tags: Seq<Seq<char>>,
}

impl View for PublishedFileDetailsSubset {
    type V = DetailsModel;

    open spec fn view(&self) -> DetailsModel {
        DetailsModel {
            published_file_id: self.published_file_id,
            creator: self.creator,
            filename: self.filename@,
            file_size: self.file_size,
            title: self.title@,
            tags: self.tags.deep_view(),
        }
    }
}

impl DeepView for PublishedFileDetailsSubset {
    type V = DetailsModel;

    open spec fn deep_view(&self) -> DetailsModel {
        self@
    }
}

/// One competitive item: a built-in level or a user-generated one.  A level
/// with no origin metadata is built-in and carries an identifier from the
/// reserved negative range; a user-generated level carries its listing
/// details and the raw descriptive payload it was parsed from.
#[derive(Debug, Clone)]
pub struct Level {
    pub id: i64,
    pub name: String,
    pub is_sprint: bool,
    pub is_challenge: bool,
    pub is_stunt: bool,
    pub workshop_level_details: Option<(PublishedFileDetailsSubset, String)>,
    pub sprint_entries: Vec<TimeLeaderboardEntry>,
    pub challenge_entries: Vec<TimeLeaderboardEntry>,
    pub stunt_entries: Vec<ScoreLeaderboardEntry>,
}

/// Mathematical model of a `Level`.
pub ghost struct LevelModel {
    pub id: i64,
    pub name: Seq<char>,
    pub is_sprint: bool,
    pub is_challenge: bool,
    pub is_stunt: bool,
    pub workshop_level_details: Option<(DetailsModel, Seq<char>)>,
    pub sprint_entries: Seq<TimeLeaderboardEntry>,
    pub challenge_entries: Seq<TimeLeaderboardEntry>,
    pub stunt_entries: Seq<ScoreLeaderboardEntry>,
}

impl View for Level {
    type V = LevelModel;

    open spec fn view(&self) -> LevelModel {
        LevelModel {
            id: self.id,
            name: self.name@,
            is_sprint: self.is_sprint,
            is_challenge: self.is_challenge,
            is_stunt: self.is_stunt,
            workshop_level_details: match self.workshop_level_details {
                Some((details, raw)) => Some((details@, raw@)),
                None => None,
            },
            sprint_entries: self.sprint_entries@,
            challenge_entries: self.challenge_entries@,
            stunt_entries: self.stunt_entries@,
        }
    }
}

impl DeepView for Level {
    type V = LevelModel;

    open spec fn deep_view(&self) -> LevelModel {
        self@
    }
}

/// The whole in-memory aggregate of one run: the unified level set with its
/// fetched entries, and the resolved participants.
#[derive(Debug, Clone)]
pub struct DistanceData {
    pub levels: Vec<Level>,
    pub users: Vec<User>,
}

/// Mathematical model of a `DistanceData`.
pub ghost struct DataModel {
    pub levels: Seq<LevelModel>,
    pub users: Seq<UserModel>,
}

impl View for DistanceData {
    type V = DataModel;

    open spec fn view(&self) -> DataModel {
        DataModel { levels: self.levels.deep_view(), users: self.users.deep_view() }
    }
}

/// A fatal run error as it surfaces to the caller: a message and the chain
/// of underlying causes, outermost first.
#[derive(Debug, Clone)]
pub struct RunError {
    pub message: String,
    pub causes: Vec<String>,
}

/// Mathematical model of a `RunError`.
pub ghost struct RunErrorModel {
    pub message: Seq<char>,
    pub causes: Seq<Seq<char>>,
}

impl View for RunError {
    type V = RunErrorModel;

    open spec fn view(&self) -> RunErrorModel {
        RunErrorModel { message: self.message@, causes: self.causes.deep_view() }
    }
}

impl DistanceData {
    /// An empty aggregate, extended stage by stage during a run.
    pub fn new() -> (data: Self)
        ensures
            data@.levels =~= Seq::<LevelModel>::empty(),
            data@.users =~= Seq::<UserModel>::empty(),
    {
        DistanceData { levels: Vec::new(), users: Vec::new() }
    }
}

} // verus!
