//! The conversion of one file, step by step: the output directory is made,
//! the engine is called, and after a success the source file's modification
//! time is read for the metadata. What came of the file follows from how far
//! this went.

use crate::fault::FaultKind;
use vstd::prelude::*;

verus! {

/// How the attempt to convert one file went.
#[derive(Clone, Copy, Debug, PartialEq, Eq, Structural)]
pub enum Attempt {
    /// The output directory could not be made; the engine was not called.
    NoDirectory,
    /// The engine could not be loaded, or raised a fault while it ran.
    EngineFailed,
    /// The engine reported that it could not convert the file.
    Declined,
    /// The engine reported success, but the modification time of the source
    /// file could not be read afterwards.
    ConvertedUnread,
    /// The engine reported success; the source file's modification time was
    /// then `mtime`.
    Converted { mtime: i64 },
}

/// What came of one file.
#[derive(Clone, Copy, Debug, PartialEq, Eq, Structural)]
pub enum Outcome {
    /// Converted, and to be noted in the metadata.
    Converted,
    /// The engine judged its own work a failure.
    Declined,
    /// A fault struck this file.
    Faulted(FaultKind),
}

/// A request to note one conversion in the store: an entry under
/// `(profile_id, source_file)` is made, or gets the new `mtime`.
pub struct MetadataUpdate {
    pub profile_id: u32,
    pub source_file: String,
    pub mtime: i64,
}

/// What came of a file whose conversion went as `attempt` says.
pub open spec fn outcome_of(attempt: Attempt) -> Outcome {
    match attempt {
        Attempt::NoDirectory => Outcome::Faulted(FaultKind::Io),
        Attempt::EngineFailed => Outcome::Faulted(FaultKind::Engine),
        Attempt::Declined => Outcome::Declined,
        Attempt::ConvertedUnread => Outcome::Faulted(FaultKind::Io),
        Attempt::Converted { mtime } => Outcome::Converted,
    }
}

/// The modification time to note after `attempt`: that of a conversion which
/// succeeded and whose file could be read, and none otherwise.
pub open spec fn noted_mtime(attempt: Attempt) -> Option<i64> {
    match attempt {
        Attempt::Converted { mtime } => Some(mtime),
        _ => None,
    }
}

/// Settles one file: what came of it, and the request to the store that
/// follows. A request follows exactly when the engine reported success and
/// the file's modification time could be read; a failed file leaves no trace
/// in the metadata, so the next run finds it stale again.
pub fn settle(profile_id: u32, source_file: &str, attempt: Attempt) -> (settled: (
    Outcome,
    Option<MetadataUpdate>,
))
    ensures
        settled.0 == outcome_of(attempt),
        match noted_mtime(attempt) {
            Some(mtime) => settled.1 matches Some(update) && update.profile_id == profile_id
                && update.source_file@ == source_file@ && update.mtime == mtime,
            None => settled.1 is None,
        },
        settled.1 is Some <==> settled.0 == Outcome::Converted,
{
    match attempt {
        Attempt::NoDirectory => (Outcome::Faulted(FaultKind::Io), None),
        Attempt::EngineFailed => (Outcome::Faulted(FaultKind::Engine), None),
        Attempt::Declined => (Outcome::Declined, None),
        Attempt::ConvertedUnread => (Outcome::Faulted(FaultKind::Io), None),
        Attempt::Converted { mtime } => (
            Outcome::Converted,
            Some(MetadataUpdate { profile_id, source_file: source_file.to_owned(), mtime }),
        ),
    }
}

/// How a conversion went whose output directory was there: `reported` is
/// what the engine returned, or nothing if it could not be loaded or raised a
/// fault; `mtime` is the source file's modification time as read after a
/// success, or nothing if it could not be read.
pub open spec fn attempt_for(reported: Option<bool>, mtime: Option<i64>) -> Attempt {
    match reported {
        None => Attempt::EngineFailed,
        Some(false) => Attempt::Declined,
        Some(true) => match mtime {
            Some(m) => Attempt::Converted { mtime: m },
            None => Attempt::ConvertedUnread,
        },
    }
}

/// How a conversion went whose output directory was there.
pub fn attempt_of(reported: Option<bool>, mtime: Option<i64>) -> (attempt: Attempt)
    ensures
        attempt == attempt_for(reported, mtime),
{
    match reported {
        None => Attempt::EngineFailed,
        Some(false) => Attempt::Declined,
        Some(true) => match mtime {
            Some(m) => Attempt::Converted { mtime: m },
            None => Attempt::ConvertedUnread,
        },
    }
}

/// What happened in the conversion of one file.
#[derive(Clone, Copy, Debug, PartialEq, Eq, Structural)]
pub enum Happened {
    /// The output directory is there.
    DirectoryMade,
    /// The output directory could not be made.
    DirectoryFailed,
    /// The engine could not be loaded, or raised a fault while it ran.
    EngineFailed,
    /// The engine reported that it could not convert the file.
    EngineDeclined,
    /// The engine reported success.
    EngineSucceeded,
    /// The source file's modification time was read.
    TimeRead { mtime: i64 },
    /// The source file's modification time could not be read.
    TimeUnread,
}

/// How far the conversion of one file has come.
#[derive(Clone, Copy, Debug, PartialEq, Eq, Structural)]
pub enum Stage {
    /// Nothing was done yet.
    Planned,
    /// The output directory is there; the engine was not called yet.
    DirectoryReady,
    /// The engine reported success; the modification time was not read yet.
    Succeeded,
    /// Over, in this way.
    Settled(Attempt),
}

/// What is to be done next for one file.
#[derive(Clone, Copy, Debug, PartialEq, Eq, Structural)]
pub enum Action {
    /// Make the output directory, if it is not there.
    MakeDirectory,
    /// Call the engine.
    CallEngine,
    /// Read the source file's modification time.
    ReadTime,
    /// Nothing more: the conversion went in this way.
    Finish(Attempt),
}

impl Stage {
    /// What the conversion waits for at this stage.
    pub open spec fn pending(self) -> Action {
        match self {
            Stage::Planned => Action::MakeDirectory,
            Stage::DirectoryReady => Action::CallEngine,
            Stage::Succeeded => Action::ReadTime,
            Stage::Settled(attempt) => Action::Finish(attempt),
        }
    }

    /// The stage after `happened`. What does not answer the pending action
    /// changes nothing; a failure settles the conversion there and then.
    pub open spec fn step(self, happened: Happened) -> Stage {
        match (self, happened) {
            (Stage::Planned, Happened::DirectoryMade) => Stage::DirectoryReady,
            (Stage::Planned, Happened::DirectoryFailed) => Stage::Settled(Attempt::NoDirectory),
            (Stage::DirectoryReady, Happened::EngineFailed) => Stage::Settled(Attempt::EngineFailed),
            (Stage::DirectoryReady, Happened::EngineDeclined) => Stage::Settled(Attempt::Declined),
            (Stage::DirectoryReady, Happened::EngineSucceeded) => Stage::Succeeded,
            (Stage::Succeeded, Happened::TimeRead { mtime }) => Stage::Settled(
                Attempt::Converted { mtime },
            ),
            (Stage::Succeeded, Happened::TimeUnread) => Stage::Settled(Attempt::ConvertedUnread),
            _ => self,
        }
    }

    /// The stage after `events`, one after the other.
    pub open spec fn after(self, events: Seq<Happened>) -> Stage
        decreases events.len(),
    {
        if events.len() == 0 {
            self
        } else {
            self.after(events.drop_last()).step(events.last())
        }
    }

    /// How far this stage is from the start.
    pub open spec fn rank(self) -> nat {
        match self {
            Stage::Planned => 0,
            Stage::DirectoryReady => 1,
            Stage::Succeeded => 2,
            Stage::Settled(_) => 3,
        }
    }
}

/// What the engine's answer is as an event.
pub open spec fn answer_of(reported: Option<bool>) -> Happened {
    match reported {
        None => Happened::EngineFailed,
        Some(false) => Happened::EngineDeclined,
        Some(true) => Happened::EngineSucceeded,
    }
}

/// What the reading of the modification time is as an event.
pub open spec fn reading_of(mtime: Option<i64>) -> Happened {
    match mtime {
        Some(m) => Happened::TimeRead { mtime: m },
        None => Happened::TimeUnread,
    }
}

/// A conversion never goes back: no event leads to an earlier stage. So the
/// directory is made before the engine is called, and once the engine has
/// answered it is not called again.
pub proof fn lemma_conversion_moves_on(stage: Stage, events: Seq<Happened>)
    ensures
        stage.after(events).rank() >= stage.rank(),
    decreases events.len(),
{
    if events.len() > 0 {
        lemma_conversion_moves_on(stage, events.drop_last());
    }
}

/// A settled conversion stays as it is, whatever is reported of it later:
/// nothing is tried again.
pub proof fn lemma_settled_stays_settled(attempt: Attempt, events: Seq<Happened>)
    ensures
        Stage::Settled(attempt).after(events) == Stage::Settled(attempt),
    decreases events.len(),
{
    if events.len() > 0 {
        lemma_settled_stays_settled(attempt, events.drop_last());
    }
}

/// A conversion whose directory was made ends as the engine's answer and
/// the reading of the time say.
pub proof fn lemma_orderly_conversion(reported: Option<bool>, mtime: Option<i64>)
    ensures
        Stage::Planned.step(Happened::DirectoryMade).step(answer_of(reported)).step(
            reading_of(mtime),
        ) == Stage::Settled(attempt_for(reported, mtime)),
        Stage::Planned.step(Happened::DirectoryFailed) == Stage::Settled(Attempt::NoDirectory),
{
}

/// The conversion of one file.
pub struct Conversion {
    stage: Stage,
}

impl View for Conversion {
    type V = Stage;

    closed spec fn view(&self) -> Stage {
        self.stage
    }
}

impl Conversion {
    /// A conversion of which nothing was done yet.
    pub fn begin() -> (conversion: Conversion)
        ensures
            conversion@ == Stage::Planned,
    {
        Conversion { stage: Stage::Planned }
    }

    /// What is to be done next.
    pub fn pending(&self) -> (action: Action)
        ensures
            action == self@.pending(),
    {
        match self.stage {
            Stage::Planned => Action::MakeDirectory,
            Stage::DirectoryReady => Action::CallEngine,
            Stage::Succeeded => Action::ReadTime,
            Stage::Settled(attempt) => Action::Finish(attempt),
        }
    }

    /// Takes note of what happened, and says what is to be done next.
    pub fn advance(&mut self, happened: Happened) -> (action: Action)
        ensures
            final(self)@ == old(self)@.step(happened),
            action == final(self)@.pending(),
    {
        let next = match (self.stage, happened) {
            (Stage::Planned, Happened::DirectoryMade) => Stage::DirectoryReady,
            (Stage::Planned, Happened::DirectoryFailed) => Stage::Settled(Attempt::NoDirectory),
            (Stage::DirectoryReady, Happened::EngineFailed) => Stage::Settled(Attempt::EngineFailed),
            (Stage::DirectoryReady, Happened::EngineDeclined) => Stage::Settled(Attempt::Declined),
            (Stage::DirectoryReady, Happened::EngineSucceeded) => Stage::Succeeded,
            (Stage::Succeeded, Happened::TimeRead { mtime }) => Stage::Settled(
                Attempt::Converted { mtime },
            ),
            (Stage::Succeeded, Happened::TimeUnread) => Stage::Settled(Attempt::ConvertedUnread),
            (stage, _) => stage,
        };
        self.stage = next;
        self.pending()
    }
}

/// The engine's answer as an event: `reported` is what the engine returned,
/// or nothing if it could not be loaded or raised a fault.
pub fn answer(reported: Option<bool>) -> (happened: Happened)
    ensures
        happened == answer_of(reported),
{
    match reported {
        None => Happened::EngineFailed,
        Some(false) => Happened::EngineDeclined,
        Some(true) => Happened::EngineSucceeded,
    }
}

/// The reading of the modification time as an event: `mtime` is what was
/// read, or nothing if the file's attributes could not be read.
pub fn reading(mtime: Option<i64>) -> (happened: Happened)
    ensures
        happened == reading_of(mtime),
{
    match mtime {
        Some(m) => Happened::TimeRead { mtime: m },
        None => Happened::TimeUnread,
    }
}

} // verus!
