//! The coordinator between the front end, the conversion run and the store:
//! which kind of session a start leads to, and what each request asks of the
//! store.

use crate::config::DatabaseArgs;
use crate::conversion::MetadataUpdate;
use crate::fault::FaultKind;
use crate::profile::{is_column_name, Profile, ProfileRow};
use vstd::prelude::*;

verus! {

/// The kind of session that the store's start leads to.
#[derive(Clone, Copy, Debug, PartialEq, Eq, Structural)]
pub enum ModelEvent {
    /// Profiles are loaded and converted; the front end is not engaged.
    ReadEvent,
    /// The front end may define profiles.
    WriteEvent,
}

/// A request that reads from the store.
pub enum ReadEvent {
    /// The values of one column of the profiles, by the column's name.
    GetColumn(String),
    /// All profiles, each with its metadata.
    GetProfiles,
}

/// A request that writes to the store.
pub enum WriteEvent {
    /// A new profile.
    StoreProfile(Profile),
    /// The note of one successful conversion.
    UpdateMetadata(MetadataUpdate),
}

/// What reaches the coordinator.
pub enum AgentEvent {
    ReadEvent(ReadEvent),
    WriteEvent(WriteEvent),
    /// The sender is done: the session ends.
    Quit,
}

/// One operation of the store.
pub enum StoreRequest {
    FetchColumn(String),
    FetchProfiles,
    /// Insert this row as a new profile.
    StoreProfile(ProfileRow),
    /// Insert the entry under `(profile_id, source_file)`, or give it the new
    /// modification time if it is there.
    UpsertMetadata(MetadataUpdate),
}

/// What the coordinator does on an event.
pub enum Directive {
    /// Hand this request to the store and the answer back to the sender.
    Store(StoreRequest),
    /// The request cannot be put to the store: report this fault.
    Fail(FaultKind),
    /// End the session.
    Stop,
}

/// The session that a start leads to: a store that was only just created has
/// no profile yet, so profiles are to be defined; an existing store is
/// converted from unless the configuration asks for the profile manager.
pub open spec fn mode_of(store_created: bool, profile_manager: bool) -> ModelEvent {
    if store_created || profile_manager {
        ModelEvent::WriteEvent
    } else {
        ModelEvent::ReadEvent
    }
}

/// Whether `directive` is what `event` asks for.
pub open spec fn answers(directive: Directive, event: AgentEvent) -> bool {
    match event {
        AgentEvent::ReadEvent(ReadEvent::GetColumn(column)) => if is_column_name(column@) {
            directive matches Directive::Store(StoreRequest::FetchColumn(name)) && name@ == column@
        } else {
            directive matches Directive::Fail(FaultKind::Persistence)
        },
        AgentEvent::ReadEvent(ReadEvent::GetProfiles) => directive matches Directive::Store(
            StoreRequest::FetchProfiles,
        ),
        AgentEvent::WriteEvent(WriteEvent::StoreProfile(profile)) => directive matches Directive::Store(
            StoreRequest::StoreProfile(row),
        ) && row.stores(profile@),
        AgentEvent::WriteEvent(WriteEvent::UpdateMetadata(update)) => directive matches Directive::Store(
            StoreRequest::UpsertMetadata(noted),
        ) && noted == update,
        AgentEvent::Quit => directive is Stop,
    }
}

/// The coordinator.
pub struct Controller;

impl Controller {
    /// Decides the kind of session. `store_created` says whether the store
    /// had to be created at this start.
    pub fn session_mode(store_created: bool, args: &DatabaseArgs) -> (mode: ModelEvent)
        ensures
            mode == mode_of(store_created, args.profile_manager),
    {
        if store_created || args.profile_manager {
            ModelEvent::WriteEvent
        } else {
            ModelEvent::ReadEvent
        }
    }

    /// Decides what to do on `event`. Each request goes to the store as the
    /// one operation that it names, a note of a conversion always as an
    /// upsert; a request for a column that the profiles do not have is a
    /// fault of the store; only the request to quit ends the session.
    pub fn route(event: AgentEvent) -> (directive: Directive)
        ensures
            answers(directive, event),
            directive is Stop <==> event is Quit,
    {
        match event {
            AgentEvent::ReadEvent(ReadEvent::GetColumn(column)) => {
                if ProfileRow::is_column(column.as_str()) {
                    Directive::Store(StoreRequest::FetchColumn(column))
                } else {
                    Directive::Fail(FaultKind::Persistence)
                }
            },
            AgentEvent::ReadEvent(ReadEvent::GetProfiles) => Directive::Store(
                StoreRequest::FetchProfiles,
            ),
            AgentEvent::WriteEvent(WriteEvent::StoreProfile(profile)) => Directive::Store(
                StoreRequest::StoreProfile(profile.to_row()),
            ),
            AgentEvent::WriteEvent(WriteEvent::UpdateMetadata(update)) => Directive::Store(
                StoreRequest::UpsertMetadata(update),
            ),
            AgentEvent::Quit => Directive::Stop,
        }
    }

    /// The request for the values of the column `kind`.
    pub fn get_column_event(kind: &str) -> (event: AgentEvent)
        ensures
            event matches AgentEvent::ReadEvent(ReadEvent::GetColumn(column)) && column@ == kind@,
    {
        AgentEvent::ReadEvent(ReadEvent::GetColumn(kind.to_owned()))
    }

    /// The request for all profiles.
    pub fn get_profiles_event() -> (event: AgentEvent)
        ensures
            event matches AgentEvent::ReadEvent(ReadEvent::GetProfiles),
    {
        AgentEvent::ReadEvent(ReadEvent::GetProfiles)
    }

    /// The request to store `profile`.
    pub fn store_profile_event(profile: Profile) -> (event: AgentEvent)
        ensures
            event matches AgentEvent::WriteEvent(WriteEvent::StoreProfile(p)) && p == profile,
    {
        AgentEvent::WriteEvent(WriteEvent::StoreProfile(profile))
    }

    /// The request to note the conversion that `update` describes.
    pub fn update_metadata_event(update: MetadataUpdate) -> (event: AgentEvent)
        ensures
            event matches AgentEvent::WriteEvent(WriteEvent::UpdateMetadata(u)) && u == update,
    {
        AgentEvent::WriteEvent(WriteEvent::UpdateMetadata(update))
    }

    /// The request to end the session.
    pub fn quit_event() -> (event: AgentEvent)
        ensures
            event is Quit,
    {
        AgentEvent::Quit
    }
}

} // verus!
