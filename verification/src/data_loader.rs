//! What the background loader has delivered so far, and how each delivery
//! changes it.
use vstd::prelude::*;
use crate::logs::{LogsInfo, ResolvedLog};
use crate::snapshots::SnapshotFile;

verus! {

/// Where one piece of data stands.
#[derive(Debug, Clone)]
pub enum LoadingState<T> {
    NotStarted,
    Loading,
    Loaded(T),
    Error(String),
}

impl<T> LoadingState<T> {
    pub fn is_loading(&self) -> (r: bool)
        ensures
            r == (self is Loading),
    {
        matches!(self, LoadingState::Loading)
    }

    pub fn is_loaded(&self) -> (r: bool)
        ensures
            r == (self is Loaded),
    {
        matches!(self, LoadingState::Loaded(_))
    }

    pub fn is_error(&self) -> (r: bool)
        ensures
            r == (self is Error),
    {
        matches!(self, LoadingState::Error(_))
    }

    /// The data, once loaded.
    pub fn get_data(&self) -> (r: Option<&T>)
        ensures
            r == (match self {
                LoadingState::Loaded(d) => Some(d),
                _ => None,
            }),
    {
        match self {
            LoadingState::Loaded(data) => Some(data),
            _ => None,
        }
    }

    /// The error message, when loading failed.
    pub fn get_error(&self) -> (r: Option<&str>)
        ensures
            match self {
                LoadingState::Error(e) => r matches Some(s) && s@ == e@,
                _ => r is None,
            },
    {
        match self {
            LoadingState::Error(err) => Some(err.as_str()),
            _ => None,
        }
    }
}

/// The state a finished load leaves: the data, or the error's message.
pub open spec fn outcome<T>(result: Result<T, String>) -> LoadingState<T> {
    match result {
        Ok(d) => LoadingState::Loaded(d),
        Err(e) => LoadingState::Error(e),
    }
}

fn settle<T>(result: Result<T, String>) -> (r: LoadingState<T>)
    ensures
        r == outcome(result),
{
    match result {
        Ok(d) => LoadingState::Loaded(d),
        Err(e) => LoadingState::Error(e),
    }
}

/// Everything the viewer loads in the background.
#[derive(Debug, Clone)]
pub struct AppData {
    pub logs_info: LoadingState<LogsInfo>,
    pub log_events: LoadingState<Vec<ResolvedLog>>,
    pub snapshots: LoadingState<Vec<SnapshotFile>>,
}

impl Default for AppData {
    /// Nothing started yet.
    fn default() -> (r: Self)
        ensures
            r.logs_info is NotStarted,
            r.log_events is NotStarted,
            r.snapshots is NotStarted,
    {
        AppData {
            logs_info: LoadingState::NotStarted,
            log_events: LoadingState::NotStarted,
            snapshots: LoadingState::NotStarted,
        }
    }
}

/// A finished load, as the loader reports it.
pub enum DataMessage {
    LogsInfoLoaded(Result<LogsInfo, String>),
    LogEventsLoaded(Result<Vec<ResolvedLog>, String>),
    SnapshotsLoaded(Result<Vec<SnapshotFile>, String>),
}

impl AppData {
    /// All three loads under way.
    pub fn start_loading(&mut self)
        ensures
            final(self).logs_info is Loading,
            final(self).log_events is Loading,
            final(self).snapshots is Loading,
    {
        self.logs_info = LoadingState::Loading;
        self.log_events = LoadingState::Loading;
        self.snapshots = LoadingState::Loading;
    }

    /// Records a finished load: the piece it is about becomes loaded or
    /// failed, the others stay as they were.
    pub fn process_message(&mut self, message: DataMessage)
        ensures
            match message {
                DataMessage::LogsInfoLoaded(r) => *final(self) == (AppData { logs_info: outcome(r), ..*old(self) }),
                DataMessage::LogEventsLoaded(r) => *final(self) == (AppData { log_events: outcome(r), ..*old(self) }),
                DataMessage::SnapshotsLoaded(r) => *final(self) == (AppData { snapshots: outcome(r), ..*old(self) }),
            },
    {
        match message {
            DataMessage::LogsInfoLoaded(result) => {
                self.logs_info = settle(result);
            },
            DataMessage::LogEventsLoaded(result) => {
                self.log_events = settle(result);
            },
            DataMessage::SnapshotsLoaded(result) => {
                self.snapshots = settle(result);
            },
        }
    }
}

} // verus!
