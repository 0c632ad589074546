//! Offline-content engine for a novel-reading client: expiring caches with
//! per-key sharded locking, content-addressed image and chapter-text caches,
//! and a persistent, hierarchical download state machine.
use vstd::prelude::*;

pub mod cache;
pub mod chapter_cache;
pub mod context;
pub mod driver;
pub mod hashing;
pub mod image_cache;
pub mod models;
pub mod queue;
pub mod seqext;
pub mod strutil;
pub mod text;

verus! {

/// What went wrong during a cache or download operation. Transient fetch
/// failures are only retried on an explicit reset; malformed content is
/// treated like a fetch failure and never cached; storage failures mark the
/// entity failed and the driver continues; initialization failures are
/// fatal.
#[derive(Clone, Copy, Debug, PartialEq, Eq, Structural)]
pub enum EngineError {
    TransientFetch,
    Decode,
    Storage,
    FatalInit,
}

impl EngineError {
    /// A short description of the error.
    pub fn message(&self) -> (r: String)
        ensures
            r@ == match *self {
                EngineError::TransientFetch => "the remote source could not be reached"@,
                EngineError::Decode => "the fetched content is malformed"@,
                EngineError::Storage => "the local store refused the write"@,
                EngineError::FatalInit => "the engine could not be initialized"@,
            },
    {
        match *self {
            EngineError::TransientFetch => "the remote source could not be reached".to_owned(),
            EngineError::Decode => "the fetched content is malformed".to_owned(),
            EngineError::Storage => "the local store refused the write".to_owned(),
            EngineError::FatalInit => "the engine could not be initialized".to_owned(),
        }
    }
}

/// Download state of one entity in the download queue.
#[derive(Clone, Copy, Debug, PartialEq, Eq, Structural)]
pub enum Status {
    NotStarted,
    Success,
    Failed,
    Deleting,
}

impl Status {
    /// Integer code used by the persistent store.
    pub fn code(&self) -> (c: i32)
        ensures
            c == match *self {
                Status::NotStarted => 0int,
                Status::Success => 1int,
                Status::Failed => 2int,
                Status::Deleting => 3int,
            },
    {
        match *self {
            Status::NotStarted => 0,
            Status::Success => 1,
            Status::Failed => 2,
            Status::Deleting => 3,
        }
    }

    /// Decode the store's integer code; codes outside 0..=3 are invalid.
    pub fn from_code(c: i32) -> (s: Option<Status>)
        ensures
            s == if c == 0 {
                Some(Status::NotStarted)
            } else if c == 1 {
                Some(Status::Success)
            } else if c == 2 {
                Some(Status::Failed)
            } else if c == 3 {
                Some(Status::Deleting)
            } else {
                None::<Status>
            },
    {
        if c == 0 {
            Some(Status::NotStarted)
        } else if c == 1 {
            Some(Status::Success)
        } else if c == 2 {
            Some(Status::Failed)
        } else if c == 3 {
            Some(Status::Deleting)
        } else {
            None
        }
    }
}

} // verus!
