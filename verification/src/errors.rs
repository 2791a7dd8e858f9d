//! The error taxonomy the library surfaces to its callers. Each variant
//! carries a human-readable message; no variant is ever produced for a
//! condition another variant covers.

use vstd::prelude::*;

verus! {

/// What can go wrong around a tracked send or a jar operation:
/// a malformed request description, an exceeded deadline, a transport-level
/// failure, an unusable lock, a failed jar export or store serialization,
/// and a malformed jar snapshot on import.
#[derive(Debug)]
pub enum TrackError {
    BuildError(String),
    Timeout(String),
    RequestFailed(String),
    LockError(String),
    SerializationError(String),
    ParseError(String),
}

impl TrackError {
    /// The message the variant carries.
    pub open spec fn spec_message(&self) -> Seq<char> {
        match self {
            TrackError::BuildError(m) => m@,
            TrackError::Timeout(m) => m@,
            TrackError::RequestFailed(m) => m@,
            TrackError::LockError(m) => m@,
            TrackError::SerializationError(m) => m@,
            TrackError::ParseError(m) => m@,
        }
    }

    /// Read the message without consuming the error.
    pub fn message(&self) -> (r: &String)
        ensures
            r@ == self.spec_message(),
    {
        match self {
            TrackError::BuildError(m) => m,
            TrackError::Timeout(m) => m,
            TrackError::RequestFailed(m) => m,
            TrackError::LockError(m) => m,
            TrackError::SerializationError(m) => m,
            TrackError::ParseError(m) => m,
        }
    }
}

impl Clone for TrackError {
    fn clone(&self) -> (res: Self)
        ensures
            res == *self,
    {
        match self {
            TrackError::BuildError(m) => TrackError::BuildError(m.clone()),
            TrackError::Timeout(m) => TrackError::Timeout(m.clone()),
            TrackError::RequestFailed(m) => TrackError::RequestFailed(m.clone()),
            TrackError::LockError(m) => TrackError::LockError(m.clone()),
            TrackError::SerializationError(m) => TrackError::SerializationError(m.clone()),
            TrackError::ParseError(m) => TrackError::ParseError(m.clone()),
        }
    }
}

} // verus!
