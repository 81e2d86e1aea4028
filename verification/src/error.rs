use vstd::prelude::*;

verus! {

/// Errors surfaced by the library.
///
/// Backend storage failures, timestamp arithmetic that would overflow,
/// capacity exhaustion of the bounded in-memory backend, session cookie
/// problems and state-codec failures each get their own variant, so a
/// caller can tell a refused write from a transport problem.
#[derive(Debug, Clone, PartialEq, Eq)]
pub enum Error {
    /// A session-layer failure, with a human-readable description.
    Session(String),
    /// Session state could not be serialized or deserialized.
    Json,
    /// Timestamp arithmetic (now + ttl, or a ttl that does not fit) would
    /// overflow the representable range; the operation is refused.
    Timestamp,
    /// The capacity-bounded backend is full and eviction freed no slot.
    Capacity,
    /// The underlying storage backend is unavailable.
    Backend(String),
}

impl Error {
    /// A short description of the error, for logs.
    pub fn message(&self) -> (r: String)
        ensures
            self is Session ==> r@ == self->Session_0@,
            self is Json ==> r@ == "json error"@,
            self is Timestamp ==> r@ == "timestamp error"@,
            self is Capacity ==> r@ == "capacity is full"@,
            self is Backend ==> r@ == self->Backend_0@,
    {
        match self {
            Error::Session(s) => s.clone(),
            Error::Json => "json error".to_owned(),
            Error::Timestamp => "timestamp error".to_owned(),
            Error::Capacity => "capacity is full".to_owned(),
            Error::Backend(s) => s.clone(),
        }
    }
}

/// The result type used throughout the library.
pub type Result<T> = core::result::Result<T, Error>;

} // verus!
