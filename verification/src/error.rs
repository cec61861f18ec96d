//! Typed error kinds and the error value that every fallible operation
//! of the library returns.

use vstd::prelude::*;

verus! {

/// The closed set of error kinds the library distinguishes.
#[derive(Clone, Copy, PartialEq, Eq, Structural, Debug)]
pub enum RedisErrorKind {
    /// A library invariant was violated.
    InternalError,
    /// A value could not be converted into the requested shape.
    IncorrectConversion,
    /// The transport failed or closed before a full reply arrived.
    ConnectionError,
    /// A malformed RESP frame, entry id or reply shape.
    ParseError,
    /// The server answered with a wire `Error` value.
    ReceiveError,
    /// A caller-supplied option is self-inconsistent.
    InvalidOptions,
}

/// An error: a kind to discriminate on plus a human-readable description.
#[derive(Debug, Clone)]
pub struct RedisError {
    pub error: RedisErrorKind,
    pub desc: String,
}

pub type RedisResult<T> = Result<T, RedisError>;

impl RedisError {
    pub fn new(error: RedisErrorKind, desc: String) -> (r: RedisError)
        ensures
            r.error == error,
            r.desc@ == desc@,
    {
        RedisError { error, desc }
    }

    pub fn description(&self) -> (r: &str)
        ensures
            r@ == self.desc@,
    {
        self.desc.as_str()
    }
}

} // verus!
