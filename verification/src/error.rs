//! The ways in which the cache engine fails.

use vstd::prelude::*;

verus! {

/// An error of the cache engine.
#[derive(Debug, Clone, Copy, PartialEq, Eq, Structural)]
pub enum CacheError {
    /// An argument value is not a string.
    InvalidArgument,
    /// No fragment is stored under the key.
    NotFound,
    /// The store could not read or write a fragment.
    IoError,
}

/// What is said of an argument value that is not a string.
pub const INVALID_ARGUMENT_MESSAGE: &'static str = "an argument value is not a string";

/// What is said of a key under which nothing is stored.
pub const NOT_FOUND_MESSAGE: &'static str = "no fragment is stored under the key";

/// What is said of a store that failed.
pub const IO_ERROR_MESSAGE: &'static str = "the store could not read or write a fragment";

impl CacheError {
    /// The sentence that describes the error.
    pub open spec fn message_of(self) -> Seq<char> {
        match self {
            CacheError::InvalidArgument => INVALID_ARGUMENT_MESSAGE@,
            CacheError::NotFound => NOT_FOUND_MESSAGE@,
            CacheError::IoError => IO_ERROR_MESSAGE@,
        }
    }

    /// The sentence that describes the error.
    pub fn message(&self) -> (text: &'static str)
        ensures
            text@ == self.message_of(),
    {
        match self {
            CacheError::InvalidArgument => INVALID_ARGUMENT_MESSAGE,
            CacheError::NotFound => NOT_FOUND_MESSAGE,
            CacheError::IoError => IO_ERROR_MESSAGE,
        }
    }
}

} // verus!
