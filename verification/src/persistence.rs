//! Errors of a persistence backend.

use vstd::prelude::*;

use crate::text::concat;

verus! {

/// Failure reported by a persistence backend.
#[derive(Debug)]
pub enum PersistenceError {
    Backend(String),
}

impl PersistenceError {
    /// Human-readable text: `backend error: <detail>`.
    pub fn message(&self) -> (r: String)
        ensures
            match self {
                PersistenceError::Backend(d) => r@ == "backend error: "@ + d@,
            },
    {
        match self {
            PersistenceError::Backend(d) => concat("backend error: ", d.as_str()),
        }
    }
}

} // verus!
