//! The error taxonomy shared by the repository and the application layers.

use vstd::prelude::*;

verus! {

/// Every failure a dictionary operation can report.
///
/// - `Validation`: the input was malformed (an empty word) and was rejected
///   before any storage call.
/// - `NotFound`: no entry matches the requested word.
/// - `EmptyDictionary`: a random selection was attempted against zero entries.
/// - `Storage`: the backing store failed (connectivity, timeout, constraint);
///   kept distinct from `NotFound` so callers can react appropriately.
#[derive(Clone, Copy, Debug, PartialEq, Eq, Structural)]
pub enum DictionaryError {
    Validation,
    NotFound,
    EmptyDictionary,
    Storage,
}

} // verus!
