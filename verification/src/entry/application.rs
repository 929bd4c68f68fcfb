//! The persistence contract every storage backend must provide.

use vstd::prelude::*;

use crate::entry::domain::Entry;
use crate::errors::DictionaryError;

verus! {

/// Whether the sequence `s` lists exactly the contents of the store `m`:
/// every listed entry is stored with that definition, every stored word is
/// listed, and no word is listed twice. Order is left unspecified.
pub open spec fn entries_match_map(s: Seq<Entry>, m: Map<Seq<char>, Seq<char>>) -> bool {
    &&& forall|i: int|
        0 <= i < s.len() ==> m.contains_key(#[trigger] s[i]@.word) && m[s[i]@.word]
            == s[i]@.definition
    &&& forall|w: Seq<char>| m.contains_key(w) ==> exists|i: int|
        0 <= i < s.len() && #[trigger] s[i]@.word == w
    &&& forall|i: int, j: int|
        0 <= i < j < s.len() ==> (#[trigger] s[i]@.word) != (#[trigger] s[j]@.word)
}

/// The persistence capability set: find one, list all, save (upsert by
/// word), delete by key. A backend is specified by `entries()`, the map from
/// stored words to their definitions. Any method may fail with
/// [`DictionaryError::Storage`] (connectivity, timeout, constraint
/// violation); such a failure leaves the store unchanged and is the only
/// failure besides the ones each method names.
pub trait EntryRepository: Sized {
    /// The current contents of the store, as a map from words to
    /// definitions.
    spec fn entries(&self) -> Map<Seq<char>, Seq<char>>;

    /// Returns the entry matching `word` exactly, and `NotFound` when no
    /// entry does: absence is detected from the absence of a match, never
    /// from inspecting field contents.
    fn find_by_word(&self, word: &str) -> (result: Result<Entry, DictionaryError>)
        ensures
            match result {
                Ok(entry) => self.entries().contains_key(word@) && entry@.word == word@
                    && entry@.definition == self.entries()[word@],
                Err(DictionaryError::NotFound) => !self.entries().contains_key(word@),
                Err(DictionaryError::Storage) => true,
                Err(_) => false,
            },
    ;

    /// Returns every stored entry, in an unspecified order; an empty store
    /// yields an empty vector, not an error.
    fn get_all(&self) -> (result: Result<Vec<Entry>, DictionaryError>)
        ensures
            match result {
                Ok(list) => entries_match_map(list@, self.entries()),
                Err(DictionaryError::Storage) => true,
                Err(_) => false,
            },
    ;

    /// Persists `entry`: creates a row when its word is absent, replaces the
    /// definition when the word is already stored (upsert).
    fn save(&mut self, entry: &Entry) -> (result: Result<(), DictionaryError>)
        ensures
            match result {
                Ok(()) => final(self).entries() == old(self).entries().insert(
                    entry@.word,
                    entry@.definition,
                ),
                Err(DictionaryError::Storage) => final(self).entries() == old(self).entries(),
                Err(_) => false,
            },
    ;

    /// Removes the entry matching `word` if present; deleting an absent word
    /// is not an error (idempotent delete).
    fn delete_by_word(&mut self, word: &str) -> (result: Result<(), DictionaryError>)
        ensures
            match result {
                Ok(()) => final(self).entries() == old(self).entries().remove(word@),
                Err(DictionaryError::Storage) => final(self).entries() == old(self).entries(),
                Err(_) => false,
            },
    ;
}

/// Turns the outcome of a single-row lookup into the repository's result:
/// a missing row, not a sentinel value inside a row, is what signals
/// `NotFound`.
pub fn find_outcome(row: Option<Entry>) -> (result: Result<Entry, DictionaryError>)
    ensures
        match row {
            Some(entry) => result == Ok::<Entry, DictionaryError>(entry),
            None => result == Err::<Entry, DictionaryError>(DictionaryError::NotFound),
        },
{
    match row {
        Some(entry) => Ok(entry),
        None => Err(DictionaryError::NotFound),
    }
}

} // verus!
