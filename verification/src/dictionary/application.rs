//! `DictionaryApplication`: orchestrates repository calls and adds the
//! cross-cutting behaviour — input validation, random selection, and the
//! guard that turns selection from nothing into an error instead of an
//! index fault.

use vstd::prelude::*;

use crate::entry::application::{entries_match_map, EntryRepository};
use crate::entry::domain::Entry;
use crate::errors::DictionaryError;

verus! {

/// Relies on rand's `Rng::gen_range` over `0..bound`: the sample lies
/// within the range, which the precondition keeps non-empty.
#[verifier::external_body]
fn random_index(bound: usize) -> (index: usize)
    requires
        bound > 0,
    ensures
        index < bound,
{
    rand::Rng::gen_range(&mut rand::thread_rng(), 0..bound)
}

/// The dictionary service over any storage backend. It depends only on the
/// [`EntryRepository`] contract, never on a concrete backend, so a test
/// double substitutes freely for a persistent store.
pub struct DictionaryApplication<R: EntryRepository> {
    pub entry_repo: R,
}

impl<R: EntryRepository> DictionaryApplication<R> {
    /// The current contents of the dictionary: the store of the underlying
    /// repository.
    pub open spec fn entries(&self) -> Map<Seq<char>, Seq<char>> {
        self.entry_repo.entries()
    }

    /// Stores `definition` under `word` (an upsert). An empty word is
    /// rejected before any storage call; only a storage failure is reported
    /// otherwise, and either failure leaves the dictionary unchanged.
    pub fn store_definition(&mut self, word: &str, definition: &str) -> (result: Result<
        (),
        DictionaryError,
    >)
        ensures
            match result {
                Ok(()) => word@.len() > 0 && final(self).entries() == old(self).entries().insert(
                    word@,
                    definition@,
                ),
                Err(DictionaryError::Validation) => word@.len() == 0 && final(self).entries()
                    == old(self).entries(),
                Err(DictionaryError::Storage) => final(self).entries() == old(self).entries(),
                Err(_) => false,
            },
            word@.len() == 0 <==> result == Err::<(), DictionaryError>(
                DictionaryError::Validation,
            ),
    {
        if word.is_empty() {
            return Err(DictionaryError::Validation);
        }
        let entry_to_store = Entry::new(word, definition);
        match self.entry_repo.save(&entry_to_store) {
            Ok(()) => Ok(()),
            Err(failure) => Err(failure),
        }
    }

    /// Looks `word` up and projects out its definition. `NotFound` is
    /// reported exactly when the word is not stored.
    pub fn get_definition(&self, word: &str) -> (result: Result<String, DictionaryError>)
        ensures
            match result {
                Ok(definition) => self.entries().contains_key(word@) && definition@
                    == self.entries()[word@],
                Err(DictionaryError::NotFound) => !self.entries().contains_key(word@),
                Err(DictionaryError::Storage) => true,
                Err(_) => false,
            },
    {
        match self.entry_repo.find_by_word(word) {
            Ok(entry) => Ok(entry.get_definition().to_owned()),
            Err(failure) => Err(failure),
        }
    }

    /// Removes `word` from the dictionary; removing an absent word is not
    /// an error.
    pub fn delete_definition(&mut self, word: &str) -> (result: Result<(), DictionaryError>)
        ensures
            match result {
                Ok(()) => final(self).entries() == old(self).entries().remove(word@),
                Err(DictionaryError::Storage) => final(self).entries() == old(self).entries(),
                Err(_) => false,
            },
    {
        match self.entry_repo.delete_by_word(word) {
            Ok(()) => Ok(()),
            Err(failure) => Err(failure),
        }
    }

    /// Returns every stored entry, in an unspecified order.
    pub fn get_all_definitions(&self) -> (result: Result<Vec<Entry>, DictionaryError>)
        ensures
            match result {
                Ok(list) => entries_match_map(list@, self.entries()),
                Err(DictionaryError::Storage) => true,
                Err(_) => false,
            },
    {
        self.entry_repo.get_all()
    }

    /// Fetches every entry and selects one uniformly at random. Selecting
    /// from an empty dictionary is reported as `EmptyDictionary`, never
    /// reached as an unchecked index.
    pub fn get_random_definition(&self) -> (result: Result<Entry, DictionaryError>)
        ensures
            match result {
                Ok(entry) => self.entries().contains_key(entry@.word) && self.entries()[entry@.word]
                    == entry@.definition,
                Err(DictionaryError::EmptyDictionary) => self.entries() == Map::<
                    Seq<char>,
                    Seq<char>,
                >::empty(),
                Err(DictionaryError::Storage) => true,
                Err(_) => false,
            },
    {
        let mut entries = match self.entry_repo.get_all() {
            Ok(list) => list,
            Err(failure) => {
                return Err(failure);
            },
        };
        if entries.len() == 0 {
            proof {
                assert(self.entries().dom() =~= Set::<Seq<char>>::empty());
                assert(self.entries() =~= Map::<Seq<char>, Seq<char>>::empty());
            }
            return Err(DictionaryError::EmptyDictionary);
        }
        let index = random_index(entries.len());
        Ok(entries.remove(index))
    }
}

} // verus!
