//! The `Entry` value object: an immutable word/definition pair.

use vstd::prelude::*;

verus! {

/// The mathematical value of an [`Entry`]: its word and definition as
/// character sequences.
pub struct EntryView {
    pub word: Seq<char>,
    pub definition: Seq<char>,
}

/// A stored word/definition pair. The word is the lookup key; a persisted
/// entry's word is unique across the store. Entries are not mutated after
/// construction: an update is a whole-row replacement keyed by the word.
pub struct Entry {
    pub(crate) word: String,
    pub(crate) definition: String,
}

impl View for Entry {
    type V = EntryView;

    closed spec fn view(&self) -> EntryView {
        EntryView { word: self.word@, definition: self.definition@ }
    }
}

impl Entry {
    /// Builds an entry holding exactly the given word and definition.
    pub fn new(word: &str, definition: &str) -> (entry: Entry)
        ensures
            entry@.word == word@,
            entry@.definition == definition@,
    {
        Entry { word: word.to_owned(), definition: definition.to_owned() }
    }

    /// The definition this entry associates with its word.
    pub fn get_definition(&self) -> (definition: &str)
        ensures
            definition@ == self@.definition,
    {
        self.definition.as_str()
    }

    /// The word this entry defines.
    pub fn get_word(&self) -> (word: &str)
        ensures
            word@ == self@.word,
    {
        self.word.as_str()
    }

    /// Whether this entry's word is exactly `word`.
    pub fn word_matches(&self, word: &str) -> (matches: bool)
        ensures
            matches == (self@.word == word@),
    {
        self.word == word.to_owned()
    }
}

} // verus!
