//! The in-memory repository: the storage backend this crate provides and
//! verifies, and the reference against which the persistence contract is
//! shown satisfiable. It doubles as the test double that the application
//! layer is exercised with.

use vstd::prelude::*;

use crate::entry::application::{entries_match_map, EntryRepository};
use crate::entry::domain::Entry;
use crate::errors::DictionaryError;

verus! {

/// The store described by a sequence of entries: each entry maps its word to
/// its definition, a later entry overriding an earlier one with the same
/// word.
pub open spec fn map_of(s: Seq<Entry>) -> Map<Seq<char>, Seq<char>>
    decreases s.len(),
{
    if s.len() == 0 {
        Map::empty()
    } else {
        map_of(s.drop_last()).insert(s.last()@.word, s.last()@.definition)
    }
}

/// No two entries of `s` share a word.
pub open spec fn distinct_words(s: Seq<Entry>) -> bool {
    forall|i: int, j: int|
        0 <= i < j < s.len() ==> (#[trigger] s[i]@.word) != (#[trigger] s[j]@.word)
}

proof fn lemma_map_of_contains(s: Seq<Entry>, w: Seq<char>)
    ensures
        map_of(s).contains_key(w) <==> exists|i: int|
            0 <= i < s.len() && (#[trigger] s[i]@.word) == w,
    decreases s.len(),
{
    if s.len() == 0 {
    } else {
        lemma_map_of_contains(s.drop_last(), w);
        if s.last()@.word == w {
            assert(s[s.len() - 1]@.word == w);
        } else {
            if exists|i: int| 0 <= i < s.len() && (#[trigger] s[i]@.word) == w {
                let i = choose|i: int| 0 <= i < s.len() && (#[trigger] s[i]@.word) == w;
                assert(s.drop_last()[i]@.word == w);
            }
            if exists|i: int|
                0 <= i < s.drop_last().len() && (#[trigger] s.drop_last()[i]@.word) == w {
                let i = choose|i: int|
                    0 <= i < s.drop_last().len() && (#[trigger] s.drop_last()[i]@.word) == w;
                assert(s[i]@.word == w);
            }
        }
    }
}

proof fn lemma_distinct_drop_last(s: Seq<Entry>)
    requires
        distinct_words(s),
        s.len() > 0,
    ensures
        distinct_words(s.drop_last()),
{
    assert forall|i: int, j: int|
        0 <= i < j < s.drop_last().len() implies (#[trigger] s.drop_last()[i]@.word) != (
    #[trigger] s.drop_last()[j]@.word) by {
        assert(s[i]@.word != s[j]@.word);
    };
}

proof fn lemma_map_of_index(s: Seq<Entry>, i: int)
    requires
        distinct_words(s),
        0 <= i < s.len(),
    ensures
        map_of(s).contains_key(s[i]@.word),
        map_of(s)[s[i]@.word] == s[i]@.definition,
    decreases s.len(),
{
    if i < s.len() - 1 {
        assert(s[i]@.word != s[s.len() - 1]@.word);
        lemma_distinct_drop_last(s);
        lemma_map_of_index(s.drop_last(), i);
        assert(s.drop_last()[i] == s[i]);
    }
}

proof fn lemma_map_of_absent(s: Seq<Entry>, w: Seq<char>)
    requires
        forall|i: int| 0 <= i < s.len() ==> (#[trigger] s[i]@.word) != w,
    ensures
        !map_of(s).contains_key(w),
{
    lemma_map_of_contains(s, w);
}

/// Replacing the definition at position `i`, keeping the word, is the upsert
/// of that word at the level of the map.
proof fn lemma_map_of_update(s: Seq<Entry>, i: int, e: Entry)
    requires
        distinct_words(s),
        0 <= i < s.len(),
        e@.word == s[i]@.word,
    ensures
        distinct_words(s.update(i, e)),
        map_of(s.update(i, e)) == map_of(s).insert(e@.word, e@.definition),
    decreases s.len(),
{
    let t = s.update(i, e);
    assert forall|a: int, b: int|
        0 <= a < b < t.len() implies (#[trigger] t[a]@.word) != (#[trigger] t[b]@.word) by {
        assert(t[a]@.word == s[a]@.word);
        assert(t[b]@.word == s[b]@.word);
        assert(s[a]@.word != s[b]@.word);
    };
    if i == s.len() - 1 {
        assert(t.drop_last() =~= s.drop_last());
        assert(map_of(s).insert(e@.word, e@.definition) =~= map_of(s.drop_last()).insert(
            e@.word,
            e@.definition,
        ));
    } else {
        lemma_distinct_drop_last(s);
        assert(t.drop_last() =~= s.drop_last().update(i, e));
        lemma_map_of_update(s.drop_last(), i, e);
        assert(t.last() == s.last());
        assert(s[i]@.word != s[s.len() - 1]@.word);
        assert(map_of(s.drop_last()).insert(e@.word, e@.definition).insert(
            s.last()@.word,
            s.last()@.definition,
        ) =~= map_of(s).insert(e@.word, e@.definition));
    }
}

/// Appending an entry whose word is absent is the insert of that word.
proof fn lemma_map_of_push(s: Seq<Entry>, e: Entry)
    requires
        distinct_words(s),
        forall|i: int| 0 <= i < s.len() ==> (#[trigger] s[i]@.word) != e@.word,
    ensures
        distinct_words(s.push(e)),
        map_of(s.push(e)) == map_of(s).insert(e@.word, e@.definition),
{
    let t = s.push(e);
    assert forall|a: int, b: int|
        0 <= a < b < t.len() implies (#[trigger] t[a]@.word) != (#[trigger] t[b]@.word) by {
        if b < t.len() - 1 {
            assert(s[a]@.word != s[b]@.word);
        } else {
            assert(t[a]@.word == s[a]@.word);
            assert(t[b]@.word == e@.word);
        }
    };
    assert(t.drop_last() =~= s);
    assert(t.last() == e);
}

/// Removing the entry at position `i` is the removal of its word from the
/// map.
proof fn lemma_map_of_remove(s: Seq<Entry>, i: int)
    requires
        distinct_words(s),
        0 <= i < s.len(),
    ensures
        distinct_words(s.remove(i)),
        map_of(s.remove(i)) == map_of(s).remove(s[i]@.word),
    decreases s.len(),
{
    let w = s[i]@.word;
    let t = s.remove(i);
    assert forall|a: int, b: int|
        0 <= a < b < t.len() implies (#[trigger] t[a]@.word) != (#[trigger] t[b]@.word) by {
        let sa: int = if a < i { a } else { a + 1 };
        let sb: int = if b < i { b } else { b + 1 };
        assert(t[a] == s[sa]);
        assert(t[b] == s[sb]);
        assert(s[sa]@.word != s[sb]@.word);
    };
    if i == s.len() - 1 {
        assert(t =~= s.drop_last());
        lemma_distinct_drop_last(s);
        assert forall|j: int| 0 <= j < s.drop_last().len() implies (
        #[trigger] s.drop_last()[j]@.word) != w by {
            assert(s[j]@.word != s[i]@.word);
        };
        lemma_map_of_absent(s.drop_last(), w);
        assert(map_of(s.drop_last()) =~= map_of(s).remove(w));
    } else {
        lemma_distinct_drop_last(s);
        assert(t.drop_last() =~= s.drop_last().remove(i));
        lemma_map_of_remove(s.drop_last(), i);
        assert(t.last() == s.last());
        assert(w != s.last()@.word);
        assert(map_of(s.drop_last()).remove(w).insert(s.last()@.word, s.last()@.definition)
            =~= map_of(s).remove(w));
    }
}

/// A sequence without repeated words lists exactly the contents of its map.
proof fn lemma_entries_match(s: Seq<Entry>)
    requires
        distinct_words(s),
    ensures
        entries_match_map(s, map_of(s)),
{
    assert forall|i: int| 0 <= i < s.len() implies map_of(s).contains_key(#[trigger] s[i]@.word)
        && map_of(s)[s[i]@.word] == s[i]@.definition by {
        lemma_map_of_index(s, i);
    };
    assert forall|w: Seq<char>| map_of(s).contains_key(w) implies exists|i: int|
        0 <= i < s.len() && (#[trigger] s[i]@.word) == w by {
        lemma_map_of_contains(s, w);
    };
}

/// A storage backend kept in process memory: a vector of entries with
/// pairwise distinct words. It never fails, so every operation is exactly
/// its effect on the map of stored entries.
pub struct InMemoryEntryRepository {
    entries: Vec<Entry>,
}

impl InMemoryEntryRepository {
    #[verifier::type_invariant]
    spec fn wf(&self) -> bool {
        distinct_words(self.entries@)
    }

    /// An empty store.
    pub fn new() -> (repo: Self)
        ensures
            repo.entries() == Map::<Seq<char>, Seq<char>>::empty(),
    {
        InMemoryEntryRepository { entries: Vec::new() }
    }

    /// The position of the entry holding `word`, if any.
    fn index_of_word(entries: &Vec<Entry>, word: &str) -> (found: Option<usize>)
        ensures
            match found {
                Some(i) => i < entries@.len() && entries@[i as int]@.word == word@,
                None => forall|j: int|
                    0 <= j < entries@.len() ==> (#[trigger] entries@[j]@.word) != word@,
            },
    {
        let mut i: usize = 0;
        while i < entries.len()
            invariant
                i <= entries@.len(),
                forall|j: int| 0 <= j < i ==> (#[trigger] entries@[j]@.word) != word@,
            decreases entries@.len() - i,
        {
            if entries[i].word_matches(word) {
                return Some(i);
            }
            i = i + 1;
        }
        None
    }
}

impl EntryRepository for InMemoryEntryRepository {
    closed spec fn entries(&self) -> Map<Seq<char>, Seq<char>> {
        map_of(self.entries@)
    }

    fn find_by_word(&self, word: &str) -> (result: Result<Entry, DictionaryError>)
        ensures
            self.entries().contains_key(word@) ==> result is Ok,
            !self.entries().contains_key(word@) ==> result == Err::<Entry, DictionaryError>(
                DictionaryError::NotFound,
            ),
    {
        proof {
            use_type_invariant(&*self);
        }
        match Self::index_of_word(&self.entries, word) {
            Some(i) => {
                proof {
                    lemma_map_of_index(self.entries@, i as int);
                }
                let e = &self.entries[i];
                Ok(Entry::new(e.get_word(), e.get_definition()))
            },
            None => {
                proof {
                    lemma_map_of_absent(self.entries@, word@);
                }
                Err(DictionaryError::NotFound)
            },
        }
    }

    fn get_all(&self) -> (result: Result<Vec<Entry>, DictionaryError>)
        ensures
            result is Ok,
    {
        proof {
            use_type_invariant(&*self);
        }
        let mut list: Vec<Entry> = Vec::new();
        let mut i: usize = 0;
        while i < self.entries.len()
            invariant
                i <= self.entries@.len(),
                list@.len() == i,
                forall|j: int| 0 <= j < i ==> (#[trigger] list@[j]@) == self.entries@[j]@,
            decreases self.entries@.len() - i,
        {
            let e = &self.entries[i];
            list.push(Entry::new(e.get_word(), e.get_definition()));
            i = i + 1;
        }
        proof {
            lemma_entries_match(self.entries@);
            assert forall|a: int, b: int|
                0 <= a < b < list@.len() implies (#[trigger] list@[a]@.word) != (
            #[trigger] list@[b]@.word) by {
                assert(self.entries@[a]@.word != self.entries@[b]@.word);
            };
            assert forall|a: int|
                0 <= a < list@.len() implies self.entries().contains_key(
                #[trigger] list@[a]@.word,
            ) && self.entries()[list@[a]@.word] == list@[a]@.definition by {
                assert(list@[a]@ == self.entries@[a]@);
            };
            assert forall|w: Seq<char>| self.entries().contains_key(w) implies exists|a: int|
                0 <= a < list@.len() && (#[trigger] list@[a]@.word) == w by {
                let a = choose|a: int|
                    0 <= a < self.entries@.len() && (#[trigger] self.entries@[a]@.word) == w;
                assert(list@[a]@.word == w);
            };
        }
        Ok(list)
    }

    fn save(&mut self, entry: &Entry) -> (result: Result<(), DictionaryError>)
        ensures
            result == Ok::<(), DictionaryError>(()),
    {
        proof {
            use_type_invariant(&*self);
        }
        let stored = Entry::new(entry.get_word(), entry.get_definition());
        let mut entries: Vec<Entry> = Vec::new();
        core::mem::swap(&mut entries, &mut self.entries);
        match Self::index_of_word(&entries, entry.get_word()) {
            Some(i) => {
                proof {
                    lemma_map_of_update(entries@, i as int, stored);
                }
                entries[i] = stored;
            },
            None => {
                proof {
                    lemma_map_of_push(entries@, stored);
                }
                entries.push(stored);
            },
        }
        self.entries = entries;
        Ok(())
    }

    fn delete_by_word(&mut self, word: &str) -> (result: Result<(), DictionaryError>)
        ensures
            result == Ok::<(), DictionaryError>(()),
    {
        proof {
            use_type_invariant(&*self);
        }
        let mut entries: Vec<Entry> = Vec::new();
        core::mem::swap(&mut entries, &mut self.entries);
        match Self::index_of_word(&entries, word) {
            Some(i) => {
                proof {
                    lemma_map_of_remove(entries@, i as int);
                }
                entries.remove(i);
            },
            None => {
                proof {
                    lemma_map_of_absent(entries@, word@);
                    assert(map_of(entries@).remove(word@) =~= map_of(entries@));
                }
            },
        }
        self.entries = entries;
        Ok(())
    }
}

} // verus!
