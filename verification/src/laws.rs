//! The laws the dictionary obeys, stated over the store model that the
//! public contracts speak of: a map from words to definitions. Each law
//! links the postconditions of two or more operations.

use vstd::prelude::*;

use crate::entry::application::entries_match_map;
use crate::entry::domain::Entry;

verus! {

/// Round trip: storing a definition and then looking the word up yields
/// exactly that definition. `store_definition` ends with the store
/// `m.insert(word, definition)`, on which `get_definition` returns the
/// value at `word`.
pub proof fn lemma_store_then_get(
    m: Map<Seq<char>, Seq<char>>,
    word: Seq<char>,
    definition: Seq<char>,
)
    requires
        word.len() > 0,
    ensures
        m.insert(word, definition).contains_key(word),
        m.insert(word, definition)[word] == definition,
{
}

/// Upsert, not duplication: storing twice under one word keeps only the
/// second definition, which the following lookup returns.
pub proof fn lemma_store_overwrites(
    m: Map<Seq<char>, Seq<char>>,
    word: Seq<char>,
    first: Seq<char>,
    second: Seq<char>,
)
    requires
        word.len() > 0,
    ensures
        m.insert(word, first).insert(word, second).contains_key(word),
        m.insert(word, first).insert(word, second)[word] == second,
{
}

/// After a deletion the word is gone: `delete_definition` ends with
/// `m.remove(word)`, on which `get_definition` reports `NotFound`.
pub proof fn lemma_delete_then_get(m: Map<Seq<char>, Seq<char>>, word: Seq<char>)
    ensures
        !m.remove(word).contains_key(word),
{
}

/// Idempotent delete: removing a word that is not stored changes nothing.
pub proof fn lemma_delete_absent(m: Map<Seq<char>, Seq<char>>, word: Seq<char>)
    requires
        !m.contains_key(word),
    ensures
        m.remove(word) == m,
{
    assert(m.remove(word) =~= m);
}

/// A listing is as large as the store it matches: the empty dictionary
/// lists no entries, and a dictionary of N words lists exactly N entries,
/// each matching what was stored.
pub proof fn lemma_listing_counts(s: Seq<Entry>, m: Map<Seq<char>, Seq<char>>)
    requires
        entries_match_map(s, m),
    ensures
        m.dom().finite(),
        s.len() == m.dom().len(),
        s.len() == 0 <==> m == Map::<Seq<char>, Seq<char>>::empty(),
{
    broadcast use vstd::seq_lib::seq_to_set_is_finite;

    let words = s.map_values(|e: Entry| e@.word);
    assert forall|i: int, j: int|
        0 <= i < words.len() && 0 <= j < words.len() && i != j implies words[i] != words[j] by {
        if i < j {
            assert(s[i]@.word != s[j]@.word);
        } else {
            assert(s[j]@.word != s[i]@.word);
        }
    };
    assert(words.no_duplicates());
    words.unique_seq_to_set();
    assert forall|w: Seq<char>| #[trigger] words.to_set().contains(w) implies m.dom().contains(
        w,
    ) by {
        let i = choose|i: int| 0 <= i < words.len() && words[i] == w;
        assert(s[i]@.word == w);
    };
    assert forall|w: Seq<char>| #[trigger] m.dom().contains(w) implies words.to_set().contains(
        w,
    ) by {
        let i = choose|i: int| 0 <= i < s.len() && (#[trigger] s[i]@.word) == w;
        assert(words[i] == w);
        assert(words.contains(w));
    };
    assert(words.to_set() =~= m.dom());
    if s.len() == 0 {
        assert(m.dom() =~= Set::<Seq<char>>::empty());
        assert(m =~= Map::<Seq<char>, Seq<char>>::empty());
    }
    if m == Map::<Seq<char>, Seq<char>>::empty() && s.len() > 0 {
        assert(m.contains_key(s[0]@.word));
        assert(false);
    }
}

} // verus!
