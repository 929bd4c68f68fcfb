//! A minimal dictionary library: word/definition pairs kept in a store with
//! upsert, lookup, deletion, bulk and random retrieval.

pub mod dictionary;
pub mod entry;
pub mod errors;
pub mod laws;
