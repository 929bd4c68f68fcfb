use dictionary::dictionary::application::DictionaryApplication;
use dictionary::entry::domain::Entry;
use dictionary::entry::repository::InMemoryEntryRepository;
use dictionary::errors::DictionaryError;

fn new_dictionary_application() -> DictionaryApplication<InMemoryEntryRepository> {
    DictionaryApplication { entry_repo: InMemoryEntryRepository::new() }
}

#[test]
fn store_definition_not_fail() {
    let mut app = new_dictionary_application();
    app.store_definition("hello", "hola").unwrap();
}

#[test]
fn entry_exposes_word_and_definition() {
    let entry = Entry::new("hello", "hola");
    assert_eq!(entry.get_word(), "hello");
    assert_eq!(entry.get_definition(), "hola");
}

#[test]
fn store_then_get_returns_definition() {
    let mut app = new_dictionary_application();
    app.store_definition("hello", "hola").unwrap();
    assert_eq!(app.get_definition("hello").unwrap(), "hola");
}

#[test]
fn store_twice_keeps_second_definition() {
    let mut app = new_dictionary_application();
    app.store_definition("hello", "hola").unwrap();
    app.store_definition("hello", "ciao").unwrap();
    assert_eq!(app.get_definition("hello").unwrap(), "ciao");
    assert_eq!(app.get_all_definitions().unwrap().len(), 1);
}

#[test]
fn empty_word_is_rejected() {
    let mut app = new_dictionary_application();
    assert_eq!(app.store_definition("", "nothing"), Err(DictionaryError::Validation));
    assert_eq!(app.get_all_definitions().unwrap().len(), 0);
}

#[test]
fn get_unknown_word_is_not_found() {
    let mut app = new_dictionary_application();
    app.store_definition("hello", "hola").unwrap();
    assert_eq!(app.get_definition("goodbye"), Err(DictionaryError::NotFound));
}

#[test]
fn delete_absent_word_succeeds() {
    let mut app = new_dictionary_application();
    assert_eq!(app.delete_definition("hello"), Ok(()));
    app.store_definition("hello", "hola").unwrap();
    assert_eq!(app.delete_definition("goodbye"), Ok(()));
    assert_eq!(app.get_definition("hello").unwrap(), "hola");
}

#[test]
fn delete_then_get_is_not_found() {
    let mut app = new_dictionary_application();
    app.store_definition("hello", "hola").unwrap();
    app.delete_definition("hello").unwrap();
    assert_eq!(app.get_definition("hello"), Err(DictionaryError::NotFound));
}

#[test]
fn get_all_on_empty_store_is_empty() {
    let app = new_dictionary_application();
    assert!(app.get_all_definitions().unwrap().is_empty());
}

#[test]
fn get_all_returns_each_stored_entry() {
    let mut app = new_dictionary_application();
    app.store_definition("one", "uno").unwrap();
    app.store_definition("two", "dos").unwrap();
    app.store_definition("three", "tres").unwrap();
    let listing = app.get_all_definitions().unwrap();
    assert_eq!(listing.len(), 3);
    for (word, definition) in [("one", "uno"), ("two", "dos"), ("three", "tres")] {
        let matches: Vec<&Entry> =
            listing.iter().filter(|entry| entry.get_word() == word).collect();
        assert_eq!(matches.len(), 1);
        assert_eq!(matches[0].get_definition(), definition);
    }
}

#[test]
fn get_random_on_empty_store_is_empty_dictionary() {
    let app = new_dictionary_application();
    assert_eq!(
        app.get_random_definition().map(|entry| entry.get_word().to_string()),
        Err(DictionaryError::EmptyDictionary)
    );
}

#[test]
fn get_random_on_single_entry_returns_it() {
    let mut app = new_dictionary_application();
    app.store_definition("hello", "hola").unwrap();
    let entry = app.get_random_definition().unwrap();
    assert_eq!(entry.get_word(), "hello");
    assert_eq!(entry.get_definition(), "hola");
}

#[test]
fn get_random_returns_a_stored_entry() {
    let mut app = new_dictionary_application();
    app.store_definition("one", "uno").unwrap();
    app.store_definition("two", "dos").unwrap();
    app.store_definition("three", "tres").unwrap();
    for _ in 0..20 {
        let entry = app.get_random_definition().unwrap();
        let expected = match entry.get_word() {
            "one" => "uno",
            "two" => "dos",
            "three" => "tres",
            other => panic!("unexpected word {}", other),
        };
        assert_eq!(entry.get_definition(), expected);
    }
}

#[test]
fn store_get_overwrite_delete_scenario() {
    let mut app = new_dictionary_application();
    app.store_definition("hello", "hola").unwrap();
    assert_eq!(app.get_definition("hello").unwrap(), "hola");
    app.store_definition("hello", "ciao").unwrap();
    assert_eq!(app.get_definition("hello").unwrap(), "ciao");
    app.delete_definition("hello").unwrap();
    assert_eq!(app.get_definition("hello"), Err(DictionaryError::NotFound));
}

#[test]
fn empty_store_scenario() {
    let app = new_dictionary_application();
    assert!(app.get_all_definitions().unwrap().is_empty());
    assert!(matches!(app.get_random_definition(), Err(DictionaryError::EmptyDictionary)));
}
