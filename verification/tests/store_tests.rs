use secure_notes::store::{NoteStore, StoreError};

#[test]
fn round_trip_identity() {
    let mut store = NoteStore::new();
    let id = store.put(String::from("some note text")).unwrap();
    assert_eq!(store.get(id), Some(String::from("some note text")));
}

#[test]
fn round_trip_empty_note() {
    let mut store = NoteStore::new();
    let id = store.put(String::new()).unwrap();
    assert_eq!(store.get(id), Some(String::new()));
}

#[test]
fn unknown_id_is_absent() {
    let mut store = NoteStore::new();
    let id = store.put(String::from("a")).unwrap();
    let other = id.wrapping_add(1);
    assert_eq!(store.get(other), None);
    assert_eq!(NoteStore::new().get(0), None);
}

#[test]
fn count_grows_by_one_per_put() {
    let mut store = NoteStore::new();
    assert_eq!(store.count(), 0);
    store.put(String::from("one")).unwrap();
    assert_eq!(store.count(), 1);
    store.put(String::from("two")).unwrap();
    store.put(String::from("three")).unwrap();
    assert_eq!(store.count(), 3);
}

#[test]
fn two_puts_both_retrievable() {
    let mut store = NoteStore::new();
    let id1 = store.put(String::from("first")).unwrap();
    let id2 = store.put(String::from("second")).unwrap();
    assert_ne!(id1, id2);
    assert_eq!(store.get(id1), Some(String::from("first")));
    assert_eq!(store.get(id2), Some(String::from("second")));
}

#[test]
fn fresh_ids_differ() {
    let mut store = NoteStore::new();
    let id1 = store.put(String::from("x")).unwrap();
    let id2 = store.put(String::from("x")).unwrap();
    let id3 = store.put(String::from("x")).unwrap();
    assert_ne!(id1, id2);
    assert_ne!(id1, id3);
    assert_ne!(id2, id3);
}

#[test]
fn unavailable_store_rejects_writes() {
    let mut store = NoteStore::new();
    store.mark_unavailable();
    assert_eq!(store.put(String::from("dropped")), Err(StoreError::Unavailable));
}

#[test]
fn unavailable_store_reads_as_empty() {
    let mut store = NoteStore::new();
    let id = store.put(String::from("kept")).unwrap();
    store.mark_unavailable();
    assert_eq!(store.get(id), None);
    assert_eq!(store.count(), 0);
}
