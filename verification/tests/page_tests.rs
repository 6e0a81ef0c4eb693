use secure_notes::handlers::{save_note, view_page};
use secure_notes::render::{dec_string, new_note_page, not_found_page, status_page};
use secure_notes::store::NoteStore;

const NOT_FOUND: &str =
    "<html><head><title>Not not found</title></head><body>Note not found</body></html>";

#[test]
fn decimal_rendering() {
    assert_eq!(dec_string(0), "0");
    assert_eq!(dec_string(7), "7");
    assert_eq!(dec_string(10), "10");
    assert_eq!(dec_string(105), "105");
    assert_eq!(dec_string(1234567890), "1234567890");
}

#[test]
fn status_page_shows_count() {
    assert_eq!(
        status_page(0),
        "<html><head><title>Secure notes has 0</title><body>We've got 0 notes.<br /><a href=\"new\">Add a note.</a></body></html>"
    );
    assert_eq!(
        status_page(12),
        "<html><head><title>Secure notes has 12</title><body>We've got 12 notes.<br /><a href=\"new\">Add a note.</a></body></html>"
    );
}

#[test]
fn new_note_page_is_the_form() {
    let page = new_note_page();
    assert!(page.starts_with("<!doctype html>"));
    assert!(page.contains("<form action=\"/new\" method=\"post\">"));
    assert!(page.contains("<textarea name=\"note\"></textarea>"));
    assert!(page.contains("<input type=\"submit\" name=\"Save\" />"));
    assert!(page.contains("<input type=\"reset\" name=\"Reset\" />"));
}

#[test]
fn malformed_id_yields_not_found() {
    let store = NoteStore::new();
    assert_eq!(view_page(&store, "not-a-uuid"), NOT_FOUND);
    assert_eq!(not_found_page(), NOT_FOUND);
}

#[test]
fn saved_note_viewable_under_its_id() {
    let mut store = NoteStore::new();
    let id = store.put(String::from("hello world")).unwrap();
    assert_eq!(store.get(id), Some(String::from("hello world")));
    let id_text = uuid::Uuid::from_u128(id).to_string();
    let page = view_page(&store, &id_text);
    assert!(page.contains(&id_text));
    assert!(page.contains("hello world"));
    assert_eq!(
        page,
        format!("<html><head><title>{id_text}</title><body>hello world</body></html>")
    );
}

#[test]
fn well_formed_unknown_id_yields_not_found() {
    let store = NoteStore::new();
    assert_eq!(view_page(&store, "00000000-0000-0000-0000-000000000000"), NOT_FOUND);
}

#[test]
fn save_redirects_to_a_path_that_serves_the_note() {
    let mut store = NoteStore::new();
    let target = save_note(&mut store, String::from("abc"));
    assert!(target.starts_with('/'));
    let segment = &target[1..];
    let page = view_page(&store, segment);
    assert!(page.contains("abc"));
    assert_eq!(
        page,
        format!("<html><head><title>{segment}</title><body>abc</body></html>")
    );
}

#[test]
fn save_target_is_the_canonical_id_form() {
    let mut store = NoteStore::new();
    let target = save_note(&mut store, String::from("n"));
    let segment = &target[1..];
    let parsed = uuid::Uuid::parse_str(segment).unwrap();
    assert_eq!(parsed.to_string(), segment);
    assert_eq!(store.get(parsed.as_u128()), Some(String::from("n")));
}

#[test]
fn alternate_id_forms_reach_the_same_note() {
    let mut store = NoteStore::new();
    let id = store.put(String::from("same note")).unwrap();
    let simple = uuid::Uuid::from_u128(id).simple().to_string();
    let page = view_page(&store, &simple);
    assert!(page.contains("same note"));
}

#[test]
fn view_on_unavailable_store_yields_not_found() {
    let mut store = NoteStore::new();
    let id = store.put(String::from("hidden")).unwrap();
    let id_text = uuid::Uuid::from_u128(id).to_string();
    store.mark_unavailable();
    assert_eq!(view_page(&store, &id_text), NOT_FOUND);
}

#[test]
fn save_on_unavailable_store_redirects_to_root() {
    let mut store = NoteStore::new();
    store.mark_unavailable();
    let target = save_note(&mut store, String::from("lost"));
    assert_eq!(target, "/");
    assert_eq!(store.count(), 0);
}
