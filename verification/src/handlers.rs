//! The store-facing halves of the request handlers.
//!
//! The status page and the note form need nothing but a count and a
//! literal, and stand in `render`. Saving and viewing a note read and
//! write the store; their pure logic stands here, and the surrounding
//! process glue (routing, form decoding, the shared lock) hands them
//! plain values.

use vstd::prelude::*;

use crate::ids::{id_of_text, id_text, parse_id, text_of_id};
use crate::render::{not_found_html, not_found_page, note_html, note_page};
use crate::store::NoteStore;

verus! {

/// The path a successful save redirects to: a slash followed by the
/// new id's textual form.
pub open spec fn redirect_target(id: u128) -> Seq<char> {
    "/"@ + text_of_id(id)
}

/// What viewing `segment` renders: the note page when the segment
/// parses as an id the store holds, the fixed not-found page when the
/// segment is malformed, the id unknown, or the store unavailable.
pub open spec fn view_response(store: NoteStore, segment: Seq<char>) -> Seq<char> {
    match id_of_text(segment) {
        Some(id) => match store.spec_lookup(id) {
            Some(note) => note_html(text_of_id(id), note),
            None => not_found_html(),
        },
        None => not_found_html(),
    }
}

/// Saves `note` under a fresh id and returns the path to redirect the
/// client to. On an unavailable store the note is dropped and the
/// client is sent back to the status page at the root.
pub fn save_note(store: &mut NoteStore, note: String) -> (r: String)
    ensures
        final(store).available() == old(store).available(),
        old(store).available() ==> exists|id: u128|
            #![auto]
            (final(store)@ == old(store)@.insert(id, note@) && r@ == redirect_target(id)
                && id_of_text(text_of_id(id)) == Some(id)),
        !old(store).available() ==> final(store)@ == old(store)@ && r@ == "/"@,
{
    let ghost note_view = note@;
    match store.put(note) {
        Ok(id) => {
            let text = id_text(id);
            let target = String::from_str("/").concat(text.as_str());
            proof {
                assert(final(store)@ == old(store)@.insert(id, note_view) && target@
                    == redirect_target(id) && id_of_text(text_of_id(id)) == Some(id));
            }
            target
        },
        Err(_) => String::from_str("/"),
    }
}

/// Renders the view of the path segment `segment`: parses it as an id,
/// looks the id up, and shows the note, or the fixed not-found page.
pub fn view_page(store: &NoteStore, segment: &str) -> (r: String)
    ensures
        r@ == view_response(*store, segment@),
{
    let id = match parse_id(segment) {
        Some(id) => id,
        None => {
            return not_found_page();
        },
    };
    match store.get(id) {
        Some(note) => {
            let text = id_text(id);
            note_page(text.as_str(), note.as_str())
        },
        None => not_found_page(),
    }
}

} // verus!
