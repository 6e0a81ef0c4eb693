//! An in-memory note store with verified handler logic.
//!
//! Notes are short text blobs keyed by a randomly generated 128-bit
//! identifier. The store supports inserting a note under a fresh id,
//! looking a note up by id, and counting the stored notes; around it
//! stand the pure parts of the four request handlers: the status page,
//! the note form, saving a note, and viewing a note.

pub mod handlers;
pub mod ids;
pub mod laws;
pub mod render;
pub mod store;
