//! Note identifiers.
//!
//! A note id is a 128-bit value. The `uuid` crate supplies the three
//! operations the store and the handlers need: drawing a fresh random id,
//! rendering an id in its canonical textual form, and parsing a path
//! segment back into an id. Each call stands behind a trusted wrapper;
//! the two deterministic results are named by uninterpreted spec
//! functions, so contracts can relate rendering and parsing exactly.

use vstd::prelude::*;

verus! {

/// The id that the `uuid` crate parses out of `s`, if any: `parse_str`
/// accepts hexadecimal digits with optional hyphens (the simple,
/// hyphenated, braced and URN formats), and `None` stands for its error.
pub uninterp spec fn id_of_text(s: Seq<char>) -> Option<u128>;

/// The canonical textual form of `id`: 32 lowercase hexadecimal digits
/// split 8-4-4-4-12 by hyphens, as the `uuid` crate's `Display` renders it.
pub uninterp spec fn text_of_id(id: u128) -> Seq<char>;

/// Relies on `uuid::Uuid::new_v4` for a fresh random id and on
/// `Uuid::as_u128` to read it out. Nothing can be promised of a random
/// value, so the contract is empty: callers state what holds of every
/// outcome.
#[verifier::external_body]
pub(crate) fn fresh_id() -> u128 {
    uuid::Uuid::new_v4().as_u128()
}

/// Relies on `uuid::Uuid::parse_str` and `Uuid::as_u128`: the parse
/// reads the characters of `s` alone, so its result is a function of
/// them, here called `id_of_text`.
#[verifier::external_body]
pub(crate) fn parse_id(s: &str) -> (r: Option<u128>)
    ensures
        r == id_of_text(s@),
{
    match uuid::Uuid::parse_str(s) {
        Ok(u) => Some(u.as_u128()),
        Err(_) => None,
    }
}

/// Relies on `uuid::Uuid::from_u128` and the `Display` of `uuid::Uuid`,
/// which renders the hyphenated lowercase form: one of the forms that
/// `parse_str` maps back to the same 128-bit value.
#[verifier::external_body]
pub(crate) fn id_text(id: u128) -> (r: String)
    ensures
        r@ == text_of_id(id),
        id_of_text(r@) == Some(id),
{
    uuid::Uuid::from_u128(id).to_string()
}

} // verus!
