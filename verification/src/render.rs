//! Building the HTML pages that the handlers return.
//!
//! Every page is assembled from string literals and two computed parts:
//! the decimal form of the note count and the textual form of a note id.
//! Each builder's contract pins the exact character sequence produced.

use vstd::prelude::*;

verus! {

/// The decimal digit character for `d`, for `d < 10`.
pub open spec fn digit_char(d: nat) -> char {
    if d == 0 {
        '0'
    } else if d == 1 {
        '1'
    } else if d == 2 {
        '2'
    } else if d == 3 {
        '3'
    } else if d == 4 {
        '4'
    } else if d == 5 {
        '5'
    } else if d == 6 {
        '6'
    } else if d == 7 {
        '7'
    } else if d == 8 {
        '8'
    } else {
        '9'
    }
}

/// The usual decimal rendering of `n`: no sign, no leading zeros
/// (except for `n == 0`, which is rendered as "0").
pub open spec fn dec_of(n: nat) -> Seq<char>
    decreases n,
{
    if n < 10 {
        seq![digit_char(n)]
    } else {
        dec_of(n / 10).push(digit_char(n % 10))
    }
}

/// One decimal digit as a string slice.
fn digit_str(d: usize) -> (r: &'static str)
    requires
        d < 10,
    ensures
        r@ == seq![digit_char(d as nat)],
{
    proof {
        reveal_strlit("0");
        reveal_strlit("1");
        reveal_strlit("2");
        reveal_strlit("3");
        reveal_strlit("4");
        reveal_strlit("5");
        reveal_strlit("6");
        reveal_strlit("7");
        reveal_strlit("8");
        reveal_strlit("9");
    }
    match d {
        0 => "0",
        1 => "1",
        2 => "2",
        3 => "3",
        4 => "4",
        5 => "5",
        6 => "6",
        7 => "7",
        8 => "8",
        _ => "9",
    }
}

/// Renders `n` in decimal.
pub fn dec_string(n: usize) -> (r: String)
    ensures
        r@ == dec_of(n as nat),
    decreases n,
{
    if n < 10 {
        String::from_str(digit_str(n))
    } else {
        let prefix = dec_string(n / 10);
        prefix.concat(digit_str(n % 10))
    }
}

/// The status page: the note count twice, and a link to the note form.
pub open spec fn status_html(n: nat) -> Seq<char> {
    "<html><head><title>Secure notes has "@ + dec_of(n)
        + "</title><body>We've got "@ + dec_of(n)
        + " notes.<br /><a href=\"new\">Add a note.</a></body></html>"@
}

/// The static note form.
pub open spec fn new_note_html() -> Seq<char> {
    "<!doctype html>\n    <html lang=\"en\">\n<head><title>New Note</title></head>\n<body>\n    <form action=\"/new\" method=\"post\">\n        <textarea name=\"note\"></textarea> <br />\n        <input type=\"submit\" name=\"Save\" />\n        <input type=\"reset\" name=\"Reset\" />\n    </form>\n</body>\n</html>"@
}

/// The fixed page returned for a malformed or unknown id.
pub open spec fn not_found_html() -> Seq<char> {
    "<html><head><title>Not not found</title></head><body>Note not found</body></html>"@
}

/// The page showing one note: titled with the id's textual form, the
/// note text standing verbatim in the body.
pub open spec fn note_html(id_text: Seq<char>, note: Seq<char>) -> Seq<char> {
    "<html><head><title>"@ + id_text + "</title><body>"@ + note + "</body></html>"@
}

/// Builds the status page for a count of `count` notes.
pub fn status_page(count: usize) -> (r: String)
    ensures
        r@ == status_html(count as nat),
{
    let num = dec_string(count);
    let mut page = String::from_str("<html><head><title>Secure notes has ");
    page.append(num.as_str());
    page.append("</title><body>We've got ");
    page.append(num.as_str());
    page.append(" notes.<br /><a href=\"new\">Add a note.</a></body></html>");
    proof {
        assert(page@ =~= status_html(count as nat));
    }
    page
}

/// Builds the static note form.
pub fn new_note_page() -> (r: String)
    ensures
        r@ == new_note_html(),
{
    String::from_str(
        "<!doctype html>\n    <html lang=\"en\">\n<head><title>New Note</title></head>\n<body>\n    <form action=\"/new\" method=\"post\">\n        <textarea name=\"note\"></textarea> <br />\n        <input type=\"submit\" name=\"Save\" />\n        <input type=\"reset\" name=\"Reset\" />\n    </form>\n</body>\n</html>",
    )
}

/// Builds the fixed not-found page.
pub fn not_found_page() -> (r: String)
    ensures
        r@ == not_found_html(),
{
    String::from_str(
        "<html><head><title>Not not found</title></head><body>Note not found</body></html>",
    )
}

/// Builds the page showing one note.
pub fn note_page(id_text: &str, note: &str) -> (r: String)
    ensures
        r@ == note_html(id_text@, note@),
{
    let mut page = String::from_str("<html><head><title>");
    page.append(id_text);
    page.append("</title><body>");
    page.append(note);
    page.append("</body></html>");
    proof {
        assert(page@ =~= note_html(id_text@, note@));
    }
    page
}

} // verus!
