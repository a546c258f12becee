//! The text of one entry of the list view.

use vstd::prelude::*;

use crate::note::{Note, NoteModel};
use crate::text::{dec_chars, format_index, push_all};

verus! {

/// The list line for the note at the 1-based line number `line_no`:
/// the number, a colon, then both fields in double quotes.
pub open spec fn line_text(line_no: int, n: NoteModel) -> Seq<char> {
    dec_chars(line_no) + seq![':', ' ', '"'] + n.title + seq!['"', ' ', '-', ' ', '"'] + n.body
        + seq!['"']
}

/// Renders one list entry.
pub fn render_line(line_no: usize, note: &Note) -> (r: Vec<char>)
    ensures
        r@ == line_text(line_no as int, note@),
{
    let mut r = format_index(line_no);
    r.push(':');
    r.push(' ');
    r.push('"');
    push_all(&mut r, &note.title);
    r.push('"');
    r.push(' ');
    r.push('-');
    r.push(' ');
    r.push('"');
    push_all(&mut r, &note.body);
    r.push('"');
    proof {
        assert(r@ =~= line_text(line_no as int, note@));
    }
    r
}

} // verus!
