//! The note entity: a title and a body, each a bounded line of printable
//! characters, together with its mathematical model.

use vstd::prelude::*;

use crate::text::{copy_chars, is_printable, printable};

verus! {

/// Width in characters of one stored field.  A field longer than this
/// cannot be persisted, so input handling rejects characters beyond it.
pub const FIELD_WIDTH: usize = 100;

/// A note as the editor holds it: a title line and a body line.
#[derive(Debug)]
pub struct Note {
    pub title: Vec<char>,
    pub body: Vec<char>,
}

/// Mathematical model of a note: the two fields as character sequences.
#[verifier::ext_equal]
pub ghost struct NoteModel {
    pub title: Seq<char>,
    pub body: Seq<char>,
}

impl View for Note {
    type V = NoteModel;

    open spec fn view(&self) -> NoteModel {
        NoteModel { title: self.title@, body: self.body@ }
    }
}

/// A field that the store can persist: bounded by the record width and
/// made of printable characters only, so that no character collides with
/// the record padding or the record terminator.
pub open spec fn valid_field(s: Seq<char>) -> bool {
    &&& s.len() <= FIELD_WIDTH
    &&& forall|i: int| 0 <= i < s.len() ==> printable(s[i])
}

/// Runtime check for `valid_field`.
pub fn is_valid_field(s: &Vec<char>) -> (r: bool)
    ensures
        r == valid_field(s@),
{
    if s.len() > FIELD_WIDTH {
        return false;
    }
    let mut i: usize = 0;
    while i < s.len()
        invariant
            i <= s@.len(),
            s@.len() <= FIELD_WIDTH,
            forall|j: int| 0 <= j < i ==> printable(s@[j]),
        decreases s@.len() - i,
    {
        if !is_printable(s[i]) {
            assert(!valid_field(s@));
            return false;
        }
        i += 1;
    }
    true
}

impl NoteModel {
    /// Both fields persistable.
    pub open spec fn valid(self) -> bool {
        valid_field(self.title) && valid_field(self.body)
    }

    /// The empty draft.
    pub open spec fn empty() -> NoteModel {
        NoteModel { title: Seq::empty(), body: Seq::empty() }
    }
}

impl Note {
    /// A fresh, empty note, as every draft starts out.
    pub fn new() -> (r: Note)
        ensures
            r@ == NoteModel::empty(),
    {
        let r = Note { title: Vec::new(), body: Vec::new() };
        proof {
            assert(r@ =~= NoteModel::empty());
        }
        r
    }

    /// A copy of this note, for callers that keep the original.
    pub fn duplicate(&self) -> (r: Note)
        ensures
            r@ == self@,
    {
        let r = Note { title: copy_chars(&self.title), body: copy_chars(&self.body) };
        proof {
            assert(r@ =~= self@);
        }
        r
    }

    /// Empties both fields, as when a flow is cancelled or committed.
    pub fn clear(&mut self)
        ensures
            final(self)@ == NoteModel::empty(),
    {
        self.title.clear();
        self.body.clear();
        proof {
            assert(self@ =~= NoteModel::empty());
        }
    }
}

/// The models of a sequence of notes.
pub open spec fn models_of(notes: Seq<Note>) -> Seq<NoteModel> {
    notes.map_values(|n: Note| n@)
}

} // verus!
