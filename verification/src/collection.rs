//! The in-memory note collection: the ordered mirror of the store that the
//! list view renders.  Index equals display line number minus one.

use vstd::prelude::*;

use crate::note::{models_of, Note, NoteModel};

verus! {

/// Why a collection operation was refused.
#[derive(Debug, PartialEq, Eq)]
pub enum CollectionError {
    /// The index does not name an entry.
    OutOfRange,
}

/// The ordered in-memory sequence of notes.
pub struct NoteCollection {
    notes: Vec<Note>,
}

impl View for NoteCollection {
    type V = Seq<NoteModel>;

    closed spec fn view(&self) -> Seq<NoteModel> {
        models_of(self.notes@)
    }
}

impl NoteCollection {
    /// An empty collection.
    pub fn new() -> (r: NoteCollection)
        ensures
            r@ == Seq::<NoteModel>::empty(),
    {
        let r = NoteCollection { notes: Vec::new() };
        proof {
            assert(r@ =~= Seq::<NoteModel>::empty());
        }
        r
    }

    /// The collection mirroring the given notes, as loaded from the store.
    pub fn from_notes(notes: Vec<Note>) -> (r: NoteCollection)
        ensures
            r@ == models_of(notes@),
    {
        NoteCollection { notes }
    }

    /// Number of notes.
    pub fn len(&self) -> (n: usize)
        ensures
            n == self@.len(),
    {
        self.notes.len()
    }

    /// The note at `index`; refused cleanly when the index is out of
    /// range, so a stale index aborts a flow instead of crashing it.
    pub fn get(&self, index: usize) -> (r: Result<&Note, CollectionError>)
        ensures
            r is Ok <==> index < self@.len(),
            (r matches Ok(n) ==> n@ == self@[index as int]),
            r is Err ==> r == Err::<&Note, CollectionError>(CollectionError::OutOfRange),
    {
        if index < self.notes.len() {
            Ok(&self.notes[index])
        } else {
            Err(CollectionError::OutOfRange)
        }
    }

    /// Appends a note; called only after the store append succeeded.
    pub fn push(&mut self, note: Note)
        ensures
            final(self)@ == old(self)@.push(note@),
    {
        self.notes.push(note);
        proof {
            assert(self@ =~= old(self)@.push(note@));
        }
    }

    /// Replaces the note at `index`; called only after the store update
    /// succeeded.  Refused cleanly when the index is out of range.
    pub fn set(&mut self, index: usize, note: Note) -> (r: Result<(), CollectionError>)
        ensures
            r is Ok <==> index < old(self)@.len(),
            r is Ok ==> final(self)@ == old(self)@.update(index as int, note@),
            r is Err ==> final(self)@ == old(self)@ && r == Err::<(), CollectionError>(
                CollectionError::OutOfRange,
            ),
    {
        if index < self.notes.len() {
            self.notes.set(index, note);
            proof {
                assert(self@ =~= old(self)@.update(index as int, note@));
            }
            Ok(())
        } else {
            Err(CollectionError::OutOfRange)
        }
    }
}

} // verus!
