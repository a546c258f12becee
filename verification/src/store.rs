//! The note store: translation between notes and the fixed-width flat-file
//! encoding.
//!
//! A store image is the full text of the backing file.  Each note occupies
//! two records; each record is a field padded with trailing spaces to
//! `FIELD_WIDTH` characters and terminated by a newline, so a record is
//! `RECORD_LEN` characters and a note starts at character `index * PAIR_LEN`.
//! The store works on the in-memory image and reports each change as a
//! `Patch` (offset plus replacement text), so the caller can mirror the
//! change to the file with one in-place write instead of rewriting the file.

use vstd::prelude::*;

use crate::note::{is_valid_field, models_of, valid_field, FIELD_WIDTH, Note, NoteModel};
use crate::text::{copy_chars, printable, push_all};

verus! {

/// One stored record: a field padded to `FIELD_WIDTH`, then its newline.
pub const RECORD_LEN: usize = FIELD_WIDTH + 1;

/// The two records of one note.
pub const PAIR_LEN: usize = 2 * RECORD_LEN;

/// A run of space padding.
pub open spec fn pad_spaces(n: int) -> Seq<char> {
    Seq::new(n as nat, |i: int| ' ')
}

/// One fixed-width record: the field, space padding out to the record
/// width, and the terminating newline.
pub open spec fn enc_field(s: Seq<char>) -> Seq<char> {
    s + pad_spaces(FIELD_WIDTH - s.len()) + seq!['\n']
}

/// The two consecutive records of one note.
pub open spec fn enc_pair(n: NoteModel) -> Seq<char> {
    enc_field(n.title) + enc_field(n.body)
}

/// The store image that encodes a sequence of notes, in order.
pub open spec fn store_of(notes: Seq<NoteModel>) -> Seq<char>
    decreases notes.len(),
{
    if notes.len() == 0 {
        Seq::empty()
    } else {
        enc_pair(notes[0]) + store_of(notes.drop_first())
    }
}

/// Character offset of the first record of the note at `index`.
pub open spec fn pair_offset(index: int) -> int {
    index * PAIR_LEN
}

/// The image after rewriting the two records of the note at `index` in
/// place.
pub open spec fn updated_image(image: Seq<char>, index: int, n: NoteModel) -> Seq<char> {
    image.take(pair_offset(index)) + enc_pair(n) + image.skip(pair_offset(index) + PAIR_LEN)
}

/// Index of the first newline of the text, or its length when none.
pub open spec fn find_nl(s: Seq<char>) -> nat
    decreases s.len(),
{
    if s.len() == 0 {
        0
    } else if s[0] == '\n' {
        0
    } else {
        1 + find_nl(s.drop_first())
    }
}

/// The lines of the text, split at newlines.  A trailing fragment without
/// a newline still counts as a line; the terminator of the last full line
/// does not open an empty one.
pub open spec fn lines_of(s: Seq<char>) -> Seq<Seq<char>>
    decreases s.len()
    via lines_of_decreases
{
    if s.len() == 0 {
        Seq::empty()
    } else {
        let i = find_nl(s) as int;
        if i == s.len() {
            seq![s]
        } else {
            seq![s.take(i)] + lines_of(s.skip(i + 1))
        }
    }
}

/// A stored line with its trailing space padding removed.
pub open spec fn trim_spaces(s: Seq<char>) -> Seq<char>
    decreases s.len(),
{
    if s.len() == 0 {
        s
    } else if s.last() == ' ' {
        trim_spaces(s.drop_last())
    } else {
        s
    }
}

/// Consecutive lines paired into notes; an unpaired final line is dropped.
pub open spec fn pair_up(lines: Seq<Seq<char>>) -> Seq<NoteModel>
    decreases lines.len(),
{
    if lines.len() < 2 {
        Seq::empty()
    } else {
        seq![NoteModel { title: lines[0], body: lines[1] }] + pair_up(lines.skip(2))
    }
}

/// The notes a store image holds: its lines, trimmed of padding, paired.
pub open spec fn parse_store(s: Seq<char>) -> Seq<NoteModel> {
    pair_up(lines_of(s).map_values(|l: Seq<char>| trim_spaces(l)))
}

#[via_fn]
proof fn lines_of_decreases(s: Seq<char>) {
    if s.len() > 0 {
        lemma_find_nl_bounds(s);
    }
}

proof fn lemma_find_nl_bounds(s: Seq<char>)
    ensures
        find_nl(s) <= s.len(),
    decreases s.len(),
{
    if s.len() > 0 && s[0] != '\n' {
        lemma_find_nl_bounds(s.drop_first());
    }
}

/// A newline-free text has no newline to find.
proof fn lemma_find_nl_none(s: Seq<char>)
    requires
        forall|i: int| 0 <= i < s.len() ==> s[i] != '\n',
    ensures
        find_nl(s) == s.len(),
    decreases s.len(),
{
    if s.len() > 0 {
        assert(forall|i: int| 0 <= i < s.drop_first().len() ==> #[trigger] s.drop_first()[i]
            != '\n');
        lemma_find_nl_none(s.drop_first());
    }
}

/// The first newline after a newline-free prefix ends that prefix.
proof fn lemma_find_nl_after(a: Seq<char>, rest: Seq<char>)
    requires
        forall|i: int| 0 <= i < a.len() ==> a[i] != '\n',
    ensures
        find_nl(a + seq!['\n'] + rest) == a.len(),
    decreases a.len(),
{
    let s = a + seq!['\n'] + rest;
    if a.len() == 0 {
        assert(s[0] == '\n');
    } else {
        assert(s[0] == a[0]);
        assert(s.drop_first() =~= a.drop_first() + seq!['\n'] + rest);
        assert(forall|i: int| 0 <= i < a.drop_first().len() ==> #[trigger] a.drop_first()[i]
            != '\n');
        lemma_find_nl_after(a.drop_first(), rest);
    }
}

/// Splitting starts with the first line: a newline-free prefix up to its
/// terminator is one line, and the rest splits on its own.
proof fn lemma_lines_of_line(a: Seq<char>, rest: Seq<char>)
    requires
        forall|i: int| 0 <= i < a.len() ==> a[i] != '\n',
    ensures
        lines_of(a + seq!['\n'] + rest) == seq![a] + lines_of(rest),
{
    let s = a + seq!['\n'] + rest;
    lemma_find_nl_after(a, rest);
    assert(s.len() > 0);
    let i = find_nl(s) as int;
    assert(i == a.len());
    assert(i < s.len());
    assert(s.take(i) =~= a);
    assert(s.skip(i + 1) =~= rest);
}

/// A non-empty newline-free text is a single line.
proof fn lemma_lines_of_fragment(a: Seq<char>)
    requires
        a.len() > 0,
        forall|i: int| 0 <= i < a.len() ==> a[i] != '\n',
    ensures
        lines_of(a) == seq![a],
{
    lemma_find_nl_none(a);
}

/// Characters a persistable field may hold never collide with the record
/// structure, so an encoded record has exactly the record length.
pub proof fn lemma_enc_field_len(s: Seq<char>)
    requires
        valid_field(s),
    ensures
        enc_field(s).len() == RECORD_LEN,
{
}

/// Builds the fixed-width record of one field.
fn encode_field(s: &Vec<char>) -> (r: Vec<char>)
    requires
        valid_field(s@),
    ensures
        r@ == enc_field(s@),
        r@.len() == RECORD_LEN,
{
    let mut r = copy_chars(s);
    while r.len() < FIELD_WIDTH
        invariant
            s@.len() <= r@.len() <= FIELD_WIDTH,
            r@ == s@ + pad_spaces(r@.len() - s@.len()),
        decreases FIELD_WIDTH - r@.len(),
    {
        r.push(' ');
        proof {
            assert(r@ =~= s@ + pad_spaces(r@.len() - s@.len()));
        }
    }
    r.push('\n');
    proof {
        assert(r@ =~= enc_field(s@));
        lemma_enc_field_len(s@);
    }
    r
}

/// The views of a vector of lines.
pub open spec fn line_models(ls: Seq<Vec<char>>) -> Seq<Seq<char>> {
    ls.map_values(|l: Vec<char>| l@)
}

/// Copies a stored line with its trailing space padding removed.
fn trim_line(line: &Vec<char>) -> (r: Vec<char>)
    ensures
        r@ == trim_spaces(line@),
{
    let mut n = line.len();
    proof {
        assert(line@.take(line@.len() as int) =~= line@);
    }
    while n > 0 && line[n - 1] == ' '
        invariant
            n <= line@.len(),
            trim_spaces(line@) == trim_spaces(line@.take(n as int)),
        decreases n,
    {
        proof {
            assert(line@.take(n as int).drop_last() =~= line@.take(n - 1));
        }
        n -= 1;
    }
    let mut r: Vec<char> = Vec::new();
    let mut i: usize = 0;
    while i < n
        invariant
            i <= n <= line@.len(),
            r@ == line@.take(i as int),
        decreases n - i,
    {
        r.push(line[i]);
        proof {
            assert(r@ =~= line@.take(i + 1));
        }
        i += 1;
    }
    proof {
        if n > 0 {
            assert(line@.take(n as int).last() == line@[n - 1]);
        }
        assert(r@ == trim_spaces(line@));
    }
    r
}

/// Splits the image into its lines.
fn split_lines(image: &Vec<char>) -> (lines: Vec<Vec<char>>)
    ensures
        line_models(lines@) == lines_of(image@),
{
    let mut lines: Vec<Vec<char>> = Vec::new();
    let mut cur: Vec<char> = Vec::new();
    let mut j: usize = 0;
    proof {
        assert(image@.skip(0) =~= image@);
        assert(line_models(lines@) =~= Seq::<Seq<char>>::empty());
    }
    while j < image.len()
        invariant
            j <= image@.len(),
            cur@.len() <= j,
            cur@ == image@.subrange(j - cur@.len(), j as int),
            forall|i: int| 0 <= i < cur@.len() ==> cur@[i] != '\n',
            lines_of(image@) == line_models(lines@) + lines_of(image@.skip(j - cur@.len())),
        decreases image@.len() - j,
    {
        let c = image[j];
        if c == '\n' {
            let ghost lines0 = lines@;
            let ghost a = cur@;
            proof {
                assert(image@.skip(j - a.len()) =~= a + seq!['\n'] + image@.skip(j + 1));
                lemma_lines_of_line(a, image@.skip(j + 1));
            }
            lines.push(cur);
            cur = Vec::new();
            proof {
                assert(line_models(lines@) =~= line_models(lines0) + seq![a]);
                assert(cur@ =~= image@.subrange(j + 1 - cur@.len(), j + 1));
            }
        } else {
            cur.push(c);
            proof {
                assert(cur@ =~= image@.subrange(j + 1 - cur@.len(), j + 1));
            }
        }
        j += 1;
    }
    if cur.len() > 0 {
        let ghost lines0 = lines@;
        let ghost a = cur@;
        proof {
            assert(image@.skip(image@.len() - a.len()) =~= a);
            lemma_lines_of_fragment(a);
        }
        lines.push(cur);
        proof {
            assert(line_models(lines@) =~= line_models(lines0) + seq![a]);
        }
    } else {
        proof {
            assert(image@.skip(image@.len() as int) =~= Seq::<char>::empty());
            assert(line_models(lines@) + lines_of(Seq::<char>::empty()) =~= line_models(
                lines@,
            ));
        }
    }
    lines
}

/// Why a store operation was refused.
#[derive(Debug, PartialEq, Eq)]
pub enum StoreError {
    /// A field was too wide for a record, or held a character that the
    /// encoding cannot carry.
    InvalidField,
    /// The image is too short to hold a note at the given index.
    OutOfBounds,
}

/// One in-place change to the backing file: replace the text at the given
/// character offset with `data`.  Offsets equal byte offsets because the
/// image holds one-byte characters only.
#[derive(Debug)]
pub struct Patch {
    pub offset: usize,
    pub data: Vec<char>,
}

/// The in-memory image of the backing file.
pub struct NoteStore {
    image: Vec<char>,
}

impl View for NoteStore {
    type V = Seq<char>;

    closed spec fn view(&self) -> Seq<char> {
        self.image@
    }
}

impl NoteStore {
    /// An empty store, as when the backing file does not exist yet.
    pub fn new() -> (r: NoteStore)
        ensures
            r@ == Seq::<char>::empty(),
    {
        let r = NoteStore { image: Vec::new() };
        proof {
            assert(r@ =~= Seq::<char>::empty());
        }
        r
    }

    /// A store over the given file text.
    pub fn from_image(image: Vec<char>) -> (r: NoteStore)
        ensures
            r@ == image@,
    {
        NoteStore { image }
    }

    /// The full file text, for writing the file out whole.
    pub fn image(&self) -> (r: &Vec<char>)
        ensures
            r@ == self@,
    {
        &self.image
    }

    /// Reads every complete (title, body) pair out of the image, trimmed
    /// of padding and in file order; an unpaired final line is dropped.
    pub fn load_all(&self) -> (notes: Vec<Note>)
        ensures
            models_of(notes@) == parse_store(self@),
    {
        let lines = split_lines(&self.image);
        let ghost trimmed = line_models(lines@).map_values(|l: Seq<char>| trim_spaces(l));
        proof {
            assert(trimmed =~= lines_of(self.image@).map_values(
                |l: Seq<char>| trim_spaces(l),
            ));
            assert(trimmed.skip(0) =~= trimmed);
            assert(models_of(Seq::<Note>::empty()) =~= Seq::<NoteModel>::empty());
        }
        let mut notes: Vec<Note> = Vec::new();
        let mut i: usize = 0;
        while i < lines.len() && lines.len() - i >= 2
            invariant
                i <= lines@.len(),
                trimmed == line_models(lines@).map_values(|l: Seq<char>| trim_spaces(l)),
                trimmed.len() == lines@.len(),
                models_of(notes@) + pair_up(trimmed.skip(i as int)) == pair_up(trimmed),
            decreases lines@.len() - i,
        {
            let t = trim_line(&lines[i]);
            let b = trim_line(&lines[i + 1]);
            let ghost notes0 = notes@;
            let note = Note { title: t, body: b };
            proof {
                assert(trimmed[i as int] == trim_spaces(line_models(lines@)[i as int]));
                assert(trimmed[i + 1] == trim_spaces(line_models(lines@)[i + 1]));
                assert(note@ =~= (NoteModel { title: trimmed[i as int], body: trimmed[i + 1] }));
                assert(trimmed.skip(i as int)[0] == trimmed[i as int]);
                assert(trimmed.skip(i as int)[1] == trimmed[i + 1]);
                assert(trimmed.skip(i as int).skip(2) =~= trimmed.skip(i + 2));
            }
            notes.push(note);
            proof {
                assert(models_of(notes@) =~= models_of(notes0) + seq![note@]);
                assert(pair_up(trimmed.skip(i as int)) == seq![note@] + pair_up(
                    trimmed.skip(i + 2),
                ));
                assert(models_of(notes@) + pair_up(trimmed.skip(i + 2)) =~= pair_up(trimmed));
            }
            i += 2;
        }
        proof {
            assert(pair_up(trimmed.skip(i as int)) =~= Seq::<NoteModel>::empty());
            assert(models_of(notes@) =~= parse_store(self@));
        }
        notes
    }

    /// Appends the two records of a new note at the end of the image.
    /// Succeeds exactly when both fields are persistable; the image is
    /// untouched on failure.
    pub fn append(&mut self, title: &Vec<char>, body: &Vec<char>) -> (r: Result<
        Patch,
        StoreError,
    >)
        ensures
            r is Ok <==> valid_field(title@) && valid_field(body@),
            (r matches Ok(p) ==> {
                let n = NoteModel { title: title@, body: body@ };
                &&& final(self)@ == old(self)@ + enc_pair(n)
                &&& p.offset == old(self)@.len()
                &&& p.data@ == enc_pair(n)
            }),
            r is Err ==> final(self)@ == old(self)@ && r == Err::<Patch, StoreError>(
                StoreError::InvalidField,
            ),
    {
        if !is_valid_field(title) || !is_valid_field(body) {
            return Err(StoreError::InvalidField);
        }
        let t = encode_field(title);
        let b = encode_field(body);
        let offset = self.image.len();
        let mut data: Vec<char> = Vec::new();
        push_all(&mut data, &t);
        push_all(&mut data, &b);
        push_all(&mut self.image, &data);
        proof {
            let n = NoteModel { title: title@, body: body@ };
            assert(data@ =~= enc_pair(n));
        }
        Ok(Patch { offset, data })
    }

    /// Rewrites the two records of the note at `index` in place.  Succeeds
    /// exactly when both fields are persistable and the image already holds
    /// a full pair of records at that index; the image is untouched on
    /// failure, and nothing outside the two records changes on success.
    pub fn update_at(&mut self, index: usize, title: &Vec<char>, body: &Vec<char>) -> (r: Result<
        Patch,
        StoreError,
    >)
        ensures
            r is Ok <==> valid_field(title@) && valid_field(body@) && pair_offset(index as int)
                + PAIR_LEN <= old(self)@.len(),
            (r matches Ok(p) ==> {
                let n = NoteModel { title: title@, body: body@ };
                &&& final(self)@ == updated_image(old(self)@, index as int, n)
                &&& p.offset == pair_offset(index as int)
                &&& p.data@ == enc_pair(n)
            }),
            r is Err ==> final(self)@ == old(self)@,
            !(valid_field(title@) && valid_field(body@)) ==> r == Err::<Patch, StoreError>(
                StoreError::InvalidField,
            ),
            (valid_field(title@) && valid_field(body@) && pair_offset(index as int) + PAIR_LEN
                > old(self)@.len()) ==> r == Err::<Patch, StoreError>(StoreError::OutOfBounds),
    {
        if !is_valid_field(title) || !is_valid_field(body) {
            return Err(StoreError::InvalidField);
        }
        let len = self.image.len();
        proof {
            vstd::arithmetic::div_mod::lemma_fundamental_div_mod(len as int, PAIR_LEN as int);
            vstd::arithmetic::div_mod::lemma_mod_bound(len as int, PAIR_LEN as int);
        }
        if index >= len / PAIR_LEN {
            proof {
                vstd::arithmetic::mul::lemma_mul_inequality(
                    len as int / PAIR_LEN as int,
                    index as int,
                    PAIR_LEN as int,
                );
                assert(pair_offset(index as int) + PAIR_LEN > len);
            }
            return Err(StoreError::OutOfBounds);
        }
        proof {
            vstd::arithmetic::mul::lemma_mul_inequality(
                index as int + 1,
                len as int / PAIR_LEN as int,
                PAIR_LEN as int,
            );
            vstd::arithmetic::mul::lemma_mul_is_distributive_add_other_way(
                PAIR_LEN as int,
                index as int,
                1,
            );
            assert(pair_offset(index as int) + PAIR_LEN <= len);
        }
        let off = index * PAIR_LEN;
        let t = encode_field(title);
        let b = encode_field(body);
        let mut data: Vec<char> = Vec::new();
        push_all(&mut data, &t);
        push_all(&mut data, &b);
        proof {
            let n = NoteModel { title: title@, body: body@ };
            assert(data@ =~= enc_pair(n));
        }
        let ghost img0 = self.image@;
        let mut j: usize = 0;
        while j < data.len()
            invariant
                data@.len() == PAIR_LEN,
                j <= PAIR_LEN,
                off == pair_offset(index as int),
                off + PAIR_LEN <= len,
                len == img0.len(),
                self.image@.len() == img0.len(),
                self.image@ == img0.take(off as int) + data@.take(j as int) + img0.skip(
                    off + j,
                ),
        decreases data@.len() - j,
        {
            self.image.set(off + j, data[j]);
            proof {
                assert(self.image@ =~= img0.take(off as int) + data@.take(j + 1) + img0.skip(
                    off + j + 1,
                ));
            }
            j += 1;
        }
        proof {
            let n = NoteModel { title: title@, body: body@ };
            assert(data@.take(PAIR_LEN as int) =~= data@);
            assert(self.image@ =~= updated_image(img0, index as int, n));
        }
        Ok(Patch { offset: off, data })
    }
}

/// A field whose last character is not a space survives trimming; the
/// padding character never ends such a field.
pub open spec fn no_trailing_space(s: Seq<char>) -> bool {
    s.len() > 0 ==> s.last() != ' '
}

/// A note with both fields trimmed of trailing spaces, as loading
/// returns it.
pub open spec fn trimmed_note(n: NoteModel) -> NoteModel {
    NoteModel { title: trim_spaces(n.title), body: trim_spaces(n.body) }
}

proof fn lemma_trim_pad(t: Seq<char>, k: int)
    requires
        k >= 0,
    ensures
        trim_spaces(t + pad_spaces(k)) == trim_spaces(t),
    decreases k,
{
    if k == 0 {
        assert(t + pad_spaces(0) =~= t);
    } else {
        let s = t + pad_spaces(k);
        assert(s.last() == ' ');
        assert(s.drop_last() =~= t + pad_spaces(k - 1));
        lemma_trim_pad(t, k - 1);
    }
}

proof fn lemma_trim_no_trailing_space(t: Seq<char>)
    requires
        no_trailing_space(t),
    ensures
        trim_spaces(t) == t,
{
}

/// Appending notes to an empty store and loading them back yields
/// exactly those notes with each field trimmed of its padding, in the
/// original order: parsing inverts encoding up to the trim that loading
/// performs.
pub proof fn lemma_store_parse(notes: Seq<NoteModel>)
    requires
        forall|i: int| 0 <= i < notes.len() ==> (#[trigger] notes[i]).valid(),
    ensures
        parse_store(store_of(notes)) == notes.map_values(|n: NoteModel| trimmed_note(n)),
    decreases notes.len(),
{
    let f = |l: Seq<char>| trim_spaces(l);
    if notes.len() == 0 {
        assert(lines_of(store_of(notes)).map_values(f) =~= Seq::<Seq<char>>::empty());
        assert(parse_store(store_of(notes)) =~= notes);
    } else {
        let n0 = notes[0];
        let rest = notes.drop_first();
        let tp = n0.title + pad_spaces(FIELD_WIDTH - n0.title.len());
        let bp = n0.body + pad_spaces(FIELD_WIDTH - n0.body.len());
        let s = store_of(notes);
        assert(forall|i: int| 0 <= i < tp.len() ==> #[trigger] tp[i] != '\n') by {
            assert(forall|i: int| 0 <= i < n0.title.len() ==> printable(#[trigger] n0.title[i]));
        }
        assert(forall|i: int| 0 <= i < bp.len() ==> #[trigger] bp[i] != '\n') by {
            assert(forall|i: int| 0 <= i < n0.body.len() ==> printable(#[trigger] n0.body[i]));
        }
        assert(s =~= tp + seq!['\n'] + (bp + seq!['\n'] + store_of(rest)));
        lemma_lines_of_line(tp, bp + seq!['\n'] + store_of(rest));
        lemma_lines_of_line(bp, store_of(rest));
        assert(lines_of(s) == seq![tp] + (seq![bp] + lines_of(store_of(rest))));
        let tail = lines_of(store_of(rest)).map_values(f);
        lemma_trim_pad(n0.title, FIELD_WIDTH - n0.title.len());
        lemma_trim_pad(n0.body, FIELD_WIDTH - n0.body.len());
        let full = seq![trim_spaces(n0.title), trim_spaces(n0.body)] + tail;
        assert(lines_of(s).map_values(f) =~= full);
        assert(full.skip(2) =~= tail);
        assert(pair_up(full) == seq![
            NoteModel { title: trim_spaces(n0.title), body: trim_spaces(n0.body) },
        ] + pair_up(tail));
        assert((NoteModel { title: trim_spaces(n0.title), body: trim_spaces(n0.body) })
            =~= trimmed_note(n0));
        assert(forall|i: int| 0 <= i < rest.len() ==> (#[trigger] rest[i]).valid());
        lemma_store_parse(rest);
        assert(parse_store(s) =~= notes.map_values(|n: NoteModel| trimmed_note(n)));
    }
}

/// The round trip proper: for notes whose fields do not end in the
/// padding character, appending them to an empty store and loading them
/// back yields exactly those notes, in the original order.
pub proof fn lemma_store_round_trip(notes: Seq<NoteModel>)
    requires
        forall|i: int| 0 <= i < notes.len() ==> (#[trigger] notes[i]).valid(),
        forall|i: int| 0 <= i < notes.len() ==> no_trailing_space(#[trigger] notes[i].title)
            && no_trailing_space(notes[i].body),
    ensures
        parse_store(store_of(notes)) == notes,
{
    lemma_store_parse(notes);
    assert forall|i: int| 0 <= i < notes.len() implies notes.map_values(
        |n: NoteModel| trimmed_note(n),
    )[i] == notes[i] by {
        lemma_trim_no_trailing_space(notes[i].title);
        lemma_trim_no_trailing_space(notes[i].body);
        assert(trimmed_note(notes[i]) =~= notes[i]);
    }
    assert(notes.map_values(|n: NoteModel| trimmed_note(n)) =~= notes);
}

/// A store of `k` valid notes is exactly `k` record pairs long.
pub proof fn lemma_store_of_len(notes: Seq<NoteModel>)
    requires
        forall|i: int| 0 <= i < notes.len() ==> (#[trigger] notes[i]).valid(),
    ensures
        store_of(notes).len() == notes.len() * PAIR_LEN,
    decreases notes.len(),
{
    if notes.len() == 0 {
    } else {
        let rest = notes.drop_first();
        assert(forall|i: int| 0 <= i < rest.len() ==> (#[trigger] rest[i]).valid());
        lemma_store_of_len(rest);
        lemma_enc_field_len(notes[0].title);
        lemma_enc_field_len(notes[0].body);
        vstd::arithmetic::mul::lemma_mul_is_distributive_add_other_way(
            PAIR_LEN as int,
            notes.len() - 1,
            1,
        );
    }
}

/// Appending one note's records at the end of a store encodes the store
/// of the notes with that note appended: what `append` does to the image
/// is, at the note level, a push.
pub proof fn lemma_store_of_push(notes: Seq<NoteModel>, n: NoteModel)
    ensures
        store_of(notes.push(n)) == store_of(notes) + enc_pair(n),
    decreases notes.len(),
{
    if notes.len() == 0 {
        assert(notes.push(n)[0] == n);
        assert(notes.push(n).len() == 1);
        assert(store_of(notes.push(n)) == enc_pair(n) + store_of(notes.push(n).drop_first()));
        assert(notes.push(n).drop_first() =~= Seq::<NoteModel>::empty());
        assert(store_of(Seq::<NoteModel>::empty()) == Seq::<char>::empty());
        assert(enc_pair(n) + Seq::<char>::empty() =~= Seq::<char>::empty() + enc_pair(n));
        assert(store_of(notes) == Seq::<char>::empty());
    } else {
        let a = enc_pair(notes[0]);
        let b = store_of(notes.drop_first());
        let c = enc_pair(n);
        assert(notes.push(n)[0] == notes[0]);
        assert(notes.push(n).len() == notes.len() + 1);
        assert(store_of(notes.push(n)) == a + store_of(notes.push(n).drop_first()));
        assert(notes.push(n).drop_first() =~= notes.drop_first().push(n));
        lemma_store_of_push(notes.drop_first(), n);
        assert(store_of(notes.push(n).drop_first()) == b + c);
        assert(a + (b + c) =~= (a + b) + c);
        assert(store_of(notes) == a + b);
    }
}

/// Rewriting the two records at one index of a store encodes the store
/// with that one note replaced: what `update_at` does to the image is, at
/// the note level, an update, and no other note moves or changes.
pub proof fn lemma_store_of_update(notes: Seq<NoteModel>, index: int, n: NoteModel)
    requires
        forall|i: int| 0 <= i < notes.len() ==> (#[trigger] notes[i]).valid(),
        0 <= index < notes.len(),
    ensures
        updated_image(store_of(notes), index, n) == store_of(notes.update(index, n)),
    decreases index,
{
    let s = store_of(notes);
    let rest = notes.drop_first();
    let head = enc_pair(notes[0]);
    lemma_enc_field_len(notes[0].title);
    lemma_enc_field_len(notes[0].body);
    assert(forall|i: int| 0 <= i < rest.len() ==> (#[trigger] rest[i]).valid());
    lemma_store_of_len(notes);
    vstd::arithmetic::mul::lemma_mul_inequality(index + 1, notes.len() as int, PAIR_LEN as int);
    vstd::arithmetic::mul::lemma_mul_is_distributive_add_other_way(PAIR_LEN as int, index, 1);
    assert(pair_offset(index) + PAIR_LEN <= s.len());
    if index == 0 {
        assert(s.take(0) =~= Seq::<char>::empty());
        assert(s.skip(PAIR_LEN as int) =~= store_of(rest));
        assert(notes.update(0, n)[0] == n);
        assert(notes.update(0, n).drop_first() =~= rest);
        assert(updated_image(s, 0, n) =~= store_of(notes.update(0, n)));
    } else {
        vstd::arithmetic::mul::lemma_mul_is_distributive_add_other_way(
            PAIR_LEN as int,
            index - 1,
            1,
        );
        vstd::arithmetic::mul::lemma_mul_nonnegative(index - 1, PAIR_LEN as int);
        lemma_store_of_len(rest);
        vstd::arithmetic::mul::lemma_mul_inequality(index, notes.len() - 1, PAIR_LEN as int);
        assert(s.take(pair_offset(index)) =~= head + store_of(rest).take(pair_offset(index - 1)));
        assert(s.skip(pair_offset(index) + PAIR_LEN) =~= store_of(rest).skip(
            pair_offset(index - 1) + PAIR_LEN,
        ));
        lemma_store_of_update(rest, index - 1, n);
        assert(notes.update(index, n)[0] == notes[0]);
        assert(notes.update(index, n).drop_first() =~= rest.update(index - 1, n));
        assert(updated_image(s, index, n) =~= store_of(notes.update(index, n)));
    }
}

/// Rewriting the records at one index with the same fields a second time
/// leaves the image exactly as after the first rewrite: in-place update is
/// idempotent.
pub proof fn lemma_update_idempotent(image: Seq<char>, index: int, n: NoteModel)
    requires
        n.valid(),
        0 <= index,
        pair_offset(index) + PAIR_LEN <= image.len(),
    ensures
        updated_image(updated_image(image, index, n), index, n) == updated_image(
            image,
            index,
            n,
        ),
{
    vstd::arithmetic::mul::lemma_mul_nonnegative(index, PAIR_LEN as int);
    lemma_enc_field_len(n.title);
    lemma_enc_field_len(n.body);
    let off = pair_offset(index);
    let u = updated_image(image, index, n);
    assert(u.len() == image.len());
    assert(u.take(off) =~= image.take(off));
    assert(u.skip(off + PAIR_LEN) =~= image.skip(off + PAIR_LEN));
    assert(updated_image(u, index, n) =~= u);
}

} // verus!
