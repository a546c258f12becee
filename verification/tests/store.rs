use note_rust::note::Note;
use note_rust::store::{NoteStore, StoreError, PAIR_LEN, RECORD_LEN};

fn chars(s: &str) -> Vec<char> {
    s.chars().collect()
}

fn text(v: &[char]) -> String {
    v.iter().collect()
}

fn record(field: &str) -> String {
    let mut r = String::from(field);
    while r.chars().count() < 100 {
        r.push(' ');
    }
    r.push('\n');
    r
}

#[test]
fn append_encodes_fixed_width_records() {
    let mut store = NoteStore::new();
    let patch = store.append(&chars("A"), &chars("B")).unwrap();
    assert_eq!(patch.offset, 0);
    assert_eq!(patch.data.len(), PAIR_LEN);
    let expected = format!("{}{}", record("A"), record("B"));
    assert_eq!(text(store.image()), expected);
    assert_eq!(text(&patch.data), expected);
}

#[test]
fn append_offsets_grow_by_one_pair() {
    let mut store = NoteStore::new();
    let first = store.append(&chars("one"), &chars("1")).unwrap();
    let second = store.append(&chars("two"), &chars("2")).unwrap();
    assert_eq!(first.offset, 0);
    assert_eq!(second.offset, PAIR_LEN);
    assert_eq!(store.image().len(), 2 * PAIR_LEN);
}

#[test]
fn round_trip_preserves_notes_in_order() {
    let mut store = NoteStore::new();
    store.append(&chars("Buy milk"), &chars("2%")).unwrap();
    store.append(&chars("second title"), &chars("")).unwrap();
    store.append(&chars("third"), &chars("some body text")).unwrap();
    let notes = store.load_all();
    assert_eq!(notes.len(), 3);
    assert_eq!(text(&notes[0].title), "Buy milk");
    assert_eq!(text(&notes[0].body), "2%");
    assert_eq!(text(&notes[1].title), "second title");
    assert_eq!(text(&notes[1].body), "");
    assert_eq!(text(&notes[2].title), "third");
    assert_eq!(text(&notes[2].body), "some body text");
}

#[test]
fn load_all_of_empty_store_is_empty() {
    let store = NoteStore::new();
    assert_eq!(store.load_all().len(), 0);
}

#[test]
fn load_all_drops_unpaired_final_line() {
    let store = NoteStore::from_image(chars("alpha\nbeta\ngamma"));
    let notes = store.load_all();
    assert_eq!(notes.len(), 1);
    assert_eq!(text(&notes[0].title), "alpha");
    assert_eq!(text(&notes[0].body), "beta");
}

#[test]
fn load_all_reads_bare_unpadded_lines() {
    let store = NoteStore::from_image(chars("a\nb\nc\nd\n"));
    let notes = store.load_all();
    assert_eq!(notes.len(), 2);
    assert_eq!(text(&notes[0].title), "a");
    assert_eq!(text(&notes[0].body), "b");
    assert_eq!(text(&notes[1].title), "c");
    assert_eq!(text(&notes[1].body), "d");
}

#[test]
fn append_rejects_overwide_field() {
    let mut store = NoteStore::new();
    let wide: Vec<char> = std::iter::repeat('x').take(101).collect();
    let r = store.append(&wide, &chars("b"));
    assert_eq!(r.unwrap_err(), StoreError::InvalidField);
    assert_eq!(store.image().len(), 0);
}

#[test]
fn append_rejects_unencodable_character() {
    let mut store = NoteStore::new();
    let r = store.append(&chars("a\tb"), &chars("b"));
    assert_eq!(r.unwrap_err(), StoreError::InvalidField);
    assert_eq!(store.image().len(), 0);
}

#[test]
fn update_at_rewrites_in_place() {
    let mut store = NoteStore::new();
    store.append(&chars("A"), &chars("B")).unwrap();
    store.append(&chars("keep"), &chars("this")).unwrap();
    let patch = store.update_at(0, &chars("A2"), &chars("B2")).unwrap();
    assert_eq!(patch.offset, 0);
    assert_eq!(patch.data.len(), PAIR_LEN);
    let expected = format!(
        "{}{}{}{}",
        record("A2"),
        record("B2"),
        record("keep"),
        record("this")
    );
    assert_eq!(text(store.image()), expected);
}

#[test]
fn update_at_second_pair_offset() {
    let mut store = NoteStore::new();
    store.append(&chars("A"), &chars("B")).unwrap();
    store.append(&chars("C"), &chars("D")).unwrap();
    let patch = store.update_at(1, &chars("C2"), &chars("D2")).unwrap();
    assert_eq!(patch.offset, 2 * RECORD_LEN);
    let notes = store.load_all();
    assert_eq!(text(&notes[0].title), "A");
    assert_eq!(text(&notes[1].title), "C2");
    assert_eq!(text(&notes[1].body), "D2");
}

#[test]
fn update_twice_gives_same_bytes_as_once() {
    let mut store = NoteStore::new();
    store.append(&chars("A"), &chars("B")).unwrap();
    store.update_at(0, &chars("A2"), &chars("B2")).unwrap();
    let once = store.image().clone();
    store.update_at(0, &chars("A2"), &chars("B2")).unwrap();
    assert_eq!(store.image(), &once);
}

#[test]
fn update_at_out_of_bounds_is_refused() {
    let mut store = NoteStore::new();
    store.append(&chars("A"), &chars("B")).unwrap();
    let before = store.image().clone();
    let r = store.update_at(1, &chars("X"), &chars("Y"));
    assert_eq!(r.unwrap_err(), StoreError::OutOfBounds);
    assert_eq!(store.image(), &before);
}

#[test]
fn update_at_on_short_image_is_refused() {
    let mut store = NoteStore::from_image(chars("only one line\n"));
    let r = store.update_at(0, &chars("X"), &chars("Y"));
    assert_eq!(r.unwrap_err(), StoreError::OutOfBounds);
}

#[test]
fn update_at_rejects_overwide_field() {
    let mut store = NoteStore::new();
    store.append(&chars("A"), &chars("B")).unwrap();
    let wide: Vec<char> = std::iter::repeat('y').take(200).collect();
    let r = store.update_at(0, &chars("ok"), &wide);
    assert_eq!(r.unwrap_err(), StoreError::InvalidField);
}

#[test]
fn note_fields_are_what_was_stored() {
    let mut store = NoteStore::new();
    store
        .append(&chars("title with  spaces inside"), &chars("body"))
        .unwrap();
    let notes: Vec<Note> = store.load_all();
    assert_eq!(text(&notes[0].title), "title with  spaces inside");
}
