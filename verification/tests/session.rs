use note_rust::collection::{CollectionError, NoteCollection};
use note_rust::note::Note;
use note_rust::render::render_line;
use note_rust::session::{Action, Flow, Key, Session};
use note_rust::store::NoteStore;

fn chars(s: &str) -> Vec<char> {
    s.chars().collect()
}

fn text(v: &[char]) -> String {
    v.iter().collect()
}

fn note(title: &str, body: &str) -> Note {
    Note { title: chars(title), body: chars(body) }
}

fn session_over(notes: Vec<Note>) -> Session {
    Session::new(NoteCollection::from_notes(notes))
}

fn press_text(session: &mut Session, s: &str) {
    for c in s.chars() {
        match session.handle_key(Key::Char(c)) {
            Action::Idle => {}
            other => panic!("typing produced an action: {:?}", other),
        }
    }
}

#[test]
fn add_flow_commits_buy_milk() {
    let mut store = NoteStore::new();
    let mut session = session_over(store.load_all());
    assert!(matches!(session.handle_key(Key::Char('a')), Action::Idle));
    assert_eq!(session.current_flow(), Flow::AddTitle);
    press_text(&mut session, "Buy milk");
    assert!(matches!(session.handle_key(Key::Enter), Action::Idle));
    assert_eq!(session.current_flow(), Flow::AddBody);
    press_text(&mut session, "2%");
    let action = session.handle_key(Key::Enter);
    match action {
        Action::Append { title, body } => {
            assert_eq!(text(&title), "Buy milk");
            assert_eq!(text(&body), "2%");
            store.append(&title, &body).unwrap();
        }
        other => panic!("expected an append, got {:?}", other),
    }
    session.persist_done(true);
    assert_eq!(session.current_flow(), Flow::Inactive);
    assert_eq!(session.draft_title().len(), 0);
    assert_eq!(session.draft_body().len(), 0);
    let notes = store.load_all();
    assert_eq!(notes.len(), 1);
    assert_eq!(text(&notes[0].title), "Buy milk");
    assert_eq!(text(&notes[0].body), "2%");
    let entry = session.collection().get(0).unwrap();
    let line = render_line(1, entry);
    assert_eq!(text(&line), "1: \"Buy milk\" - \"2%\"");
}

#[test]
fn edit_by_number_rewrites_in_place() {
    let mut store = NoteStore::new();
    store.append(&chars("A"), &chars("B")).unwrap();
    let mut session = session_over(store.load_all());
    session.handle_key(Key::Char('e'));
    assert_eq!(session.current_flow(), Flow::EditSelectLine);
    press_text(&mut session, "1");
    session.handle_key(Key::Enter);
    assert_eq!(session.current_flow(), Flow::EditTitle { target: 0 });
    press_text(&mut session, "A2");
    session.handle_key(Key::Enter);
    assert_eq!(session.current_flow(), Flow::EditBody { target: 0 });
    press_text(&mut session, "B2");
    let action = session.handle_key(Key::Enter);
    match action {
        Action::Update { index, title, body } => {
            assert_eq!(index, 0);
            store.update_at(index, &title, &body).unwrap();
        }
        other => panic!("expected an update, got {:?}", other),
    }
    session.persist_done(true);
    let mut expected = NoteStore::new();
    expected.append(&chars("A2"), &chars("B2")).unwrap();
    assert_eq!(store.image(), expected.image());
    assert_eq!(store.image().len(), 202);
    let entry = session.collection().get(0).unwrap();
    assert_eq!(text(&entry.title), "A2");
    assert_eq!(text(&entry.body), "B2");
}

#[test]
fn escape_at_edit_title_clears_draft_and_changes_nothing() {
    let mut store = NoteStore::new();
    store.append(&chars("A"), &chars("B")).unwrap();
    let image_before = store.image().clone();
    let mut session = session_over(store.load_all());
    session.handle_key(Key::Char('e'));
    press_text(&mut session, "1");
    session.handle_key(Key::Enter);
    assert_eq!(session.current_flow(), Flow::EditTitle { target: 0 });
    press_text(&mut session, "half an ed");
    let action = session.handle_key(Key::Escape);
    assert!(matches!(action, Action::Idle));
    assert_eq!(session.current_flow(), Flow::Inactive);
    assert_eq!(session.draft_title().len(), 0);
    assert_eq!(session.draft_body().len(), 0);
    assert_eq!(session.line_buffer().len(), 0);
    assert_eq!(session.collection().len(), 1);
    let entry = session.collection().get(0).unwrap();
    assert_eq!(text(&entry.title), "A");
    assert_eq!(text(&entry.body), "B");
    assert_eq!(store.image(), &image_before);
}

#[test]
fn failed_persist_keeps_draft_and_hides_note() {
    let mut session = session_over(Vec::new());
    session.handle_key(Key::Char('a'));
    press_text(&mut session, "Buy milk");
    session.handle_key(Key::Enter);
    press_text(&mut session, "2%");
    let action = session.handle_key(Key::Enter);
    assert!(matches!(action, Action::Append { .. }));
    session.persist_done(false);
    assert_eq!(session.collection().len(), 0);
    assert_eq!(session.current_flow(), Flow::AddBody);
    assert_eq!(text(session.draft_title()), "Buy milk");
    assert_eq!(text(session.draft_body()), "2%");
    let retry = session.handle_key(Key::Enter);
    match retry {
        Action::Append { title, body } => {
            assert_eq!(text(&title), "Buy milk");
            assert_eq!(text(&body), "2%");
        }
        other => panic!("expected the append again, got {:?}", other),
    }
    session.persist_done(true);
    assert_eq!(session.collection().len(), 1);
    assert_eq!(session.current_flow(), Flow::Inactive);
}

#[test]
fn move_down_n_times_returns_to_start() {
    let notes = vec![note("a", "1"), note("b", "2"), note("c", "3")];
    let mut session = session_over(notes);
    assert_eq!(session.selected(), 0);
    session.handle_key(Key::Down);
    assert_eq!(session.selected(), 1);
    session.handle_key(Key::Down);
    assert_eq!(session.selected(), 2);
    session.handle_key(Key::Down);
    assert_eq!(session.selected(), 0);
}

#[test]
fn move_up_from_top_wraps_to_last() {
    let notes = vec![note("a", "1"), note("b", "2"), note("c", "3")];
    let mut session = session_over(notes);
    session.handle_key(Key::Up);
    assert_eq!(session.selected(), 2);
    session.handle_key(Key::Char('k'));
    assert_eq!(session.selected(), 1);
    session.handle_key(Key::Char('j'));
    assert_eq!(session.selected(), 2);
}

#[test]
fn navigation_on_empty_list_stays_at_zero() {
    let mut session = session_over(Vec::new());
    session.handle_key(Key::Down);
    assert_eq!(session.selected(), 0);
    session.handle_key(Key::Up);
    assert_eq!(session.selected(), 0);
    session.handle_key(Key::Char('j'));
    session.handle_key(Key::Char('k'));
    assert_eq!(session.selected(), 0);
}

#[test]
fn quit_keys_quit_only_outside_a_flow() {
    let mut session = session_over(Vec::new());
    assert!(matches!(session.handle_key(Key::Char('q')), Action::Quit));
    assert!(matches!(session.handle_key(Key::Escape), Action::Quit));
    session.handle_key(Key::Char('a'));
    assert!(matches!(session.handle_key(Key::Char('q')), Action::Idle));
    assert_eq!(text(session.draft_title()), "q");
    assert_eq!(session.current_flow(), Flow::AddTitle);
}

#[test]
fn empty_or_blank_title_does_not_commit() {
    let mut session = session_over(Vec::new());
    session.handle_key(Key::Char('a'));
    session.handle_key(Key::Enter);
    assert_eq!(session.current_flow(), Flow::AddTitle);
    press_text(&mut session, "   ");
    session.handle_key(Key::Enter);
    assert_eq!(session.current_flow(), Flow::AddTitle);
    press_text(&mut session, "x");
    session.handle_key(Key::Enter);
    assert_eq!(session.current_flow(), Flow::AddBody);
}

#[test]
fn field_stops_taking_characters_at_the_record_width() {
    let mut session = session_over(Vec::new());
    session.handle_key(Key::Char('a'));
    for _ in 0..150 {
        session.handle_key(Key::Char('x'));
    }
    assert_eq!(session.draft_title().len(), 100);
}

#[test]
fn unencodable_characters_are_not_taken() {
    let mut session = session_over(Vec::new());
    session.handle_key(Key::Char('a'));
    session.handle_key(Key::Char('\u{e9}'));
    session.handle_key(Key::Char('\t'));
    session.handle_key(Key::Char('x'));
    assert_eq!(text(session.draft_title()), "x");
}

#[test]
fn backspace_edits_and_is_noop_when_empty() {
    let mut session = session_over(Vec::new());
    session.handle_key(Key::Char('a'));
    session.handle_key(Key::Backspace);
    assert_eq!(session.draft_title().len(), 0);
    press_text(&mut session, "ab");
    session.handle_key(Key::Backspace);
    assert_eq!(text(session.draft_title()), "a");
}

#[test]
fn bad_line_numbers_abort_the_edit_flow() {
    let mut store = NoteStore::new();
    store.append(&chars("A"), &chars("B")).unwrap();
    let mut session = session_over(store.load_all());
    session.handle_key(Key::Char('e'));
    press_text(&mut session, "abc");
    session.handle_key(Key::Enter);
    assert_eq!(session.current_flow(), Flow::Inactive);
    assert_eq!(session.line_buffer().len(), 0);
    session.handle_key(Key::Char('e'));
    press_text(&mut session, "0");
    session.handle_key(Key::Enter);
    assert_eq!(session.current_flow(), Flow::Inactive);
    session.handle_key(Key::Char('e'));
    press_text(&mut session, "2");
    session.handle_key(Key::Enter);
    assert_eq!(session.current_flow(), Flow::Inactive);
    session.handle_key(Key::Char('e'));
    session.handle_key(Key::Enter);
    assert_eq!(session.current_flow(), Flow::Inactive);
}

#[test]
fn enter_on_selection_starts_edit_at_highlight() {
    let notes = vec![note("a", "1"), note("b", "2")];
    let mut session = session_over(notes);
    session.handle_key(Key::Down);
    session.handle_key(Key::Enter);
    assert_eq!(session.current_flow(), Flow::EditTitle { target: 1 });
}

#[test]
fn enter_on_empty_list_starts_nothing() {
    let mut session = session_over(Vec::new());
    session.handle_key(Key::Enter);
    assert_eq!(session.current_flow(), Flow::Inactive);
}

#[test]
fn copy_key_fills_fields_from_the_edited_note() {
    let notes = vec![note("old title", "old body")];
    let mut session = session_over(notes);
    session.handle_key(Key::Enter);
    assert_eq!(session.current_flow(), Flow::EditTitle { target: 0 });
    session.handle_key(Key::Right);
    assert_eq!(text(session.draft_title()), "old title");
    session.handle_key(Key::Enter);
    assert_eq!(session.current_flow(), Flow::EditBody { target: 0 });
    session.handle_key(Key::Right);
    assert_eq!(text(session.draft_body()), "old body");
}

#[test]
fn collection_refuses_out_of_range_indexes() {
    let mut collection = NoteCollection::from_notes(vec![note("a", "b")]);
    assert!(collection.get(0).is_ok());
    assert_eq!(collection.get(1).unwrap_err(), CollectionError::OutOfRange);
    assert_eq!(
        collection.set(1, note("x", "y")).unwrap_err(),
        CollectionError::OutOfRange
    );
    assert_eq!(text(&collection.get(0).unwrap().title), "a");
    collection.set(0, note("x", "y")).unwrap();
    assert_eq!(text(&collection.get(0).unwrap().title), "x");
    collection.push(note("c", "d"));
    assert_eq!(collection.len(), 2);
}

#[test]
fn render_line_formats_multidigit_numbers() {
    let n = note("t", "b");
    assert_eq!(text(&render_line(12, &n)), "12: \"t\" - \"b\"");
    assert_eq!(text(&render_line(100, &n)), "100: \"t\" - \"b\"");
}

#[test]
fn escape_in_add_flow_clears_draft() {
    let mut session = session_over(Vec::new());
    session.handle_key(Key::Char('a'));
    press_text(&mut session, "half");
    session.handle_key(Key::Escape);
    assert_eq!(session.current_flow(), Flow::Inactive);
    assert_eq!(session.draft_title().len(), 0);
    assert_eq!(session.collection().len(), 0);
}

#[test]
fn cancelled_flow_leaves_no_residue_for_the_next_one() {
    let notes = vec![note("a", "b")];
    let mut session = session_over(notes);
    session.handle_key(Key::Enter);
    session.handle_key(Key::Right);
    session.handle_key(Key::Enter);
    session.handle_key(Key::Right);
    assert_eq!(session.current_flow(), Flow::EditBody { target: 0 });
    session.handle_key(Key::Escape);
    session.handle_key(Key::Char('a'));
    assert_eq!(session.current_flow(), Flow::AddTitle);
    assert_eq!(session.draft_title().len(), 0);
    assert_eq!(session.draft_body().len(), 0);
}
