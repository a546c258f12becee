//! The modal input state machine and the selection state: the decision
//! core of the editor.
//!
//! The session consumes one key event at a time.  While no flow is active,
//! keys navigate the list, start a flow, or quit; once a flow is active the
//! session captures the whole keyboard until the flow commits or is
//! cancelled.  A commit does not touch the collection directly: the session
//! hands the caller a persist action, the caller attempts the store write,
//! and reports the outcome back through `persist_done`.  The collection is
//! mirrored only after a reported success, so a failed write leaves the
//! draft, the flow and the collection exactly as they were, and no note is
//! ever visible in memory that is not on disk.
//!
//! Returning to no-flow always clears the draft and the line-number
//! scratch, so an abandoned flow leaks nothing into the next one.

use vstd::prelude::*;

use crate::collection::NoteCollection;
use crate::note::{is_valid_field, valid_field, Note, NoteModel, FIELD_WIDTH};
use crate::text::{
    all_digits,
    blank,
    copy_chars,
    dec_val,
    is_blank,
    is_printable,
    parse_index,
    printable,
};

verus! {

/// One key event, as the session understands keys.
#[derive(Clone, Copy, PartialEq, Eq, Structural, Debug)]
pub enum Key {
    /// A character key.
    Char(char),
    /// The commit key.
    Enter,
    /// The cancel key.
    Escape,
    Backspace,
    Up,
    Down,
    /// The copy-from-existing key: in an edit flow, fills the active field
    /// from the note being edited.
    Right,
    /// Any other key; never changes anything.
    Other,
}

/// Which modal flow is active and which step it is on.  The target index
/// of an edit flow rides with its step, so two flows can never be active
/// at once.
#[derive(Clone, Copy, PartialEq, Eq, Structural, Debug)]
pub enum Flow {
    /// No flow running: navigation keys are live.
    Inactive,
    /// Add flow, entering the title.
    AddTitle,
    /// Add flow, entering the body; Enter asks the caller to append.
    AddBody,
    /// Edit-by-number flow, entering the 1-based line number.
    EditSelectLine,
    /// Edit flow, entering the title of the note at `target`.
    EditTitle { target: usize },
    /// Edit flow, entering the body; Enter asks the caller to update.
    EditBody { target: usize },
}

/// What the caller must do after handing the session a key.
#[derive(Debug)]
pub enum Action {
    /// Nothing.
    Idle,
    /// Leave the program.
    Quit,
    /// Append a note with these fields to the store, then report the
    /// outcome through `persist_done`.
    Append { title: Vec<char>, body: Vec<char> },
    /// Rewrite the note at `index` in the store with these fields, then
    /// report the outcome through `persist_done`.
    Update { index: usize, title: Vec<char>, body: Vec<char> },
}

/// Model of an action.
#[verifier::ext_equal]
pub ghost enum ActionModel {
    Idle,
    Quit,
    Append { title: Seq<char>, body: Seq<char> },
    Update { index: int, title: Seq<char>, body: Seq<char> },
}

impl View for Action {
    type V = ActionModel;

    open spec fn view(&self) -> ActionModel {
        match self {
            Action::Idle => ActionModel::Idle,
            Action::Quit => ActionModel::Quit,
            Action::Append { title, body } => ActionModel::Append {
                title: title@,
                body: body@,
            },
            Action::Update { index, title, body } => ActionModel::Update {
                index: *index as int,
                title: title@,
                body: body@,
            },
        }
    }
}

/// Model of the whole session.
#[verifier::ext_equal]
pub ghost struct SessionModel {
    pub notes: Seq<NoteModel>,
    pub draft: NoteModel,
    pub line_buf: Seq<char>,
    pub flow: Flow,
    pub selected: int,
}

impl SessionModel {
    /// Session well-formedness: the draft stays persistable, the typed
    /// line number stays bounded, the highlight sits on an entry (or at
    /// zero while the list is empty), an edit flow's target names an
    /// entry, and no scratch text survives outside a flow.
    pub open spec fn wf(self) -> bool {
        &&& self.draft.valid()
        &&& self.line_buf.len() <= FIELD_WIDTH
        &&& if self.notes.len() == 0 {
            self.selected == 0
        } else {
            0 <= self.selected < self.notes.len()
        }
        &&& (self.flow matches Flow::EditTitle { target } ==> target < self.notes.len())
        &&& (self.flow matches Flow::EditBody { target } ==> target < self.notes.len())
        &&& (self.flow is Inactive ==> self.draft == NoteModel::empty() && self.line_buf.len()
            == 0)
    }
}

/// Move-down wraps from the last entry to the first; an empty list leaves
/// the highlight alone.
pub open spec fn nav_down(i: int, n: int) -> int {
    if n == 0 {
        i
    } else if i + 1 >= n {
        0
    } else {
        i + 1
    }
}

/// Move-up wraps from the first entry to the last; an empty list leaves
/// the highlight alone.
pub open spec fn nav_up(i: int, n: int) -> int {
    if n == 0 {
        i
    } else if i == 0 {
        n - 1
    } else {
        i - 1
    }
}

/// Leaving a flow, by commit, cancel or abort: no flow, draft and
/// line-number scratch empty, notes and highlight kept.
pub open spec fn cleared(s: SessionModel) -> SessionModel {
    SessionModel {
        flow: Flow::Inactive,
        draft: NoteModel::empty(),
        line_buf: Seq::empty(),
        ..s
    }
}

/// A typed line number the select-line step accepts: a non-empty digit
/// string naming an existing 1-based line.
pub open spec fn line_valid(buf: Seq<char>, n: int) -> bool {
    buf.len() > 0 && all_digits(buf) && 1 <= dec_val(buf) <= n
}

/// A character key is taken into a field only while the field has room,
/// so no field ever outgrows a record; other characters are dropped at
/// the keyboard.
pub open spec fn field_takes(f: Seq<char>, c: char) -> bool {
    printable(c) && f.len() < FIELD_WIDTH
}

/// No flow active: navigation, quitting and starting flows.
pub open spec fn step_inactive(s: SessionModel, key: Key) -> (SessionModel, ActionModel) {
    match key {
        Key::Char(c) => if c == 'q' {
            (s, ActionModel::Quit)
        } else if c == 'a' {
            (SessionModel { flow: Flow::AddTitle, ..s }, ActionModel::Idle)
        } else if c == 'e' {
            (SessionModel { flow: Flow::EditSelectLine, ..s }, ActionModel::Idle)
        } else if c == 'j' {
            (
                SessionModel { selected: nav_down(s.selected, s.notes.len() as int), ..s },
                ActionModel::Idle,
            )
        } else if c == 'k' {
            (
                SessionModel { selected: nav_up(s.selected, s.notes.len() as int), ..s },
                ActionModel::Idle,
            )
        } else {
            (s, ActionModel::Idle)
        },
        Key::Down => (
            SessionModel { selected: nav_down(s.selected, s.notes.len() as int), ..s },
            ActionModel::Idle,
        ),
        Key::Up => (
            SessionModel { selected: nav_up(s.selected, s.notes.len() as int), ..s },
            ActionModel::Idle,
        ),
        Key::Enter => if s.notes.len() > 0 {
            (
                SessionModel { flow: Flow::EditTitle { target: s.selected as usize }, ..s },
                ActionModel::Idle,
            )
        } else {
            (s, ActionModel::Idle)
        },
        Key::Escape => (s, ActionModel::Quit),
        _ => (s, ActionModel::Idle),
    }
}

/// Add flow, title step: edit the draft title; Enter advances once the
/// title is not blank; Escape abandons the flow.
pub open spec fn step_add_title(s: SessionModel, key: Key) -> (SessionModel, ActionModel) {
    match key {
        Key::Char(c) => if field_takes(s.draft.title, c) {
            (
                SessionModel {
                    draft: NoteModel { title: s.draft.title.push(c), ..s.draft },
                    ..s
                },
                ActionModel::Idle,
            )
        } else {
            (s, ActionModel::Idle)
        },
        Key::Backspace => if s.draft.title.len() > 0 {
            (
                SessionModel {
                    draft: NoteModel { title: s.draft.title.drop_last(), ..s.draft },
                    ..s
                },
                ActionModel::Idle,
            )
        } else {
            (s, ActionModel::Idle)
        },
        Key::Enter => if !blank(s.draft.title) {
            (SessionModel { flow: Flow::AddBody, ..s }, ActionModel::Idle)
        } else {
            (s, ActionModel::Idle)
        },
        Key::Escape => (cleared(s), ActionModel::Idle),
        _ => (s, ActionModel::Idle),
    }
}

/// Add flow, body step: edit the draft body; Enter asks the caller to
/// append the draft, leaving the session as it is until the outcome is
/// reported; Escape abandons the flow.
pub open spec fn step_add_body(s: SessionModel, key: Key) -> (SessionModel, ActionModel) {
    match key {
        Key::Char(c) => if field_takes(s.draft.body, c) {
            (
                SessionModel {
                    draft: NoteModel { body: s.draft.body.push(c), ..s.draft },
                    ..s
                },
                ActionModel::Idle,
            )
        } else {
            (s, ActionModel::Idle)
        },
        Key::Backspace => if s.draft.body.len() > 0 {
            (
                SessionModel {
                    draft: NoteModel { body: s.draft.body.drop_last(), ..s.draft },
                    ..s
                },
                ActionModel::Idle,
            )
        } else {
            (s, ActionModel::Idle)
        },
        Key::Enter => (
            s,
            ActionModel::Append { title: s.draft.title, body: s.draft.body },
        ),
        Key::Escape => (cleared(s), ActionModel::Idle),
        _ => (s, ActionModel::Idle),
    }
}

/// Edit flow, line-number step: type a 1-based line number; Enter accepts
/// an existing line and records the 0-based target, or leaves the flow;
/// Escape abandons the flow.
pub open spec fn step_select_line(s: SessionModel, key: Key) -> (SessionModel, ActionModel) {
    match key {
        Key::Char(c) => if field_takes(s.line_buf, c) {
            (SessionModel { line_buf: s.line_buf.push(c), ..s }, ActionModel::Idle)
        } else {
            (s, ActionModel::Idle)
        },
        Key::Backspace => if s.line_buf.len() > 0 {
            (SessionModel { line_buf: s.line_buf.drop_last(), ..s }, ActionModel::Idle)
        } else {
            (s, ActionModel::Idle)
        },
        Key::Enter => if line_valid(s.line_buf, s.notes.len() as int) {
            (
                SessionModel {
                    flow: Flow::EditTitle { target: (dec_val(s.line_buf) - 1) as usize },
                    ..s
                },
                ActionModel::Idle,
            )
        } else {
            (cleared(s), ActionModel::Idle)
        },
        Key::Escape => (cleared(s), ActionModel::Idle),
        _ => (s, ActionModel::Idle),
    }
}

/// Edit flow, title step: edit the draft title, or copy the existing
/// title of the target note; Enter advances once the title is not blank;
/// Escape abandons the flow.
pub open spec fn step_edit_title(s: SessionModel, target: int, key: Key) -> (
    SessionModel,
    ActionModel,
) {
    match key {
        Key::Char(c) => if field_takes(s.draft.title, c) {
            (
                SessionModel {
                    draft: NoteModel { title: s.draft.title.push(c), ..s.draft },
                    ..s
                },
                ActionModel::Idle,
            )
        } else {
            (s, ActionModel::Idle)
        },
        Key::Backspace => if s.draft.title.len() > 0 {
            (
                SessionModel {
                    draft: NoteModel { title: s.draft.title.drop_last(), ..s.draft },
                    ..s
                },
                ActionModel::Idle,
            )
        } else {
            (s, ActionModel::Idle)
        },
        Key::Right => if 0 <= target < s.notes.len() && valid_field(s.notes[target].title) {
            (
                SessionModel {
                    draft: NoteModel { title: s.notes[target].title, ..s.draft },
                    ..s
                },
                ActionModel::Idle,
            )
        } else {
            (s, ActionModel::Idle)
        },
        Key::Enter => if !blank(s.draft.title) {
            (
                SessionModel { flow: Flow::EditBody { target: target as usize }, ..s },
                ActionModel::Idle,
            )
        } else {
            (s, ActionModel::Idle)
        },
        Key::Escape => (cleared(s), ActionModel::Idle),
        _ => (s, ActionModel::Idle),
    }
}

/// Edit flow, body step: edit the draft body, or copy the existing body
/// of the target note; Enter asks the caller to update the target note,
/// leaving the session as it is until the outcome is reported; Escape
/// abandons the flow.
pub open spec fn step_edit_body(s: SessionModel, target: int, key: Key) -> (
    SessionModel,
    ActionModel,
) {
    match key {
        Key::Char(c) => if field_takes(s.draft.body, c) {
            (
                SessionModel {
                    draft: NoteModel { body: s.draft.body.push(c), ..s.draft },
                    ..s
                },
                ActionModel::Idle,
            )
        } else {
            (s, ActionModel::Idle)
        },
        Key::Backspace => if s.draft.body.len() > 0 {
            (
                SessionModel {
                    draft: NoteModel { body: s.draft.body.drop_last(), ..s.draft },
                    ..s
                },
                ActionModel::Idle,
            )
        } else {
            (s, ActionModel::Idle)
        },
        Key::Right => if 0 <= target < s.notes.len() && valid_field(s.notes[target].body) {
            (
                SessionModel {
                    draft: NoteModel { body: s.notes[target].body, ..s.draft },
                    ..s
                },
                ActionModel::Idle,
            )
        } else {
            (s, ActionModel::Idle)
        },
        Key::Enter => if 0 <= target < s.notes.len() {
            (
                s,
                ActionModel::Update {
                    index: target,
                    title: s.draft.title,
                    body: s.draft.body,
                },
            )
        } else {
            (cleared(s), ActionModel::Idle)
        },
        Key::Escape => (cleared(s), ActionModel::Idle),
        _ => (s, ActionModel::Idle),
    }
}

/// The transition relation of the session: for one key, the next state
/// and the action the caller must take.
pub open spec fn spec_step(s: SessionModel, key: Key) -> (SessionModel, ActionModel) {
    match s.flow {
        Flow::Inactive => step_inactive(s, key),
        Flow::AddTitle => step_add_title(s, key),
        Flow::AddBody => step_add_body(s, key),
        Flow::EditSelectLine => step_select_line(s, key),
        Flow::EditTitle { target } => step_edit_title(s, target as int, key),
        Flow::EditBody { target } => step_edit_body(s, target as int, key),
    }
}

/// The state after the caller reports the outcome of a persist action.
/// On success the collection mirrors the persisted draft and the flow
/// ends; on failure nothing changes, so the draft survives and the
/// collection never shows a note the store refused.
pub open spec fn spec_commit(s: SessionModel, ok: bool) -> SessionModel {
    if !ok {
        s
    } else {
        match s.flow {
            Flow::AddBody => cleared(SessionModel { notes: s.notes.push(s.draft), ..s }),
            Flow::EditBody { target } => cleared(
                SessionModel {
                    notes: if (target as int) < s.notes.len() {
                        s.notes.update(target as int, s.draft)
                    } else {
                        s.notes
                    },
                    ..s
                },
            ),
            _ => s,
        }
    }
}

/// The live session: the collection, the draft, the line-number scratch,
/// the active flow and the highlighted entry.
pub struct Session {
    collection: NoteCollection,
    draft: Note,
    line_buf: Vec<char>,
    flow: Flow,
    selected: usize,
}

impl View for Session {
    type V = SessionModel;

    closed spec fn view(&self) -> SessionModel {
        SessionModel {
            notes: self.collection@,
            draft: self.draft@,
            line_buf: self.line_buf@,
            flow: self.flow,
            selected: self.selected as int,
        }
    }
}

impl Session {
    /// A fresh session over the notes loaded from the store: no flow,
    /// empty draft, highlight on the first entry.
    pub fn new(collection: NoteCollection) -> (r: Session)
        ensures
            r@ == (SessionModel {
                notes: collection@,
                draft: NoteModel::empty(),
                line_buf: Seq::empty(),
                flow: Flow::Inactive,
                selected: 0,
            }),
            r@.wf(),
    {
        let r = Session {
            collection,
            draft: Note::new(),
            line_buf: Vec::new(),
            flow: Flow::Inactive,
            selected: 0,
        };
        proof {
            assert(r@.line_buf =~= Seq::<char>::empty());
        }
        r
    }

    /// Back to no flow, with the scratch state cleared.
    fn reset_flow(&mut self)
        ensures
            final(self)@ == cleared(old(self)@),
    {
        self.draft.clear();
        self.line_buf.clear();
        self.flow = Flow::Inactive;
        proof {
            assert(self@ =~= cleared(old(self)@));
        }
    }

    /// Moves the highlight one entry down, wrapping at the end.
    fn move_down(&mut self)
        requires
            old(self)@.wf(),
        ensures
            final(self)@ == (SessionModel {
                selected: nav_down(old(self)@.selected, old(self)@.notes.len() as int),
                ..old(self)@
            }),
    {
        let n = self.collection.len();
        if n == 0 {
        } else if self.selected + 1 >= n {
            self.selected = 0;
        } else {
            self.selected = self.selected + 1;
        }
    }

    /// Moves the highlight one entry up, wrapping at the start.
    fn move_up(&mut self)
        requires
            old(self)@.wf(),
        ensures
            final(self)@ == (SessionModel {
                selected: nav_up(old(self)@.selected, old(self)@.notes.len() as int),
                ..old(self)@
            }),
    {
        let n = self.collection.len();
        if n == 0 {
        } else if self.selected == 0 {
            self.selected = n - 1;
        } else {
            self.selected = self.selected - 1;
        }
    }

    /// Keys while no flow is active.
    fn inactive_input(&mut self, key: Key) -> (r: Action)
        requires
            old(self)@.wf(),
            old(self)@.flow == Flow::Inactive,
        ensures
            final(self)@ == step_inactive(old(self)@, key).0,
            r@ == step_inactive(old(self)@, key).1,
            final(self)@.wf(),
    {
        match key {
            Key::Char(c) => {
                if c == 'q' {
                    Action::Quit
                } else if c == 'a' {
                    self.flow = Flow::AddTitle;
                    Action::Idle
                } else if c == 'e' {
                    self.flow = Flow::EditSelectLine;
                    Action::Idle
                } else if c == 'j' {
                    self.move_down();
                    Action::Idle
                } else if c == 'k' {
                    self.move_up();
                    Action::Idle
                } else {
                    Action::Idle
                }
            }
            Key::Down => {
                self.move_down();
                Action::Idle
            }
            Key::Up => {
                self.move_up();
                Action::Idle
            }
            Key::Enter => {
                if self.collection.len() > 0 {
                    self.flow = Flow::EditTitle { target: self.selected };
                }
                Action::Idle
            }
            Key::Escape => Action::Quit,
            _ => Action::Idle,
        }
    }

    /// Keys at the add flow's title step.
    fn add_title_input(&mut self, key: Key) -> (r: Action)
        requires
            old(self)@.wf(),
            old(self)@.flow == Flow::AddTitle,
        ensures
            final(self)@ == step_add_title(old(self)@, key).0,
            r@ == step_add_title(old(self)@, key).1,
            final(self)@.wf(),
    {
        match key {
            Key::Char(c) => {
                if is_printable(c) && self.draft.title.len() < FIELD_WIDTH {
                    self.draft.title.push(c);
                }
                Action::Idle
            }
            Key::Backspace => {
                let _ = self.draft.title.pop();
                Action::Idle
            }
            Key::Enter => {
                if !is_blank(&self.draft.title) {
                    self.flow = Flow::AddBody;
                }
                Action::Idle
            }
            Key::Escape => {
                self.reset_flow();
                Action::Idle
            }
            _ => Action::Idle,
        }
    }

    /// Keys at the add flow's body step.
    fn add_body_input(&mut self, key: Key) -> (r: Action)
        requires
            old(self)@.wf(),
            old(self)@.flow == Flow::AddBody,
        ensures
            final(self)@ == step_add_body(old(self)@, key).0,
            r@ == step_add_body(old(self)@, key).1,
            final(self)@.wf(),
    {
        match key {
            Key::Char(c) => {
                if is_printable(c) && self.draft.body.len() < FIELD_WIDTH {
                    self.draft.body.push(c);
                }
                Action::Idle
            }
            Key::Backspace => {
                let _ = self.draft.body.pop();
                Action::Idle
            }
            Key::Enter => {
                Action::Append {
                    title: copy_chars(&self.draft.title),
                    body: copy_chars(&self.draft.body),
                }
            }
            Key::Escape => {
                self.reset_flow();
                Action::Idle
            }
            _ => Action::Idle,
        }
    }

    /// Keys at the edit flow's line-number step.
    fn edit_line_input(&mut self, key: Key) -> (r: Action)
        requires
            old(self)@.wf(),
            old(self)@.flow == Flow::EditSelectLine,
        ensures
            final(self)@ == step_select_line(old(self)@, key).0,
            r@ == step_select_line(old(self)@, key).1,
            final(self)@.wf(),
    {
        match key {
            Key::Char(c) => {
                if is_printable(c) && self.line_buf.len() < FIELD_WIDTH {
                    self.line_buf.push(c);
                }
                Action::Idle
            }
            Key::Backspace => {
                let _ = self.line_buf.pop();
                Action::Idle
            }
            Key::Enter => {
                let n = self.collection.len();
                match parse_index(&self.line_buf) {
                    Some(v) => {
                        if 1 <= v && v <= n {
                            self.flow = Flow::EditTitle { target: v - 1 };
                        } else {
                            self.reset_flow();
                        }
                    }
                    None => {
                        self.reset_flow();
                    }
                }
                Action::Idle
            }
            Key::Escape => {
                self.reset_flow();
                Action::Idle
            }
            _ => Action::Idle,
        }
    }

    /// Keys at the edit flow's title step.
    fn edit_text_input(&mut self, target: usize, key: Key) -> (r: Action)
        requires
            old(self)@.wf(),
            old(self)@.flow == (Flow::EditTitle { target }),
        ensures
            final(self)@ == step_edit_title(old(self)@, target as int, key).0,
            r@ == step_edit_title(old(self)@, target as int, key).1,
            final(self)@.wf(),
    {
        match key {
            Key::Char(c) => {
                if is_printable(c) && self.draft.title.len() < FIELD_WIDTH {
                    self.draft.title.push(c);
                }
                Action::Idle
            }
            Key::Backspace => {
                let _ = self.draft.title.pop();
                Action::Idle
            }
            Key::Right => {
                let mut copied: Option<Vec<char>> = None;
                match self.collection.get(target) {
                    Ok(n) => {
                        if is_valid_field(&n.title) {
                            copied = Some(copy_chars(&n.title));
                        }
                    }
                    Err(_) => {}
                }
                if let Some(t) = copied {
                    self.draft.title = t;
                }
                Action::Idle
            }
            Key::Enter => {
                if !is_blank(&self.draft.title) {
                    self.flow = Flow::EditBody { target };
                }
                Action::Idle
            }
            Key::Escape => {
                self.reset_flow();
                Action::Idle
            }
            _ => Action::Idle,
        }
    }

    /// Keys at the edit flow's body step.
    fn edit_body_input(&mut self, target: usize, key: Key) -> (r: Action)
        requires
            old(self)@.wf(),
            old(self)@.flow == (Flow::EditBody { target }),
        ensures
            final(self)@ == step_edit_body(old(self)@, target as int, key).0,
            r@ == step_edit_body(old(self)@, target as int, key).1,
            final(self)@.wf(),
    {
        match key {
            Key::Char(c) => {
                if is_printable(c) && self.draft.body.len() < FIELD_WIDTH {
                    self.draft.body.push(c);
                }
                Action::Idle
            }
            Key::Backspace => {
                let _ = self.draft.body.pop();
                Action::Idle
            }
            Key::Right => {
                let mut copied: Option<Vec<char>> = None;
                match self.collection.get(target) {
                    Ok(n) => {
                        if is_valid_field(&n.body) {
                            copied = Some(copy_chars(&n.body));
                        }
                    }
                    Err(_) => {}
                }
                if let Some(b) = copied {
                    self.draft.body = b;
                }
                Action::Idle
            }
            Key::Enter => {
                if target < self.collection.len() {
                    Action::Update {
                        index: target,
                        title: copy_chars(&self.draft.title),
                        body: copy_chars(&self.draft.body),
                    }
                } else {
                    self.reset_flow();
                    Action::Idle
                }
            }
            Key::Escape => {
                self.reset_flow();
                Action::Idle
            }
            _ => Action::Idle,
        }
    }

    /// Routes one key event: to navigation while no flow is active, to
    /// the active flow's step otherwise.  Returns what the caller must do.
    pub fn handle_key(&mut self, key: Key) -> (r: Action)
        requires
            old(self)@.wf(),
        ensures
            final(self)@ == spec_step(old(self)@, key).0,
            r@ == spec_step(old(self)@, key).1,
            final(self)@.wf(),
    {
        let flow = self.flow;
        match flow {
            Flow::Inactive => self.inactive_input(key),
            Flow::AddTitle => self.add_title_input(key),
            Flow::AddBody => self.add_body_input(key),
            Flow::EditSelectLine => self.edit_line_input(key),
            Flow::EditTitle { target } => self.edit_text_input(target, key),
            Flow::EditBody { target } => self.edit_body_input(target, key),
        }
    }

    /// Takes the outcome of the persist action the session last asked
    /// for.  Success commits the draft to the collection and ends the
    /// flow; failure leaves everything as it was, draft included.
    pub fn persist_done(&mut self, ok: bool)
        requires
            old(self)@.wf(),
        ensures
            final(self)@ == spec_commit(old(self)@, ok),
            final(self)@.wf(),
    {
        if !ok {
            return;
        }
        let flow = self.flow;
        match flow {
            Flow::AddBody => {
                let note = self.draft.duplicate();
                self.collection.push(note);
                self.reset_flow();
            }
            Flow::EditBody { target } => {
                let note = self.draft.duplicate();
                let _ = self.collection.set(target, note);
                self.reset_flow();
            }
            _ => {}
        }
    }

    /// The highlighted entry's index.
    pub fn selected(&self) -> (i: usize)
        ensures
            i == self@.selected,
    {
        self.selected
    }

    /// The active flow and step.
    pub fn current_flow(&self) -> (f: Flow)
        ensures
            f == self@.flow,
    {
        self.flow
    }

    /// The collection, for rendering the list.
    pub fn collection(&self) -> (c: &NoteCollection)
        ensures
            c@ == self@.notes,
    {
        &self.collection
    }

    /// The draft title, for rendering the input popup.
    pub fn draft_title(&self) -> (t: &Vec<char>)
        ensures
            t@ == self@.draft.title,
    {
        &self.draft.title
    }

    /// The draft body, for rendering the input popup.
    pub fn draft_body(&self) -> (b: &Vec<char>)
        ensures
            b@ == self@.draft.body,
    {
        &self.draft.body
    }

    /// The line-number scratch text, for rendering the input popup.
    pub fn line_buffer(&self) -> (t: &Vec<char>)
        ensures
            t@ == self@.line_buf,
    {
        &self.line_buf
    }
}

/// The highlight after `k` consecutive move-downs.
pub open spec fn nav_down_iter(i: int, n: int, k: nat) -> int
    decreases k,
{
    if k == 0 {
        i
    } else {
        nav_down(nav_down_iter(i, n, (k - 1) as nat), n)
    }
}

proof fn lemma_nav_down_iter_val(i: int, n: int, k: nat)
    requires
        0 <= i < n,
        k <= n,
    ensures
        nav_down_iter(i, n, k) == if i + k < n {
            i + k
        } else {
            i + k - n
        },
    decreases k,
{
    if k > 0 {
        lemma_nav_down_iter_val(i, n, (k - 1) as nat);
    }
}

/// Over a list of `n` entries, `n` consecutive move-downs return the
/// highlight to where it started.
pub proof fn lemma_nav_down_cycle(i: int, n: int)
    requires
        0 <= i < n,
    ensures
        nav_down_iter(i, n, n as nat) == i,
{
    lemma_nav_down_iter_val(i, n, n as nat);
}

/// Move-up from the first entry wraps to the last.
pub proof fn lemma_nav_up_wraps(n: int)
    requires
        n > 0,
    ensures
        nav_up(0, n) == n - 1,
{
}


/// Once a flow is active it captures the whole keyboard: no key reaches
/// the quit handling until the flow has returned to no-flow.
pub proof fn lemma_active_flow_captures_keyboard(s: SessionModel, key: Key)
    requires
        !(s.flow is Inactive),
    ensures
        !(spec_step(s, key).1 is Quit),
{
}

/// Keys alone never touch the collection: a note appears or changes only
/// through a reported persist success, never from typing.
pub proof fn lemma_keys_never_change_notes(s: SessionModel, key: Key)
    ensures
        spec_step(s, key).0.notes == s.notes,
{
}

/// A failed persist is invisible: a reported failure leaves the session
/// — collection, draft, flow and scratch — exactly as it was, so no
/// partially persisted note ever shows in memory.
pub proof fn lemma_failed_persist_changes_nothing(s: SessionModel)
    ensures
        spec_commit(s, false) == s,
{
}

} // verus!
