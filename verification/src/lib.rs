//! Core of a terminal note manager.
//!
//! Notes are (title, body) pairs kept in an ordered in-memory collection and
//! persisted as fixed-width text records.  A modal state machine drives the
//! multi-step add and edit flows, buffering keystrokes into a draft note and
//! committing completed drafts to the store and the collection.  Everything
//! here is plain data and decisions; the surrounding program owns the
//! terminal and the backing file and feeds events in.

pub mod collection;
pub mod layout;
pub mod note;
pub mod render;
pub mod session;
pub mod store;
pub mod text;
