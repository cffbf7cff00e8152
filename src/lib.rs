//! Core of the journali note-taking backend.
//!
//! Every content object (page, to-do list, to-do entry, text field) has one
//! row in an item index that records its kind, its parent and its owner, and
//! one row in the typed table of its kind. A single generic dispatcher gates
//! every create, find, update and delete on ownership before it touches a
//! typed row. Tags are owned by users and link to items through association
//! rows. Password hashing, token signing, random ids and the clock are
//! outside services reached through a few small wrappers.

pub mod outside;

pub mod error;
pub mod items;
pub mod page;
pub mod text_field;
pub mod todo;
pub mod todo_item;
pub mod index;
pub mod table;
pub mod crud;
pub mod database;
pub mod dispatch;
pub mod jwt;
pub mod users;
pub mod tags;
pub mod wf;
