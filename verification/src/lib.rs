//! A small terminal issue tracker: epics own stories, the whole state is
//! kept in one flat persisted store, and a stack of screens drives
//! navigation.
//!
//! The crate is organised like the tool it backs:
//! - [`models`] holds the domain data — statuses, epics, stories, the state
//!   snapshot with its referential-integrity predicate, and the actions a
//!   screen can produce;
//! - [`db`] holds the store — a [`db::Database`] backend trait and the
//!   [`db::JiraDatabase`] operations, each a whole-state read-modify-write
//!   cycle with an exact contract;
//! - [`pages`] interprets one line of user input per screen, and orders what
//!   a screen lists;
//! - [`page_helpers`] formats text into fixed-width columns;
//! - [`prompts`] turns prompt replies into decisions;
//! - [`navigator`] owns the screen stack and applies actions to it and to
//!   the store.

pub mod db;
pub mod models;
pub mod navigator;
pub mod page_helpers;
pub mod pages;
pub mod prompts;
