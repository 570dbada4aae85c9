//! Verified core of a command-line tool that manages an Anki collection:
//! argument parsing, note field and tag editing, collection path
//! resolution and the text that each command reports.

pub mod cards;
pub mod common;
pub mod context;
pub mod decks;
pub mod error;
pub mod fields;
pub mod notes;
pub mod notetypes;
pub mod text;
pub mod tags;
