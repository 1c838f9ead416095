//! Notes in plain text, and the tags that they bear.
//!
//! A note is a file in a directory under the notes directory, and is named by
//! its path from there. The tag index maps each tag to the set of notes that
//! bear it. This library holds what the note-taking tool decides: how a note
//! is named, what giving and taking a tag does to the index, how the index is
//! read from and written to its file, and what each command comes to, given
//! what was found in the note store. It reads and writes no file itself.
//!
//! - [`model`]: the tag index as a map, and what holds of it;
//! - [`tags`]: the tag index as it is kept, with its operations;
//! - [`listing`] and [`index_file`]: the index written out, and its file;
//! - [`paths`], [`notes`]: paths and note identifiers, and what is written to
//!   a note;
//! - [`config`]: the configuration;
//! - [`format`], [`text`]: times and numbers as text;
//! - [`run`], [`commands`]: the commands.

pub mod commands;
pub mod config;
pub mod format;
pub mod index_file;
pub mod listing;
pub mod model;
pub mod notes;
pub mod paths;
pub mod run;
pub mod tags;
pub mod text;
