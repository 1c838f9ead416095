//! Note identity and note content: which directory a note lives in, how a
//! note is named inside the tag index, and what is written to a note.

use crate::paths::{join_path, joined};
use vstd::prelude::*;
use vstd::string::*;

verus! {

/// The directory that holds a note when the user names none.
pub const DEFAULT_NOTES_DIR: &'static str = "notes";

/// The directory a command works in: the one given, or the default one.
pub open spec fn resolved_dir(dir: Option<String>) -> Seq<char> {
    match dir {
        Some(d) => d@,
        None => DEFAULT_NOTES_DIR@,
    }
}

/// Returns the given directory unchanged, or the default directory when none
/// is given.
pub fn resolve_dir(dir: &Option<String>) -> (resolved: String)
    ensures
        resolved@ == resolved_dir(*dir),
{
    match dir {
        Some(d) => d.clone(),
        None => String::from_str(DEFAULT_NOTES_DIR),
    }
}

/// The identifier of the note `name` in the directory `dir`: its path
/// relative to the notes directory.
pub open spec fn note_identifier(name: Seq<char>, dir: Seq<char>) -> Seq<char> {
    joined(dir, name)
}

/// The path of the file that holds the note `name` of the directory `dir`.
pub open spec fn note_path(notes_dir: Seq<char>, name: Seq<char>, dir: Seq<char>) -> Seq<char> {
    joined(notes_dir, note_identifier(name, dir))
}

/// A command was given a note that does not exist.
#[derive(Debug)]
pub struct NoteNotFound {
    /// The command that asked for the note.
    pub command: String,
    /// The note that was looked for, named by its directory and its name:
    /// its path from the notes directory.
    pub path: String,
}

impl NoteNotFound {
    /// The text of `message`.
    pub open spec fn message_text(&self) -> Seq<char> {
        self.command@ + " failed: file '"@ + self.path@ + "' not found"@
    }

    /// What the user is told.
    pub fn message(&self) -> (text: String)
        ensures
            text@ == self.message_text(),
    {
        let mut text = self.command.clone();
        text.append(" failed: file '");
        text.append(self.path.as_str());
        text.append("' not found");
        text
    }
}

/// The path of the file that holds the note `name` of the directory `dir`:
/// the file whose existence decides whether the note can be identified.
pub fn note_file_path(notes_dir: &str, name: &str, dir: &str) -> (path: String)
    ensures
        path@ == note_path(notes_dir@, name@, dir@),
{
    let relative = join_path(dir, name);
    join_path(notes_dir, relative.as_str())
}

/// The identifier of the note `name` of the directory `dir`, for a command
/// that needs the note to exist. `note_exists` says whether the file of the
/// note is there under `notes_dir`, at `note_file_path`; where it is not, the
/// result is the failure to report for `command`, which names the note by its
/// directory and its name.
pub fn get_note_identifier(
    command: &str,
    notes_dir: &str,
    name: &str,
    dir: &str,
    note_exists: bool,
) -> (identified: Result<String, NoteNotFound>)
    ensures
        match identified {
            Ok(identifier) => note_exists && identifier@ == note_identifier(name@, dir@),
            Err(failure) => !note_exists && failure.command@ == command@ && failure.path@
                == note_identifier(name@, dir@),
        },
{
    let note_relative_path = join_path(dir, name);
    if note_exists {
        Ok(note_relative_path)
    } else {
        Err(NoteNotFound { command: String::from_str(command), path: note_relative_path })
    }
}

/// What is to be added to a note: the directory to make sure of, the file,
/// and the text to write at its end.
#[derive(Debug)]
pub struct NoteWrite {
    pub dir: String,
    pub path: String,
    pub text: String,
}

/// The end of a line.
pub const NEWLINE: char = '\n';

/// The write that adds `content` to the note `note_file_name` of the
/// directory `note_parent_dir`: the content as one line at the end of the
/// file, after whatever the note holds.
pub fn write_note(note_parent_dir: &str, note_file_name: &str, content: &str) -> (write: NoteWrite)
    ensures
        write.dir@ == note_parent_dir@,
        write.path@ == joined(note_parent_dir@, note_file_name@),
        write.text@ == content@.push(NEWLINE),
{
    proof {
        reveal_strlit("\n");
    }
    let mut text = String::from_str(content);
    text.append("\n");
    assert(text@ =~= content@.push(NEWLINE));
    NoteWrite {
        dir: String::from_str(note_parent_dir),
        path: join_path(note_parent_dir, note_file_name),
        text,
    }
}

/// A note to be shown: the file to read, and the line that names the note
/// above its content.
#[derive(Debug)]
pub struct Rendering {
    pub path: String,
    pub header: String,
}

/// What marks the end of the line that names a note.
pub const HEADER_END: char = ':';

/// How the note `note_identifier` is shown: its content, read from its file
/// under `notes_dir`, below a line with the identifier and a colon.
pub fn write_as_markdown(notes_dir: &str, note_identifier: &str) -> (rendering: Rendering)
    ensures
        rendering.path@ == joined(notes_dir@, note_identifier@),
        rendering.header@ == note_identifier@.push(HEADER_END),
{
    proof {
        reveal_strlit(":");
    }
    let mut header = String::from_str(note_identifier);
    header.append(":");
    assert(header@ =~= note_identifier@.push(HEADER_END));
    Rendering { path: join_path(notes_dir, note_identifier), header }
}

} // verus!
