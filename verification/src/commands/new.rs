//! Starting a note.

use crate::commands::EditAction;
use crate::config::Config;
use crate::notes::{resolve_dir, resolved_dir, write_note, NoteWrite, NEWLINE};
use crate::paths::{join_path, joined};
use crate::run::Run;
use vstd::prelude::*;
use vstd::string::*;

verus! {

/// Starts a note: with a message, or else in the user's editor.
#[derive(Debug)]
pub struct NewCommand {
    /// The name of the note.
    pub name: String,
    /// The note directory; the default directory where none is given.
    pub dir: Option<String>,
    /// The first content of the note.
    pub message: Option<String>,
}

/// How a note is started.
#[derive(Debug)]
pub enum NewAction {
    /// A message is written to the note.
    Write(NoteWrite),
    /// The note is opened in the user's editor.
    Edit(EditAction),
}

impl Run for NewCommand {
    type Observed = ();

    type Outcome = NewAction;

    /// With a message: the write that adds it to the note as one line.
    /// Without: the note to open in the editor.
    fn run(&self, config: &Config, observed: ()) -> (action: NewAction)
        ensures
            match self.message {
                Some(message) => action matches NewAction::Write(write) && write.dir@ == joined(
                    config.notes_dir@,
                    resolved_dir(self.dir),
                ) && write.path@ == joined(write.dir@, self.name@) && write.text@
                    == message@.push(NEWLINE),
                None => action matches NewAction::Edit(edit) && edit.dir@ == joined(
                    config.notes_dir@,
                    resolved_dir(self.dir),
                ) && edit.path@ == joined(edit.dir@, self.name@),
            },
    {
        let dir = resolve_dir(&self.dir);
        let note_parent_dir = join_path(config.notes_dir.as_str(), dir.as_str());
        match &self.message {
            Some(message) => NewAction::Write(
                write_note(note_parent_dir.as_str(), self.name.as_str(), message.as_str()),
            ),
            None => {
                let note_file_path = join_path(note_parent_dir.as_str(), self.name.as_str());
                NewAction::Edit(EditAction { dir: note_parent_dir, path: note_file_path })
            },
        }
    }
}

} // verus!
