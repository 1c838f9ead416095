//! Adding a line to a note.

use crate::config::Config;
use crate::notes::{resolve_dir, resolved_dir, write_note, NoteWrite, NEWLINE};
use crate::paths::{join_path, joined};
use crate::run::Run;
use vstd::prelude::*;
use vstd::string::*;

verus! {

/// Adds a message to the end of a note.
#[derive(Debug)]
pub struct AddCommand {
    /// The name of the note.
    pub name: String,
    /// The content to be added to the end of the note.
    pub message: String,
    /// The note directory; the default directory where none is given.
    pub dir: Option<String>,
}

impl Run for AddCommand {
    type Observed = ();

    type Outcome = NoteWrite;

    /// The write that adds the message, as one line, to the note in its
    /// directory under the notes directory.
    fn run(&self, config: &Config, observed: ()) -> (write: NoteWrite)
        ensures
            write.dir@ == joined(config.notes_dir@, resolved_dir(self.dir)),
            write.path@ == joined(write.dir@, self.name@),
            write.text@ == self.message@.push(NEWLINE),
    {
        let dir = resolve_dir(&self.dir);
        let note_parent_dir = join_path(config.notes_dir.as_str(), dir.as_str());
        write_note(note_parent_dir.as_str(), self.name.as_str(), self.message.as_str())
    }
}

} // verus!
