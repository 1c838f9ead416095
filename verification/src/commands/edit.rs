//! Editing a note.

use crate::commands::EditAction;
use crate::config::Config;
use crate::notes::{resolve_dir, resolved_dir};
use crate::paths::{join_path, joined};
use crate::run::Run;
use vstd::prelude::*;
use vstd::string::*;

verus! {

/// Opens a note in the user's editor.
#[derive(Debug)]
pub struct EditCommand {
    /// The name of the note.
    pub name: String,
    /// The note directory; the default directory where none is given.
    pub dir: Option<String>,
}

impl Run for EditCommand {
    type Observed = ();

    type Outcome = EditAction;

    /// The note to open, in its directory under the notes directory.
    fn run(&self, config: &Config, observed: ()) -> (action: EditAction)
        ensures
            action.dir@ == joined(config.notes_dir@, resolved_dir(self.dir)),
            action.path@ == joined(action.dir@, self.name@),
    {
        let dir = resolve_dir(&self.dir);
        let note_parent_dir = join_path(config.notes_dir.as_str(), dir.as_str());
        let note_file_path = join_path(note_parent_dir.as_str(), self.name.as_str());
        EditAction { dir: note_parent_dir, path: note_file_path }
    }
}

} // verus!
