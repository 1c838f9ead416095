//! Showing a note.

use crate::commands::CommandError;
use crate::config::Config;
use crate::notes::{
    get_note_identifier, note_identifier, resolve_dir, resolved_dir, write_as_markdown,
    Rendering, HEADER_END,
};
use crate::paths::joined;
use crate::run::Run;
use vstd::prelude::*;
use vstd::string::*;

verus! {

/// Shows the content of a note.
#[derive(Debug)]
pub struct ShowCommand {
    /// The name of the note.
    pub name: String,
    /// The note directory; the default directory where none is given.
    pub dir: Option<String>,
}

impl Run for ShowCommand {
    /// Whether the file of the note exists.
    type Observed = bool;

    type Outcome = Result<Rendering, CommandError>;

    /// How the note is shown: its content below a line that names it. A note
    /// that does not exist is reported.
    fn run(&self, config: &Config, observed: bool) -> (outcome: Result<Rendering, CommandError>)
        ensures
            match outcome {
                Ok(rendering) => {
                    let identifier = note_identifier(self.name@, resolved_dir(self.dir));
                    &&& observed
                    &&& rendering.path@ == joined(config.notes_dir@, identifier)
                    &&& rendering.header@ == identifier.push(HEADER_END)
                },
                Err(CommandError::NoteNotFound(failure)) => !observed && failure.command@ == "show"@
                    && failure.path@ == note_identifier(self.name@, resolved_dir(self.dir)),
                Err(_) => false,
            },
    {
        let dir = resolve_dir(&self.dir);
        match get_note_identifier(
            "show",
            config.notes_dir.as_str(),
            self.name.as_str(),
            dir.as_str(),
            observed,
        ) {
            Ok(identifier) => Ok(write_as_markdown(config.notes_dir.as_str(), identifier.as_str())),
            Err(failure) => Err(CommandError::NoteNotFound(failure)),
        }
    }
}

} // verus!
