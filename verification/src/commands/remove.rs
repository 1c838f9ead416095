//! Removing a note.

use crate::commands::NoteObserved;
use crate::config::Config;
use crate::index_file::{file_index, load_tags, TagsError};
use crate::model::{index_valid, pruned};
use crate::notes::{note_file_path, note_identifier, note_path, resolve_dir, resolved_dir};
use crate::paths::join_path;
use crate::run::Run;
use crate::tags::Tags;
use crate::text::{as_text, content_of};
use vstd::prelude::*;
use vstd::string::*;

verus! {

/// Removes a note, and with it its tags.
#[derive(Debug)]
pub struct RemoveCommand {
    /// The name of the note.
    pub name: String,
    /// The note directory; the default directory where none is given.
    pub dir: Option<String>,
}

/// The removal of a note: first the file of the note is deleted; then the tag
/// index is stored, or else, where the tag index file could not be read, the
/// error is reported.
#[derive(Debug)]
pub struct Removal {
    pub path: String,
    pub tags: Result<Tags, TagsError>,
}

impl Run for RemoveCommand {
    type Observed = NoteObserved;

    type Outcome = Option<Removal>;

    /// Nothing, where the note does not exist. Else the removal of the note:
    /// of its file, and of the note from every tag of the index that the tag
    /// index file holds.
    fn run(&self, config: &Config, observed: NoteObserved) -> (outcome: Option<Removal>)
        ensures
            match outcome {
                None => !observed.note_exists,
                Some(removal) => observed.note_exists && removal.path@ == note_path(
                    config.notes_dir@,
                    self.name@,
                    resolved_dir(self.dir),
                ) && match file_index(content_of(observed.tags_file)) {
                    Some(index) => removal.tags matches Ok(tags) && tags@ == pruned(
                        index,
                        note_identifier(self.name@, resolved_dir(self.dir)),
                    ) && index_valid(tags@),
                    None => removal.tags matches Err(TagsError::Malformed(_)),
                },
            },
    {
        if !observed.note_exists {
            return None;
        }
        let dir = resolve_dir(&self.dir);
        let path = note_file_path(config.notes_dir.as_str(), self.name.as_str(), dir.as_str());
        let note_identifier = join_path(dir.as_str(), self.name.as_str());
        let tags = match load_tags(as_text(&observed.tags_file)) {
            Ok(tags) => Ok(tags.prune_identifier(note_identifier.as_str())),
            Err(error) => Err(error),
        };
        Some(Removal { path, tags })
    }
}

} // verus!
