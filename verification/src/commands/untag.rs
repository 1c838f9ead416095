//! Taking a tag from a note.

use crate::commands::{CommandError, NoteObserved};
use crate::config::Config;
use crate::index_file::{file_index, load_tags, TagsError};
use crate::model::{index_valid, untagged};
use crate::notes::{get_note_identifier, note_identifier, resolve_dir, resolved_dir};
use crate::run::Run;
use crate::tags::Tags;
use crate::text::{as_text, content_of};
use vstd::prelude::*;
use vstd::string::*;

verus! {

/// Takes a tag from a note.
#[derive(Debug)]
pub struct UntagCommand {
    /// The name of the note.
    pub name: String,
    /// The tag to be removed.
    pub tag: String,
    /// The note directory; the default directory where none is given.
    pub dir: Option<String>,
}

impl Run for UntagCommand {
    type Observed = NoteObserved;

    type Outcome = Result<Tags, CommandError>;

    /// The tag index to store: the one that the file holds, without the tag
    /// on the note. Where the note does not bear the tag, the index is that
    /// of the file. A note that does not exist is reported, and so is a tag
    /// index file that cannot be read.
    fn run(&self, config: &Config, observed: NoteObserved) -> (outcome: Result<Tags, CommandError>)
        ensures
            match outcome {
                Ok(tags) => observed.note_exists && match file_index(
                    content_of(observed.tags_file),
                ) {
                    Some(index) => tags@ == untagged(
                        index,
                        self.tag@,
                        note_identifier(self.name@, resolved_dir(self.dir)),
                    ) && index_valid(tags@),
                    None => false,
                },
                Err(CommandError::NoteNotFound(failure)) => !observed.note_exists
                    && failure.command@ == "untag"@ && failure.path@ == note_identifier(
                    self.name@,
                    resolved_dir(self.dir),
                ),
                Err(CommandError::Tags(TagsError::Malformed(_))) => observed.note_exists
                    && file_index(content_of(observed.tags_file)) is None,
                Err(_) => false,
            },
    {
        let dir = resolve_dir(&self.dir);
        let note_identifier = match get_note_identifier(
            "untag",
            config.notes_dir.as_str(),
            self.name.as_str(),
            dir.as_str(),
            observed.note_exists,
        ) {
            Ok(identifier) => identifier,
            Err(failure) => {
                return Err(CommandError::NoteNotFound(failure));
            },
        };
        let mut tags = match load_tags(as_text(&observed.tags_file)) {
            Ok(tags) => tags,
            Err(error) => {
                return Err(CommandError::Tags(error));
            },
        };
        tags.remove_tag_from_note(self.tag.as_str(), note_identifier.as_str());
        Ok(tags)
    }
}

} // verus!
