//! Giving tags to a note.

use crate::commands::{CommandError, NoteObserved};
use crate::config::Config;
use crate::index_file::{file_index, load_tags, TagsError};
use crate::listing::texts;
use crate::model::{index_valid, notes_of, tagged, TagMap};
use crate::notes::{get_note_identifier, note_identifier, resolve_dir, resolved_dir};
use crate::run::Run;
use crate::tags::Tags;
use crate::text::{as_text, content_of};
use vstd::prelude::*;
use vstd::string::*;

verus! {

/// Gives a note one or more tags.
#[derive(Debug)]
pub struct TagCommand {
    /// The name of the note.
    pub name: String,
    /// The tags to give.
    pub tags: Vec<String>,
    /// The note directory; the default directory where none is given.
    pub dir: Option<String>,
}

/// The index after `note` is given each of `tags`: these tags are in the
/// index and the note is among their notes; nothing else changes.
pub open spec fn tagged_with(index: TagMap, tags: Set<Seq<char>>, note: Seq<char>) -> TagMap {
    Map::new(
        |tag: Seq<char>| index.dom().contains(tag) || tags.contains(tag),
        |tag: Seq<char>|
            if tags.contains(tag) {
                notes_of(index, tag).insert(note)
            } else {
                index[tag]
            },
    )
}

/// Giving a note one more tag.
proof fn lemma_one_more_tag(index: TagMap, tags: Seq<Seq<char>>, i: int, note: Seq<char>)
    requires
        0 <= i < tags.len(),
    ensures
        tagged(tagged_with(index, tags.take(i).to_set(), note), tags[i], note) == tagged_with(
            index,
            tags.take(i + 1).to_set(),
            note,
        ),
{
    let shorter = tags.take(i);
    let longer = tags.take(i + 1);
    let before = shorter.to_set();
    let after = longer.to_set();
    assert(after =~= before.insert(tags[i])) by {
        assert forall|tag: Seq<char>| after.contains(tag) implies before.insert(tags[i]).contains(
            tag,
        ) by {
            let k = choose|k: int| 0 <= k < longer.len() && longer[k] == tag;
            if k < i {
                assert(shorter[k] == tag);
            }
        }
        assert forall|tag: Seq<char>| before.insert(tags[i]).contains(tag) implies after.contains(
            tag,
        ) by {
            if tag == tags[i] {
                assert(longer[i] == tag);
            } else {
                let k = choose|k: int| 0 <= k < shorter.len() && shorter[k] == tag;
                assert(longer[k] == tag);
            }
        }
    }
    let so_far = tagged_with(index, before, note);
    let next = tagged(so_far, tags[i], note);
    let wanted = tagged_with(index, after, note);
    assert forall|tag: Seq<char>| next.dom().contains(tag) implies next[tag] =~= wanted[tag] by {}
    assert(next =~= wanted);
}

impl Run for TagCommand {
    type Observed = NoteObserved;

    type Outcome = Result<Tags, CommandError>;

    /// The tag index to store: the one that the file holds, with the note
    /// under each of the tags. A note that does not exist is reported, and so
    /// is a tag index file that cannot be read.
    fn run(&self, config: &Config, observed: NoteObserved) -> (outcome: Result<Tags, CommandError>)
        ensures
            match outcome {
                Ok(tags) => observed.note_exists && match file_index(
                    content_of(observed.tags_file),
                ) {
                    Some(index) => tags@ == tagged_with(
                        index,
                        texts(self.tags@).to_set(),
                        note_identifier(self.name@, resolved_dir(self.dir)),
                    ) && index_valid(tags@),
                    None => false,
                },
                Err(CommandError::NoteNotFound(failure)) => !observed.note_exists
                    && failure.command@ == "tag"@ && failure.path@ == note_identifier(
                    self.name@,
                    resolved_dir(self.dir),
                ),
                Err(CommandError::Tags(TagsError::Malformed(_))) => observed.note_exists
                    && file_index(content_of(observed.tags_file)) is None,
                Err(_) => false,
            },
    {
        let dir = resolve_dir(&self.dir);
        let note_identifier = match get_note_identifier(
            "tag",
            config.notes_dir.as_str(),
            self.name.as_str(),
            dir.as_str(),
            observed.note_exists,
        ) {
            Ok(identifier) => identifier,
            Err(failure) => {
                return Err(CommandError::NoteNotFound(failure));
            },
        };
        let mut tags = match load_tags(as_text(&observed.tags_file)) {
            Ok(tags) => tags,
            Err(error) => {
                return Err(CommandError::Tags(error));
            },
        };
        let ghost index = tags@;
        let ghost names = texts(self.tags@);
        proof {
            assert(tagged_with(index, names.take(0).to_set(), note_identifier@) =~= index);
        }
        let mut i: usize = 0;
        while i < self.tags.len()
            invariant
                i <= self.tags@.len(),
                names == texts(self.tags@),
                tags@ == tagged_with(index, names.take(i as int).to_set(), note_identifier@),
                index_valid(tags@),
            decreases self.tags@.len() - i,
        {
            proof {
                lemma_one_more_tag(index, names, i as int, note_identifier@);
            }
            tags.add_tag(self.tags[i].as_str(), note_identifier.as_str());
            i += 1;
        }
        proof {
            assert(names.take(i as int) =~= names);
        }
        Ok(tags)
    }
}

} // verus!
