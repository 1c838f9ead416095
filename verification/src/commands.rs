//! The commands of the tool, and what they have in common.

pub mod add;
pub mod append;
pub mod clone;
pub mod edit;
pub mod list;
pub mod new;
pub mod remove;
pub mod save;
pub mod search;
pub mod show;
pub mod tag;
pub mod untag;

pub use add::AddCommand;
pub use append::AppendCommand;
pub use clone::CloneCommand;
pub use edit::EditCommand;
pub use list::ListCommand;
pub use new::NewCommand;
pub use remove::RemoveCommand;
pub use save::SaveCommand;
pub use search::SearchCommand;
pub use show::ShowCommand;
pub use tag::TagCommand;
pub use untag::UntagCommand;

use crate::index_file::TagsError;
use crate::notes::NoteNotFound;
use crate::text::{decimal, to_decimal};
use vstd::prelude::*;
use vstd::string::*;

verus! {

/// What is said of two options that exclude each other.
pub const CONFLICTING_OPTIONS: &'static str = "--dir can't be used with --all";

/// Why a command does not do what it was asked to.
#[derive(Debug)]
pub enum CommandError {
    /// The command names a note that does not exist.
    NoteNotFound(NoteNotFound),
    /// A directory was given together with the request to look at all of
    /// them.
    ConflictingOptions,
    /// The command, whose name this is, needs a repository, and none is
    /// configured.
    MissingRepository(String),
    /// The tag index could not be read.
    Tags(TagsError),
    /// A time lies outside the calendar.
    TimeOutOfRange,
}

impl CommandError {
    /// The text of `diagnostic`.
    pub open spec fn diagnostic_text(&self) -> Option<Seq<char>> {
        match self {
            CommandError::NoteNotFound(failure) => Some(failure.message_text()),
            CommandError::ConflictingOptions => Some(CONFLICTING_OPTIONS@),
            CommandError::MissingRepository(command) => Some(
                "Can't "@ + command@
                    + " without a repository. Please specify a repository in the config file."@,
            ),
            CommandError::Tags(_) => None,
            CommandError::TimeOutOfRange => None,
        }
    }

    /// What the user is told before the tool gives up with exit status 1:
    /// `None` for an error that is handed on as it is.
    pub fn diagnostic(&self) -> (text: Option<String>)
        ensures
            match text {
                Some(t) => self.diagnostic_text() == Some(t@),
                None => self.diagnostic_text() is None,
            },
    {
        match self {
            CommandError::NoteNotFound(failure) => Some(failure.message()),
            CommandError::ConflictingOptions => Some(String::from_str(CONFLICTING_OPTIONS)),
            CommandError::MissingRepository(command) => {
                let mut text = String::from_str("Can't ");
                text.append(command.as_str());
                text.append(" without a repository. Please specify a repository in the config file.");
                Some(text)
            },
            CommandError::Tags(_) => None,
            CommandError::TimeOutOfRange => None,
        }
    }
}

/// What begins the line that counts the notes that a command found.
pub const TOTAL: &'static str = "total ";

/// The line that counts the notes that a command found.
pub fn total_line(count: usize) -> (line: String)
    ensures
        line@ == TOTAL@ + decimal(count as nat),
{
    let mut line = String::from_str(TOTAL);
    line.append(to_decimal(count as u64).as_str());
    line
}

/// Whether the options of a command that looks at notes go together: a
/// directory cannot be given together with the request for all of them.
pub fn check_options(dir: &Option<String>, all: bool) -> (checked: Result<(), CommandError>)
    ensures
        match checked {
            Ok(_) => !(*dir is Some && all),
            Err(CommandError::ConflictingOptions) => *dir is Some && all,
            Err(_) => false,
        },
{
    if dir.is_some() && all {
        Err(CommandError::ConflictingOptions)
    } else {
        Ok(())
    }
}

/// What a command that works on the tags of a note is told of the note
/// store.
#[derive(Debug)]
pub struct NoteObserved {
    /// Whether the file of the note exists.
    pub note_exists: bool,
    /// The text of the tag index file, or `None` where there is no such file.
    /// It is not looked at where the note does not exist.
    pub tags_file: Option<String>,
}

/// A file to be opened in the user's editor, in a directory to make sure of
/// first.
#[derive(Debug)]
pub struct EditAction {
    pub dir: String,
    pub path: String,
}

} // verus!
