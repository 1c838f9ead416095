//! The arguments of appending to a note.

use vstd::prelude::*;

verus! {

/// What the user gives to append a message to a note.
#[derive(Debug)]
pub struct AppendCommand {
    /// The name of the note.
    pub name: String,
    /// The content to be appended.
    pub message: String,
    /// The note directory; the default directory where none is given.
    pub dir: Option<String>,
}

} // verus!
