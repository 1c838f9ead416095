//! What all commands have in common.

use crate::config::Config;
use vstd::prelude::*;

verus! {

/// A command of the tool. A command does not touch the note store itself: it
/// is told what was found there and answers with what is to be done.
pub trait Run {
    /// What the command has to be told of the note store.
    type Observed;

    /// What the command asks for.
    type Outcome;

    /// Decides what is to be done.
    fn run(&self, config: &Config, observed: Self::Observed) -> Self::Outcome;
}

} // verus!
