//! Cloning the notes from the repository.

use crate::commands::CommandError;
use crate::config::Config;
use crate::run::Run;
use vstd::prelude::*;
use vstd::string::*;

verus! {

/// Clones the configured repository into the notes directory.
#[derive(Debug)]
pub struct CloneCommand {}

/// A repository to be cloned: from where, with which SSH key, and to which
/// directory.
#[derive(Debug)]
pub struct CloneAction {
    pub repository: String,
    pub ssh_file_path: String,
    pub to: String,
}

impl Run for CloneCommand {
    type Observed = ();

    type Outcome = Result<CloneAction, CommandError>;

    /// The clone of the configured repository into the notes directory. A
    /// configuration without a repository is reported.
    fn run(&self, config: &Config, observed: ()) -> (outcome: Result<CloneAction, CommandError>)
        ensures
            match outcome {
                Ok(action) => config.repository == Some(action.repository)
                    && action.ssh_file_path == config.ssh_file_path && action.to
                    == config.notes_dir,
                Err(CommandError::MissingRepository(command)) => config.repository is None
                    && command@ == "clone"@,
                Err(_) => false,
            },
    {
        match &config.repository {
            Some(repository) => Ok(
                CloneAction {
                    repository: repository.clone(),
                    ssh_file_path: config.ssh_file_path.clone(),
                    to: config.notes_dir.clone(),
                },
            ),
            None => Err(CommandError::MissingRepository(String::from_str("clone"))),
        }
    }
}

} // verus!
