//! Saving the notes to the repository.

use crate::commands::CommandError;
use crate::config::Config;
use crate::format::{format_utc, now_seconds, utc_day, utc_text};
use crate::run::Run;
use vstd::prelude::*;
use vstd::string::*;

verus! {

/// Commits the notes and pushes them to the configured repository.
#[derive(Debug)]
pub struct SaveCommand {
    /// The message of the commit; one that tells the time where none is
    /// given.
    pub message: Option<String>,
}

/// How the time of a save is written.
pub const SAVE_TIME: &'static str = "%Y-%m-%d][%H:%M:%S";

/// What begins the message of a save for which none is given.
pub const SAVE_MESSAGE: &'static str = "gnotes manual save ";

/// A save: the notes directory is committed with the message and pushed to
/// the repository, with the SSH key.
#[derive(Debug)]
pub struct SaveAction {
    pub repository: String,
    pub notes_dir: String,
    pub ssh_file_path: String,
    pub message: String,
}

/// The message of a save at the time `now`: the given one, or one that tells
/// the time. There is none where no message is given and the time lies
/// outside the calendar.
pub open spec fn save_message(given: Option<String>, now: i64) -> Option<Seq<char>> {
    match given {
        Some(message) => Some(message@),
        None => match utc_text(now, SAVE_TIME@) {
            Some(time) => Some(SAVE_MESSAGE@ + time),
            None => None,
        },
    }
}

/// Whether `outcome` is what a save at the time `now` comes to: a time
/// outside the calendar is reported where the message needs it, then a
/// configuration without a repository; else the save goes to the configured
/// repository, from the notes directory and with the SSH key of the
/// configuration.
pub open spec fn saves(
    command: SaveCommand,
    config: Config,
    now: i64,
    outcome: Result<SaveAction, CommandError>,
) -> bool {
    match outcome {
        Ok(action) => {
            &&& save_message(command.message, now) == Some(action.message@)
            &&& config.repository matches Some(repository)
            &&& action.repository@ == repository@
            &&& action.notes_dir@ == config.notes_dir@
            &&& action.ssh_file_path@ == config.ssh_file_path@
        },
        Err(CommandError::TimeOutOfRange) => save_message(command.message, now) is None,
        Err(CommandError::MissingRepository(name)) => save_message(command.message, now) is Some
            && config.repository is None && name@ == "save"@,
        Err(_) => false,
    }
}

impl SaveCommand {
    /// What the save comes to at the time `now`.
    pub fn run_at(&self, config: &Config, now: i64) -> (outcome: Result<SaveAction, CommandError>)
        ensures
            saves(*self, *config, now, outcome),
    {
        let message = match &self.message {
            Some(message) => message.clone(),
            None => match format_utc(now, SAVE_TIME) {
                Some(time) => {
                    let mut message = String::from_str(SAVE_MESSAGE);
                    message.append(time.as_str());
                    message
                },
                None => {
                    return Err(CommandError::TimeOutOfRange);
                },
            },
        };
        match &config.repository {
            Some(repository) => Ok(
                SaveAction {
                    repository: repository.clone(),
                    notes_dir: config.notes_dir.clone(),
                    ssh_file_path: config.ssh_file_path.clone(),
                    message,
                },
            ),
            None => Err(CommandError::MissingRepository(String::from_str("save"))),
        }
    }
}

impl Run for SaveCommand {
    type Observed = ();

    type Outcome = Result<SaveAction, CommandError>;

    /// What the save comes to now, by the clock, which gives a time inside
    /// the calendar.
    fn run(&self, config: &Config, observed: ()) -> (outcome: Result<SaveAction, CommandError>)
        ensures
            exists|now: i64| utc_day(now) is Some && saves(*self, *config, now, outcome),
    {
        let now = now_seconds();
        let outcome = self.run_at(config, now);
        assert(utc_day(now) is Some && saves(*self, *config, now, outcome));
        outcome
    }
}

} // verus!
