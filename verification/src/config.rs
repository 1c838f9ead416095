//! The configuration of the tool: where the notes are, whether and where they
//! are saved to a repository.

use crate::paths::{join_path, joined};
use vstd::prelude::*;
use vstd::string::*;

verus! {

/// The directory, under the home directory, that holds the notes when none
/// is configured.
pub const GNOTES_DIR_NAME: &'static str = ".gnotes";

/// The file, under the home directory, that holds the configuration.
pub const CONFIG_FILE_NAME: &'static str = ".gnotes.toml";

/// The directory, under the home directory, that holds the SSH keys.
pub const SSH_DIR_NAME: &'static str = ".ssh";

/// The SSH key that is used when none is configured.
pub const SSH_KEY_NAME: &'static str = "id_rsa";

/// What is wrong with a configuration that asks for saving without naming a
/// repository.
pub const REPOSITORY_MISSING: &'static str = "repository is mandatory when auto_save is enabled";

/// Why a configuration is refused.
#[derive(Debug)]
pub enum ConfigError {
    InvalidConfig(String),
}

impl ConfigError {
    /// The text of `message`.
    pub open spec fn message_text(&self) -> Seq<char> {
        match self {
            ConfigError::InvalidConfig(reason) => "invalid config: '"@ + reason@ + "'"@,
        }
    }

    /// What the user is told.
    pub fn message(&self) -> (text: String)
        ensures
            text@ == self.message_text(),
    {
        match self {
            ConfigError::InvalidConfig(reason) => {
                let mut text = String::from_str("invalid config: '");
                text.append(reason.as_str());
                text.append("'");
                text
            },
        }
    }
}

/// A configuration as one source gives it: every setting may be missing.
#[derive(Debug)]
pub struct ExternalConfig {
    pub notes_dir: Option<String>,
    pub auto_save: Option<bool>,
    pub repository: Option<String>,
    pub ssh_file_path: Option<String>,
}

impl Default for ExternalConfig {
    /// The configuration of a source that sets nothing.
    fn default() -> (config: Self)
        ensures
            config.notes_dir is None,
            config.auto_save is None,
            config.repository is None,
            config.ssh_file_path is None,
    {
        ExternalConfig { notes_dir: None, auto_save: None, repository: None, ssh_file_path: None }
    }
}

/// The first of two settings that is there.
pub open spec fn first_of<T>(first: Option<T>, second: Option<T>) -> Option<T> {
    match first {
        Some(_) => first,
        None => second,
    }
}

/// The first of two settings that is there.
fn either<T>(first: Option<T>, second: Option<T>) -> (chosen: Option<T>)
    ensures
        chosen == first_of(first, second),
{
    match first {
        Some(value) => Some(value),
        None => second,
    }
}

impl ExternalConfig {
    /// The configuration of two sources together: each setting is taken from
    /// `self` where it is there, else from `other`.
    pub open spec fn merged(self, other: ExternalConfig) -> ExternalConfig {
        ExternalConfig {
            notes_dir: first_of(self.notes_dir, other.notes_dir),
            auto_save: first_of(self.auto_save, other.auto_save),
            repository: first_of(self.repository, other.repository),
            ssh_file_path: first_of(self.ssh_file_path, other.ssh_file_path),
        }
    }

    /// Puts two configurations together: each setting is taken from `self`
    /// where it is there, else from `other`.
    pub fn merge(self, other: ExternalConfig) -> (both: ExternalConfig)
        ensures
            both == self.merged(other),
    {
        ExternalConfig {
            notes_dir: either(self.notes_dir, other.notes_dir),
            auto_save: either(self.auto_save, other.auto_save),
            repository: either(self.repository, other.repository),
            ssh_file_path: either(self.ssh_file_path, other.ssh_file_path),
        }
    }
}

/// The configuration that the commands work with.
#[derive(Debug)]
pub struct Config {
    pub notes_dir: String,
    pub auto_save: bool,
    pub repository: Option<String>,
    pub ssh_file_path: String,
}

/// What a source sets: nothing, where the source could not be read.
pub open spec fn source_config(source: Option<ExternalConfig>) -> ExternalConfig {
    match source {
        Some(config) => config,
        None => ExternalConfig {
            notes_dir: None,
            auto_save: None,
            repository: None,
            ssh_file_path: None,
        },
    }
}

/// The settings that the environment and the configuration file give
/// together: the environment goes first.
pub open spec fn settings(
    env_config: Option<ExternalConfig>,
    file_config: Option<ExternalConfig>,
) -> ExternalConfig {
    source_config(env_config).merged(source_config(file_config))
}

/// The notes directory of a home directory where none is configured.
pub open spec fn default_notes_dir(home_dir: Seq<char>) -> Seq<char> {
    joined(home_dir, GNOTES_DIR_NAME@)
}

/// The SSH key of a home directory where none is configured.
pub open spec fn default_ssh_file_path(home_dir: Seq<char>) -> Seq<char> {
    joined(joined(home_dir, SSH_DIR_NAME@), SSH_KEY_NAME@)
}

/// Whether settings ask for saving without naming a repository.
pub open spec fn saves_nowhere(settings: ExternalConfig) -> bool {
    settings.auto_save == Some(true) && settings.repository is None
}

/// The path of the configuration file of a home directory.
pub fn config_file_path(home_dir: &str) -> (path: String)
    ensures
        path@ == joined(home_dir@, CONFIG_FILE_NAME@),
{
    join_path(home_dir, CONFIG_FILE_NAME)
}

/// What a source sets.
fn source(config: Option<ExternalConfig>) -> (set: ExternalConfig)
    ensures
        set == source_config(config),
{
    match config {
        Some(config) => config,
        None => ExternalConfig::default(),
    }
}

/// The configuration for a home directory, from what the environment and the
/// configuration file set; `None` stands for a source that could not be read,
/// which sets nothing. A setting of the environment goes before one of the
/// file. The notes directory and the SSH key default to fixed places under
/// the home directory, and saving is off unless asked for. A configuration
/// that asks for saving and names no repository is refused.
pub fn load_config(
    home_dir: &str,
    env_config: Option<ExternalConfig>,
    file_config: Option<ExternalConfig>,
) -> (loaded: Result<Config, ConfigError>)
    ensures
        match loaded {
            Ok(config) => {
                let set = settings(env_config, file_config);
                &&& !saves_nowhere(set)
                &&& match set.notes_dir {
                    Some(dir) => config.notes_dir == dir,
                    None => config.notes_dir@ == default_notes_dir(home_dir@),
                }
                &&& config.auto_save == (set.auto_save == Some(true))
                &&& config.repository == set.repository
                &&& match set.ssh_file_path {
                    Some(path) => config.ssh_file_path == path,
                    None => config.ssh_file_path@ == default_ssh_file_path(home_dir@),
                }
            },
            Err(ConfigError::InvalidConfig(reason)) => {
                &&& saves_nowhere(settings(env_config, file_config))
                &&& reason@ == REPOSITORY_MISSING@
            },
        },
{
    let set = source(env_config).merge(source(file_config));
    let notes_dir = match set.notes_dir {
        Some(dir) => dir,
        None => join_path(home_dir, GNOTES_DIR_NAME),
    };
    let auto_save = match set.auto_save {
        Some(on) => on,
        None => false,
    };
    let ssh_file_path = match set.ssh_file_path {
        Some(path) => path,
        None => {
            let ssh_dir = join_path(home_dir, SSH_DIR_NAME);
            join_path(ssh_dir.as_str(), SSH_KEY_NAME)
        },
    };
    if auto_save && set.repository.is_none() {
        Err(ConfigError::InvalidConfig(String::from_str(REPOSITORY_MISSING)))
    } else {
        Ok(Config { notes_dir, auto_save, repository: set.repository, ssh_file_path })
    }
}

} // verus!
