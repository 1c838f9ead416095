use gnotes::config::{config_file_path, load_config, Config, ConfigError, ExternalConfig};
use gnotes::paths::join_path;

const HOME_DIR: &str = "/tmp/gnotes_config_test";

fn text_setting(table: &toml::Table, key: &str) -> Result<Option<String>, ()> {
    match table.get(key) {
        None => Ok(None),
        Some(value) => match value.as_str() {
            Some(text) => Ok(Some(String::from(text))),
            None => Err(()),
        },
    }
}

fn switch_setting(table: &toml::Table, key: &str) -> Result<Option<bool>, ()> {
    match table.get(key) {
        None => Ok(None),
        Some(value) => match value.as_bool() {
            Some(on) => Ok(Some(on)),
            None => Err(()),
        },
    }
}

fn settings_of(table: &toml::Table) -> Result<ExternalConfig, ()> {
    Ok(ExternalConfig {
        notes_dir: text_setting(table, "notes_dir")?,
        auto_save: switch_setting(table, "auto_save")?,
        repository: text_setting(table, "repository")?,
        ssh_file_path: text_setting(table, "ssh_file_path")?,
    })
}

fn config_file(content: &str) -> Option<ExternalConfig> {
    let table = toml::from_str::<toml::Table>(content).ok()?;
    settings_of(&table).ok()
}

fn no_config_file() -> Option<ExternalConfig> {
    None
}

fn no_env() -> Option<ExternalConfig> {
    Some(ExternalConfig::default())
}

fn env_var(key: &str, value: &str) -> Option<ExternalConfig> {
    let mut config = ExternalConfig::default();
    match key {
        "GNOTES_NOTES_DIR" => config.notes_dir = Some(String::from(value)),
        "GNOTES_AUTO_SAVE" => config.auto_save = Some(value.parse().ok()?),
        "GNOTES_REPOSITORY" => config.repository = Some(String::from(value)),
        "GNOTES_SSH_FILE_PATH" => config.ssh_file_path = Some(String::from(value)),
        _ => {}
    }
    Some(config)
}

fn loaded(env: Option<ExternalConfig>, file: Option<ExternalConfig>) -> Config {
    match load_config(HOME_DIR, env, file) {
        Ok(config) => config,
        Err(error) => panic!("Couldn't load config: {}", error.message()),
    }
}

#[test]
fn test_notes_dir_default() {
    let config = loaded(no_env(), no_config_file());

    assert_eq!(config.notes_dir, join_path(HOME_DIR, ".gnotes"));
}

#[test]
fn test_auto_save_default() {
    let config = loaded(no_env(), no_config_file());

    assert_eq!(config.auto_save, false);
}

#[test]
fn test_repository_default() {
    let config = loaded(no_env(), no_config_file());

    assert_eq!(config.repository, None);
}

#[test]
fn test_ssh_file_path_default() {
    let config = loaded(no_env(), no_config_file());

    assert_eq!(
        config.ssh_file_path,
        join_path(join_path(HOME_DIR, ".ssh").as_str(), "id_rsa")
    );
}

#[test]
fn test_notes_dir_from_config_file() {
    let notes_dir = join_path(HOME_DIR, "custom-notes-dir");

    let file = config_file(&format!("notes_dir = \"{}\"", notes_dir));

    let config = loaded(no_env(), file);

    assert_eq!(config.notes_dir, notes_dir);
}

#[test]
fn test_auto_save_from_config_file() {
    let file = config_file("auto_save = true\nrepository = \"something\"");

    let config = loaded(no_env(), file);

    assert!(config.auto_save);
}

#[test]
fn test_repository_from_config_file() {
    let file = config_file("repository = \"abc\"");

    let config = loaded(no_env(), file);

    assert_eq!(config.repository, Some(String::from("abc")));
}

#[test]
fn test_ssh_file_path_from_config_file() {
    let ssh_file_path = join_path(join_path(HOME_DIR, "custom-ssh-dir").as_str(), "some_id_rsa");

    let file = config_file(&format!("ssh_file_path = \"{}\"", ssh_file_path));

    let config = loaded(no_env(), file);

    assert_eq!(config.ssh_file_path, ssh_file_path);
}

#[test]
fn test_notes_dir_from_env() {
    let notes_dir = join_path(HOME_DIR, "custom-notes-dir");

    let file = config_file("notes_dir = \"whatever\"");

    let config = loaded(env_var("GNOTES_NOTES_DIR", notes_dir.as_str()), file);

    assert_eq!(config.notes_dir, notes_dir);
}

#[test]
fn test_auto_save_from_env() {
    let file = config_file("auto_save = false\nrepository = \"something\"");

    let config = loaded(env_var("GNOTES_AUTO_SAVE", "true"), file);

    assert!(config.auto_save);
}

#[test]
fn test_repository_from_env() {
    let file = config_file("repository = \"whatever\"");

    let config = loaded(env_var("GNOTES_REPOSITORY", "abc"), file);

    assert_eq!(config.repository, Some(String::from("abc")));
}

#[test]
fn test_ssh_file_path_from_env() {
    let ssh_file_path = join_path(HOME_DIR, "custom-ssh-dir");

    let file = config_file("ssh_file_path = \"whatever\"");

    let config = loaded(env_var("GNOTES_SSH_FILE_PATH", ssh_file_path.as_str()), file);

    assert_eq!(config.ssh_file_path, ssh_file_path);
}

#[test]
fn test_auto_save_on_without_repository() {
    let file = config_file("auto_save = true");

    assert!(matches!(
        load_config(HOME_DIR, no_env(), file),
        Err(ConfigError::InvalidConfig(_))
    ));
}

#[test]
fn invalid_config_says_what_is_missing() {
    let file = config_file("auto_save = true");

    let error = load_config(HOME_DIR, no_env(), file).unwrap_err();

    let ConfigError::InvalidConfig(reason) = &error;
    assert_eq!(reason, "repository is mandatory when auto_save is enabled");
    assert_eq!(
        error.message(),
        "invalid config: 'repository is mandatory when auto_save is enabled'"
    );
}

#[test]
fn auto_save_off_needs_no_repository() {
    let file = config_file("auto_save = false");

    let config = loaded(no_env(), file);

    assert!(!config.auto_save);
    assert_eq!(config.repository, None);
}

#[test]
fn unreadable_sources_set_nothing() {
    let config = loaded(None, config_file("notes_dir = 3"));

    assert_eq!(config.notes_dir, join_path(HOME_DIR, ".gnotes"));
    assert_eq!(config.auto_save, false);
}

#[test]
fn auto_save_of_the_environment_goes_before_the_file() {
    let file = config_file("auto_save = true\nrepository = \"something\"");

    let config = loaded(env_var("GNOTES_AUTO_SAVE", "false"), file);

    assert!(!config.auto_save);
    assert_eq!(config.repository, Some(String::from("something")));
}

#[test]
fn merge_takes_the_first_setting_that_is_there() {
    let first = ExternalConfig {
        notes_dir: Some(String::from("first")),
        auto_save: None,
        repository: None,
        ssh_file_path: Some(String::from("key")),
    };
    let second = ExternalConfig {
        notes_dir: Some(String::from("second")),
        auto_save: Some(true),
        repository: None,
        ssh_file_path: None,
    };

    let both = first.merge(second);

    assert_eq!(both.notes_dir, Some(String::from("first")));
    assert_eq!(both.auto_save, Some(true));
    assert_eq!(both.repository, None);
    assert_eq!(both.ssh_file_path, Some(String::from("key")));
}

#[test]
fn default_sets_nothing() {
    let config = ExternalConfig::default();

    assert_eq!(config.notes_dir, None);
    assert_eq!(config.auto_save, None);
    assert_eq!(config.repository, None);
    assert_eq!(config.ssh_file_path, None);
}

#[test]
fn config_file_lies_in_the_home_directory() {
    assert_eq!(config_file_path(HOME_DIR), "/tmp/gnotes_config_test/.gnotes.toml");
}
