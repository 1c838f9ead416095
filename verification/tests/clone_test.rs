use gnotes::commands::{CloneCommand, CommandError};
use gnotes::config::Config;
use gnotes::run::Run;

fn config(repository: Option<&str>) -> Config {
    Config {
        notes_dir: String::from("/tmp/gnotes_test"),
        auto_save: false,
        repository: repository.map(String::from),
        ssh_file_path: String::from("/tmp/gnotes_home/id_rsa"),
    }
}

#[test]
fn test_clone_fails_without_repository() {
    let error = CloneCommand {}.run(&config(None), ()).unwrap_err();

    assert_eq!(
        error.diagnostic(),
        Some(String::from(
            "Can't clone without a repository. Please specify a repository in the config file."
        ))
    );
    assert!(matches!(error, CommandError::MissingRepository(_)));
}

#[test]
fn clone_goes_from_the_repository_to_the_notes_directory() {
    let action = CloneCommand {}.run(&config(Some("/tmp/gnotes_bare_repo")), ()).unwrap();

    assert_eq!(action.repository, "/tmp/gnotes_bare_repo");
    assert_eq!(action.to, "/tmp/gnotes_test");
    assert_eq!(action.ssh_file_path, "/tmp/gnotes_home/id_rsa");
}
