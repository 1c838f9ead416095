use gnotes::commands::{CommandError, ShowCommand};
use gnotes::config::Config;
use gnotes::notes::Rendering;
use gnotes::paths::join_path;
use gnotes::run::Run;

const NOTES_DIR: &str = "/tmp/gnotes_test";
const DEFAULT_NOTE_FILE_NAME: &str = "chores";

fn config() -> Config {
    Config {
        notes_dir: String::from(NOTES_DIR),
        auto_save: false,
        repository: None,
        ssh_file_path: String::from("/tmp/gnotes_home/id_rsa"),
    }
}

fn show(name: &str, dir: Option<&str>, note_exists: bool) -> Result<Rendering, CommandError> {
    let command = ShowCommand { name: String::from(name), dir: dir.map(String::from) };
    command.run(&config(), note_exists)
}

/// What the tool writes to its standard output for a note with this content.
fn stdout(rendering: &Rendering, content: &str) -> String {
    format!("{}\n{}", rendering.header, content)
}

#[test]
fn show_test_test_show_note() {
    let rendering = show(DEFAULT_NOTE_FILE_NAME, None, true).unwrap();

    assert_eq!(rendering.path, "/tmp/gnotes_test/notes/chores");
    let stdout = stdout(&rendering, "hello\n");
    assert!(stdout.contains("notes/chores:\n"));
    assert!(stdout.contains("hello"));
}

#[test]
fn show_test_test_show_note_custom_dir() {
    let rendering = show(DEFAULT_NOTE_FILE_NAME, Some("custom"), true).unwrap();

    assert_eq!(rendering.path, "/tmp/gnotes_test/custom/chores");
    let stdout = stdout(&rendering, "hello\n");
    assert!(stdout.contains("custom/chores:\n"));
    assert!(stdout.contains("hello"));
}

fn show_note_does_not_exist() {
    let note = join_path("notes", "chores");

    let error = show(DEFAULT_NOTE_FILE_NAME, None, false).unwrap_err();

    assert_eq!(error.diagnostic(), Some(format!("show failed: file '{}' not found", note)));
    assert!(matches!(error, CommandError::NoteNotFound(_)));
}

#[test]
fn show_test_test_show_note_does_not_exist() {
    show_note_does_not_exist()
}

#[test]
fn show_note_test_test_show_note_does_not_exist() {
    show_note_does_not_exist()
}
