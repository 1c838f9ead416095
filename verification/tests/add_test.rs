use gnotes::commands::new::NewAction;
use gnotes::commands::{AddCommand, AppendCommand, EditCommand, NewCommand};
use gnotes::config::Config;
use gnotes::notes::write_note;
use gnotes::paths::join_path;
use gnotes::run::Run;
use std::collections::HashMap;

const NOTES_DIR: &str = "/tmp/gnotes_test";
const DEFAULT_NOTE_FILE_NAME: &str = "chores";

/// The notes directory as the test sees it: the content of each file.
struct Setup {
    files: HashMap<String, String>,
}

impl Setup {
    fn new() -> Self {
        Setup { files: HashMap::new() }
    }

    fn note_parent_dir(&self, dir: &str) -> String {
        join_path(NOTES_DIR, dir)
    }

    fn default_note_parent_dir(&self) -> String {
        self.note_parent_dir("notes")
    }

    fn note_path(&self, dir: &str) -> String {
        join_path(self.note_parent_dir(dir).as_str(), DEFAULT_NOTE_FILE_NAME)
    }

    fn default_note_path(&self) -> String {
        self.note_path("notes")
    }

    fn write_note(&mut self, parent_dir: &str, name: &str, content: &str) {
        let write = write_note(parent_dir, name, content);
        self.files.entry(write.path).or_default().push_str(&write.text);
    }

    fn add(&mut self, name: &str, message: &str, dir: Option<&str>) {
        let command = AddCommand {
            name: String::from(name),
            message: String::from(message),
            dir: dir.map(String::from),
        };
        let write = command.run(&config(), ());
        self.files.entry(write.path).or_default().push_str(&write.text);
    }

    fn new_note(&mut self, name: &str, message: &str, dir: Option<&str>) {
        let command = NewCommand {
            name: String::from(name),
            dir: dir.map(String::from),
            message: Some(String::from(message)),
        };
        match command.run(&config(), ()) {
            NewAction::Write(write) => {
                self.files.entry(write.path).or_default().push_str(&write.text)
            }
            NewAction::Edit(edit) => panic!("the editor is asked for {}", edit.path),
        }
    }
}

fn config() -> Config {
    Config {
        notes_dir: String::from(NOTES_DIR),
        auto_save: false,
        repository: None,
        ssh_file_path: String::from("/tmp/gnotes_home/id_rsa"),
    }
}

#[test]
fn test_add_to_new_note() {
    let mut setup = Setup::new();
    let expected_note_file_path = setup.default_note_path();

    setup.add(DEFAULT_NOTE_FILE_NAME, "do this and that", None);

    assert!(setup.files.contains_key(&expected_note_file_path));
    assert_eq!(setup.files[&expected_note_file_path], String::from("do this and that\n"));
}

#[test]
fn test_add_custom_dir() {
    let mut setup = Setup::new();
    let expected_note_file_path = setup.note_path("custom");

    setup.add(DEFAULT_NOTE_FILE_NAME, "do this and that", Some("custom"));

    assert!(setup.files.contains_key(&expected_note_file_path));
    assert_eq!(setup.files[&expected_note_file_path], String::from("do this and that\n"));
}

#[test]
fn test_add_to_existing_note() {
    let mut setup = Setup::new();
    let expected_note_file_path = setup.default_note_path();

    setup.write_note(&setup.default_note_parent_dir(), DEFAULT_NOTE_FILE_NAME, "hello");

    setup.add(DEFAULT_NOTE_FILE_NAME, "do this and that", None);

    assert_eq!(setup.files[&expected_note_file_path], String::from("hello\ndo this and that\n"));
}

#[test]
fn new_test_test_new_note_with_message() {
    let mut setup = Setup::new();
    let expected_note_file_path = setup.default_note_path();

    setup.new_note(DEFAULT_NOTE_FILE_NAME, "do this and that", None);

    assert!(setup.files.contains_key(&expected_note_file_path));
    assert_eq!(setup.files[&expected_note_file_path], String::from("do this and that\n"));
}

#[test]
fn new_test_test_new_note_custom_dir() {
    let mut setup = Setup::new();
    let expected_note_file_path = setup.note_path("custom");

    setup.new_note(DEFAULT_NOTE_FILE_NAME, "do this and that", Some("custom"));

    assert!(setup.files.contains_key(&expected_note_file_path));
    assert_eq!(setup.files[&expected_note_file_path], String::from("do this and that\n"));
}

#[test]
fn add_writes_a_line_to_the_note() {
    let command = AddCommand {
        name: String::from("chores"),
        message: String::from("do this and that"),
        dir: None,
    };

    let write = command.run(&config(), ());

    assert_eq!(write.dir, "/tmp/gnotes_test/notes");
    assert_eq!(write.path, "/tmp/gnotes_test/notes/chores");
    assert_eq!(write.text, "do this and that\n");
}

#[test]
fn add_to_a_custom_dir() {
    let command = AddCommand {
        name: String::from("chores"),
        message: String::from("do this and that"),
        dir: Some(String::from("custom")),
    };

    let write = command.run(&config(), ());

    assert_eq!(write.dir, "/tmp/gnotes_test/custom");
    assert_eq!(write.path, "/tmp/gnotes_test/custom/chores");
}

#[test]
fn append_holds_what_the_user_gives() {
    let command = AppendCommand {
        name: String::from("chores"),
        message: String::from("do this and that"),
        dir: Some(String::from("custom")),
    };

    assert_eq!(command.name, "chores");
    assert_eq!(command.message, "do this and that");
    assert_eq!(command.dir, Some(String::from("custom")));
}

#[test]
fn new_with_a_message_writes_it() {
    let command = NewCommand {
        name: String::from("chores"),
        dir: None,
        message: Some(String::from("do this and that")),
    };

    match command.run(&config(), ()) {
        NewAction::Write(write) => {
            assert_eq!(write.dir, "/tmp/gnotes_test/notes");
            assert_eq!(write.path, "/tmp/gnotes_test/notes/chores");
            assert_eq!(write.text, "do this and that\n");
        }
        NewAction::Edit(edit) => panic!("the editor is asked for {}", edit.path),
    }
}

#[test]
fn new_without_a_message_opens_the_editor() {
    let command =
        NewCommand { name: String::from("chores"), dir: Some(String::from("custom")), message: None };

    match command.run(&config(), ()) {
        NewAction::Edit(edit) => {
            assert_eq!(edit.dir, "/tmp/gnotes_test/custom");
            assert_eq!(edit.path, "/tmp/gnotes_test/custom/chores");
        }
        NewAction::Write(write) => panic!("{} is written", write.path),
    }
}

#[test]
fn edit_opens_the_note() {
    let command = EditCommand { name: String::from("chores"), dir: None };

    let edit = command.run(&config(), ());

    assert_eq!(edit.dir, "/tmp/gnotes_test/notes");
    assert_eq!(edit.path, "/tmp/gnotes_test/notes/chores");
}
