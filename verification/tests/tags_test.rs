use gnotes::index_file::{load_tags, tags_file_path, tags_file_write, update_tags, TagsError};
use gnotes::tags::Tags;
use std::collections::{HashMap, HashSet};

fn set_of(notes: &[&str]) -> HashSet<String> {
    notes.iter().map(|note| String::from(*note)).collect()
}

fn map_of(entries: &[(&str, &[&str])]) -> HashMap<String, HashSet<String>> {
    entries.iter().map(|(tag, notes)| (String::from(*tag), set_of(notes))).collect()
}

fn as_map(tags: &Tags) -> HashMap<String, HashSet<String>> {
    let entries = tags.to_entries();
    let map: HashMap<String, HashSet<String>> = entries
        .iter()
        .map(|(tag, notes)| (tag.clone(), notes.iter().cloned().collect()))
        .collect();
    assert_eq!(map.len(), entries.len());
    for (tag, notes) in &entries {
        assert!(!notes.is_empty());
        assert_eq!(map[tag].len(), notes.len());
    }
    map
}

fn index_of(entries: &[(&str, &[&str])]) -> Tags {
    let mut tags = Tags::new();
    for (tag, notes) in entries {
        for note in notes.iter() {
            tags.add_tag(tag, note);
        }
    }
    tags
}

#[test]
fn new_index_has_no_tags() {
    let tags = Tags::new();

    assert_eq!(tags.len(), 0);
    assert!(tags.to_entries().is_empty());
    assert!(tags.notes_with_tag("x").is_empty());
}

#[test]
fn add_tag_to_an_unknown_tag_makes_a_set_of_one() {
    let mut tags = Tags::new();

    tags.add_tag("x", "n");

    assert_eq!(as_map(&tags), map_of(&[("x", &["n"])]));
    assert_eq!(tags.len(), 1);
    assert!(tags.is_tagged("x", "n"));
    assert!(!tags.is_tagged("x", "m"));
    assert!(!tags.is_tagged("y", "n"));
}

#[test]
fn add_tag_to_a_known_tag_adds_the_note() {
    let mut tags = index_of(&[("x", &["n"])]);

    tags.add_tag("x", "m");

    assert_eq!(as_map(&tags), map_of(&[("x", &["n", "m"])]));
    assert_eq!(tags.notes_with_tag("x"), vec![String::from("n"), String::from("m")]);
}

#[test]
fn add_tag_twice_lists_the_note_once() {
    let mut tags = Tags::new();

    tags.add_tag("x", "n");
    tags.add_tag("x", "n");

    assert_eq!(tags.notes_with_tag("x"), vec![String::from("n")]);
    assert_eq!(as_map(&tags), map_of(&[("x", &["n"])]));
}

#[test]
fn add_tag_accepts_an_empty_tag() {
    let mut tags = Tags::new();

    tags.add_tag("", "n");

    assert_eq!(as_map(&tags), map_of(&[("", &["n"])]));
}

#[test]
fn add_tag_then_remove_forgets_the_tag() {
    let mut tags = index_of(&[("other", &["m"])]);

    tags.add_tag("x", "n");
    tags.remove_tag_from_note("x", "n");

    assert_eq!(as_map(&tags), map_of(&[("other", &["m"])]));
    assert!(tags.notes_with_tag("x").is_empty());
}

#[test]
fn add_tag_then_remove_keeps_a_tag_that_another_note_bears() {
    let mut tags = index_of(&[("x", &["m"])]);

    tags.add_tag("x", "n");
    tags.remove_tag_from_note("x", "n");

    assert_eq!(as_map(&tags), map_of(&[("x", &["m"])]));
}

#[test]
fn remove_tag_from_one_of_two_notes_leaves_the_other() {
    let mut tags = index_of(&[("t", &["i1", "i2"])]);

    tags.remove_tag_from_note("t", "i1");

    assert_eq!(as_map(&tags), map_of(&[("t", &["i2"])]));
}

#[test]
fn remove_tag_from_the_only_note_removes_the_tag() {
    let mut tags = index_of(&[("t", &["i1"]), ("u", &["i1"])]);

    tags.remove_tag_from_note("t", "i1");

    assert_eq!(as_map(&tags), map_of(&[("u", &["i1"])]));
    assert_eq!(tags.len(), 1);
}

#[test]
fn remove_tag_that_the_note_does_not_bear_changes_nothing() {
    let mut tags = index_of(&[("t", &["i1"])]);

    tags.remove_tag_from_note("t", "i2");
    tags.remove_tag_from_note("u", "i1");

    assert_eq!(as_map(&tags), map_of(&[("t", &["i1"])]));
}

#[test]
fn prune_identifier_takes_the_note_from_every_tag() {
    let tags = index_of(&[("a", &["i", "j"]), ("b", &["i"]), ("c", &["k"])]);

    let pruned = tags.prune_identifier("i");

    assert_eq!(as_map(&pruned), map_of(&[("a", &["j"]), ("c", &["k"])]));
    assert_eq!(as_map(&tags), map_of(&[("a", &["i", "j"]), ("b", &["i"]), ("c", &["k"])]));
}

#[test]
fn prune_identifier_that_no_tag_knows_changes_nothing() {
    let tags = index_of(&[("a", &["i", "j"]), ("c", &["k"])]);

    let pruned = tags.prune_identifier("z");

    assert_eq!(as_map(&pruned), as_map(&tags));
}

#[test]
fn prune_identifier_of_an_empty_index_is_empty() {
    let pruned = Tags::new().prune_identifier("i");

    assert_eq!(pruned.len(), 0);
}

#[test]
fn notes_with_tag_lists_in_the_order_of_tagging() {
    let tags = index_of(&[("t", &["b", "a", "c"])]);

    assert_eq!(
        tags.notes_with_tag("t"),
        vec![String::from("b"), String::from("a"), String::from("c")]
    );
}

#[test]
fn to_entries_lists_each_tag_once() {
    let tags = index_of(&[("a", &["i", "j"]), ("b", &["i"])]);

    let entries = tags.to_entries();

    assert_eq!(
        entries,
        vec![
            (String::from("a"), vec![String::from("i"), String::from("j")]),
            (String::from("b"), vec![String::from("i")]),
        ]
    );
}

#[test]
fn from_entries_counts_a_note_once_and_drops_empty_tags() {
    let entries = vec![
        (String::from("a"), vec![String::from("i"), String::from("i"), String::from("j")]),
        (String::from("b"), vec![]),
        (String::from("a"), vec![String::from("k")]),
    ];

    let tags = Tags::from_entries(&entries);

    assert_eq!(as_map(&tags), map_of(&[("a", &["i", "j", "k"])]));
}

#[test]
fn from_entries_of_to_entries_is_the_same_index() {
    let tags = index_of(&[("a", &["i", "j"]), ("b", &["i"]), ("c", &["k"])]);

    let again = Tags::from_entries(&tags.to_entries());

    assert_eq!(as_map(&again), as_map(&tags));
}

#[test]
fn load_tags_without_a_file_is_an_empty_index() {
    let tags = load_tags(None).unwrap();

    assert_eq!(tags.len(), 0);
}

#[test]
fn load_tags_reads_an_object_of_arrays() {
    let text = r#"{"tag1":["notes/chores","notes/reminders"],"tag2":["notes/chores"]}"#;

    let tags = load_tags(Some(text)).unwrap();

    assert_eq!(
        as_map(&tags),
        map_of(&[("tag1", &["notes/chores", "notes/reminders"]), ("tag2", &["notes/chores"])])
    );
}

#[test]
fn load_tags_reads_an_empty_object() {
    let tags = load_tags(Some("{}")).unwrap();

    assert_eq!(tags.len(), 0);
}

#[test]
fn load_tags_counts_a_repeated_note_once() {
    let tags = load_tags(Some(r#"{"tag":["notes/chores","notes/chores"]}"#)).unwrap();

    assert_eq!(tags.notes_with_tag("tag"), vec![String::from("notes/chores")]);
}

#[test]
fn load_tags_leaves_out_a_tag_without_notes() {
    let tags = load_tags(Some(r#"{"tag":[],"other":["n"]}"#)).unwrap();

    assert_eq!(as_map(&tags), map_of(&[("other", &["n"])]));
}

#[test]
fn load_tags_refuses_malformed_text() {
    assert!(matches!(load_tags(Some("{\"tag\": [")), Err(TagsError::Malformed(_))));
    assert!(matches!(load_tags(Some("")), Err(TagsError::Malformed(_))));
    assert!(matches!(load_tags(Some("not json")), Err(TagsError::Malformed(_))));
}

#[test]
fn load_tags_refuses_another_shape() {
    assert!(matches!(load_tags(Some("[]")), Err(TagsError::Malformed(_))));
    assert!(matches!(load_tags(Some(r#"{"tag":"notes/chores"}"#)), Err(TagsError::Malformed(_))));
    assert!(matches!(load_tags(Some(r#"{"tag":[1,2]}"#)), Err(TagsError::Malformed(_))));
}

#[test]
fn tags_file_path_is_fixed() {
    assert_eq!(tags_file_path("/home/me/.gnotes"), "/home/me/.gnotes/.tags");
}

#[test]
fn update_tags_writes_the_whole_index_as_json() {
    let tags = index_of(&[("tag1", &["notes/chores"])]);

    let write = update_tags("/home/me/.gnotes", &tags).unwrap();

    assert_eq!(write.path, "/home/me/.gnotes/.tags");
    assert_eq!(write.content, r#"{"tag1":["notes/chores"]}"#);
}

#[test]
fn update_tags_of_an_empty_index_writes_an_empty_object() {
    let write = update_tags("/home/me/.gnotes", &Tags::new()).unwrap();

    assert_eq!(write.content, "{}");
}

#[test]
fn update_tags_then_load_tags_gives_the_same_index() {
    let tags = index_of(&[
        ("tag1", &["notes/chores", "notes/reminders"]),
        ("tag2", &["notes/chores"]),
        ("with \"quotes\" and \\", &["custom/été", "a\nb"]),
        ("", &[""]),
    ]);

    let write = update_tags("/home/me/.gnotes", &tags).unwrap();
    let loaded = load_tags(Some(write.content.as_str())).unwrap();

    assert_eq!(as_map(&loaded), as_map(&tags));
}

#[test]
fn indexes_are_equal_whatever_the_order() {
    let first = index_of(&[("a", &["i", "j"]), ("b", &["k"])]);
    let second = index_of(&[("b", &["k"]), ("a", &["j", "i"])]);

    assert_eq!(first, second);
    assert_eq!(second, first);
    assert_eq!(Tags::new(), Tags::new());
}

#[test]
fn indexes_differ_by_a_tag_or_a_note() {
    let index = index_of(&[("a", &["i", "j"]), ("b", &["k"])]);

    assert_ne!(index, index_of(&[("a", &["i", "j"])]));
    assert_ne!(index, index_of(&[("a", &["i", "j"]), ("c", &["k"])]));
    assert_ne!(index, index_of(&[("a", &["i"]), ("b", &["k"])]));
    assert_ne!(index, index_of(&[("a", &["i", "x"]), ("b", &["k"])]));
    assert_ne!(index, index_of(&[("a", &["i", "j"]), ("b", &["k", "j"])]));
    assert_ne!(index, Tags::new());
}

#[test]
fn update_tags_then_load_tags_is_equal() {
    let tags = index_of(&[("tag1", &["notes/chores", "notes/reminders"]), ("tag2", &["notes/chores"])]);

    let write = update_tags("/home/me/.gnotes", &tags).unwrap();
    let loaded = load_tags(Some(write.content.as_str())).unwrap();

    assert_eq!(loaded, tags);
}

#[test]
fn update_tags_then_load_tags_of_an_empty_index() {
    let write = update_tags("/home/me/.gnotes", &Tags::new()).unwrap();
    let loaded = load_tags(Some(write.content.as_str())).unwrap();

    assert_eq!(loaded.len(), 0);
}

#[test]
fn tags_file_write_hands_on_a_text_that_lists_the_index() {
    let tags = index_of(&[("a", &["i", "j"])]);
    let text = String::from(r#" { "a" : [ "j", "i", "j" ] } "#);

    let write = tags_file_write("/home/me/.gnotes", &tags, Ok(text.clone())).unwrap();

    assert_eq!(write.path, "/home/me/.gnotes/.tags");
    assert_eq!(write.content, text);
}

#[test]
fn tags_file_write_refuses_a_text_with_a_tag_without_notes() {
    let tags = index_of(&[("a", &["i", "j"])]);
    let text = String::from(r#"{"a":["i","j"],"b":[]}"#);

    let write = tags_file_write("/home/me/.gnotes", &tags, Ok(text));

    assert!(matches!(write, Err(TagsError::NotReadBack)));
}

#[test]
fn is_listed_by_its_own_entries() {
    let tags = index_of(&[("a", &["i", "j"]), ("b", &["k"])]);

    assert!(tags.is_listed_by(&tags.to_entries()));
    assert!(Tags::new().is_listed_by(&vec![]));
}

#[test]
fn is_listed_by_entries_in_another_order_or_with_repeats() {
    let tags = index_of(&[("a", &["i", "j"]), ("b", &["k"])]);
    let entries = vec![
        (String::from("b"), vec![String::from("k"), String::from("k")]),
        (String::from("a"), vec![String::from("j")]),
        (String::from("a"), vec![String::from("i")]),
    ];

    assert!(tags.is_listed_by(&entries));
}

#[test]
fn is_not_listed_by_entries_that_name_a_tag_without_notes() {
    let tags = index_of(&[("a", &["i"])]);
    let entries =
        vec![(String::from("a"), vec![String::from("i")]), (String::from("b"), vec![])];

    assert!(!tags.is_listed_by(&entries));
    assert!(!Tags::new().is_listed_by(&vec![(String::from("b"), vec![])]));
}

#[test]
fn is_listed_by_entries_that_name_a_tag_with_and_without_notes() {
    let tags = index_of(&[("a", &["i"])]);
    let entries = vec![(String::from("a"), vec![]), (String::from("a"), vec![String::from("i")])];

    assert!(tags.is_listed_by(&entries));
}

#[test]
fn is_not_listed_by_other_entries() {
    let tags = index_of(&[("a", &["i", "j"])]);

    assert!(!tags.is_listed_by(&vec![(String::from("a"), vec![String::from("i")])]));
    assert!(!tags.is_listed_by(&vec![]));
    assert!(!tags.is_listed_by(&vec![
        (String::from("a"), vec![String::from("i"), String::from("j")]),
        (String::from("b"), vec![String::from("i")]),
    ]));
}

#[test]
fn tags_file_write_of_an_empty_index() {
    let write = tags_file_write("/home/me/.gnotes", &Tags::new(), Ok(String::from("{}"))).unwrap();

    assert_eq!(write.content, "{}");
}

#[test]
fn tags_file_write_refuses_a_text_that_reads_back_as_another_index() {
    let tags = index_of(&[("a", &["i", "j"])]);

    let missing = tags_file_write("/home/me/.gnotes", &tags, Ok(String::from(r#"{"a":["i"]}"#)));
    let empty = tags_file_write("/home/me/.gnotes", &tags, Ok(String::from("{}")));
    let more = tags_file_write(
        "/home/me/.gnotes",
        &tags,
        Ok(String::from(r#"{"a":["i","j"],"b":["i"]}"#)),
    );

    assert!(matches!(missing, Err(TagsError::NotReadBack)));
    assert!(matches!(empty, Err(TagsError::NotReadBack)));
    assert!(matches!(more, Err(TagsError::NotReadBack)));
}

#[test]
fn tags_file_write_refuses_a_text_that_does_not_read_back() {
    let tags = index_of(&[("a", &["i", "j"])]);

    let write = tags_file_write("/home/me/.gnotes", &tags, Ok(String::from(r#"{"a":["i","j"]"#)));

    assert!(matches!(write, Err(TagsError::NotReadBack)));
}

#[test]
fn tags_file_write_hands_on_a_failure() {
    let failure = serde_json::from_str::<bool>("x").unwrap_err();

    let write = tags_file_write("/home/me/.gnotes", &Tags::new(), Err(failure));

    assert!(matches!(write, Err(TagsError::NotWritten(_))));
}
