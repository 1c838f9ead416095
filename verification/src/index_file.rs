//! The tag index as a file: a JSON object that gives each tag an array of
//! note identifiers, kept under a fixed name in the notes directory.

use crate::listing::{listed, listing_of, reading_back_what_was_written, without_empty};
use crate::model::{index_valid, TagMap};
use crate::paths::{join_path, joined};
use crate::tags::Tags;
use crate::text::text_of;
use std::collections::{HashMap, HashSet};
use vstd::prelude::*;
use vstd::string::*;

verus! {

/// The name of the file that holds the tag index.
pub const TAGS_FILE_NAME: &'static str = ".tags";

/// The error of `serde_json`'s functions.
#[verifier::external_type_specification]
#[verifier::external_body]
pub struct ExJsonError(serde_json::Error);

/// What `serde_json::from_str` reads from a text as a map from strings to
/// sets of strings: `None` where it reports an error.
pub uninterp spec fn json_tags(text: Seq<char>) -> Option<TagMap>;

/// Calls `serde_json::from_str` for a map from strings to sets of strings and
/// hands out what it read, tag by tag, in no particular order. The contract
/// claims that the call fails exactly where `json_tags` has no value, and
/// that the tags and notes handed out are those of the map that was read.
#[verifier::external_body]
fn read_json(text: &str) -> (read: Result<Vec<(String, Vec<String>)>, serde_json::Error>)
    ensures
        match read {
            Ok(entries) => json_tags(text@) == Some(listed(listing_of(entries@))),
            Err(_) => json_tags(text@) is None,
        },
{
    let map: HashMap<String, HashSet<String>> = serde_json::from_str(text)?;
    Ok(map.into_iter().map(|(tag, notes)| (tag, notes.into_iter().collect())).collect())
}

/// Calls `serde_json::to_string` on the map from strings to sets of strings
/// that `entries` list. The order in which the tags and notes are written is
/// not fixed, so nothing is claimed of the text.
#[verifier::external_body]
fn write_json(entries: &Vec<(String, Vec<String>)>) -> (written: Result<String, serde_json::Error>) {
    let map: HashMap<&String, HashSet<&String>> = entries.iter().map(
        |(tag, notes)| (tag, notes.iter().collect()),
    ).collect();
    serde_json::to_string(&map)
}

/// Why a tag index could not be read or written.
#[derive(Debug)]
pub enum TagsError {
    /// The text of the file is not a JSON object of arrays of strings.
    Malformed(serde_json::Error),
    /// The index could not be written as JSON.
    NotWritten(serde_json::Error),
    /// What was written for the index does not read back as the index.
    NotReadBack,
}

/// A file to be written: where, and with what content.
#[derive(Debug)]
pub struct FileWrite {
    pub path: String,
    pub content: String,
}

/// Where the tag index of a notes directory is kept.
pub open spec fn tags_path(notes_dir: Seq<char>) -> Seq<char> {
    joined(notes_dir, TAGS_FILE_NAME@)
}

/// The path of the file that holds the tag index of `notes_dir`.
pub fn tags_file_path(notes_dir: &str) -> (path: String)
    ensures
        path@ == tags_path(notes_dir@),
{
    join_path(notes_dir, TAGS_FILE_NAME)
}

/// The index that a tag index file stands for; `content` is the text of the
/// file, or `None` where there is no file. No file stands for the index
/// without tags. A file with text stands for what the text lists, without the
/// tags that it lists with no note; it stands for no index where the text is
/// no JSON object of arrays of strings.
pub open spec fn file_index(content: Option<Seq<char>>) -> Option<TagMap> {
    match content {
        None => Some(TagMap::empty()),
        Some(text) => match json_tags(text) {
            Some(index) => Some(without_empty(index)),
            None => None,
        },
    }
}

/// The tag index that the file holds. `content` is the text of the file, or
/// `None` where there is no file, which is no error: the index then has no
/// tags. A text that is no JSON object of arrays of strings is an error. A
/// note listed twice under a tag counts once, and a tag without notes is left
/// out.
pub fn load_tags(content: Option<&str>) -> (loaded: Result<Tags, TagsError>)
    ensures
        match file_index(text_of(content)) {
            Some(index) => loaded matches Ok(tags) && tags@ == index && index_valid(index),
            None => loaded matches Err(TagsError::Malformed(_)),
        },
{
    match content {
        None => Ok(Tags::new()),
        Some(text) => match read_json(text) {
            Ok(entries) => Ok(Tags::from_entries(&entries)),
            Err(error) => Err(TagsError::Malformed(error)),
        },
    }
}

/// The write that stores `tags`, given the outcome of writing the index as
/// JSON. A failure to write is handed on. A text is read back before it is
/// accepted: it goes to the tag index file of `notes_dir` where it lists
/// exactly the tags of the index, each with the notes that bear it, and is
/// refused where it does not.
pub fn tags_file_write(
    notes_dir: &str,
    tags: &Tags,
    written: Result<String, serde_json::Error>,
) -> (write: Result<FileWrite, TagsError>)
    ensures
        match written {
            Ok(text) => if json_tags(text@) == Some(tags@) {
                write matches Ok(file) && file.path@ == tags_path(notes_dir@) && file.content
                    == text
            } else {
                write matches Err(TagsError::NotReadBack)
            },
            Err(error) => write matches Err(TagsError::NotWritten(e)) && e == error,
        },
{
    match written {
        Ok(text) => {
            let reads_back = match read_json(text.as_str()) {
                Ok(entries) => tags.is_listed_by(&entries),
                Err(_) => false,
            };
            if reads_back {
                Ok(FileWrite { path: tags_file_path(notes_dir), content: text })
            } else {
                Err(TagsError::NotReadBack)
            }
        },
        Err(error) => Err(TagsError::NotWritten(error)),
    }
}

/// The write that stores `tags` as the tag index of `notes_dir`: the whole
/// index as JSON, in place of whatever the file held. The text that is handed
/// out lists exactly the tags of the index, each with the notes that bear
/// it, so that a tag index file with this text loads as `tags`.
pub fn update_tags(notes_dir: &str, tags: &Tags) -> (write: Result<FileWrite, TagsError>)
    ensures
        match write {
            Ok(file) => {
                &&& file.path@ == tags_path(notes_dir@)
                &&& json_tags(file.content@) == Some(tags@)
                &&& file_index(Some(file.content@)) == Some(tags@)
            },
            Err(error) => error is NotWritten || error is NotReadBack,
        },
{
    let entries = tags.to_entries();
    proof {
        reading_back_what_was_written(tags@, listing_of(entries@));
    }
    tags_file_write(notes_dir, tags, write_json(&entries))
}

} // verus!
