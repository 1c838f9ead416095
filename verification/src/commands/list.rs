//! Listing the notes of a directory.

use crate::commands::{check_options, total_line, CommandError, TOTAL};
use crate::config::Config;
use crate::format::{format_system_time_at, now_seconds, time_text, utc_day};
use crate::notes::{resolve_dir, resolved_dir};
use crate::paths::{join_path, joined};
use crate::run::Run;
use crate::text::{decimal, to_decimal};
use vstd::prelude::*;
use vstd::string::*;

verus! {

/// Lists the notes of one directory, or of all of them.
#[derive(Debug)]
pub struct ListCommand {
    /// The note directory; the default directory where none is given.
    pub dir: Option<String>,
    /// Include the table headers.
    pub include_headers: bool,
    /// Display all notes, regardless of the directory.
    pub all: bool,
}

/// What is to be listed.
#[derive(Debug)]
pub enum ListTarget {
    /// What lies in each directory that lies in this one.
    Below(String),
    /// What lies in this directory.
    In(String),
}

/// A note as a listing found it.
#[derive(Debug)]
pub struct NoteEntry {
    /// When the file was created.
    pub created: i64,
    /// The length of the file in bytes.
    pub length: u64,
    /// When the file was last changed.
    pub modified: i64,
    /// The path of the file, from the notes directory.
    pub path: String,
}

/// A row of the table of notes.
#[derive(Debug)]
pub struct TableRow {
    pub created: String,
    pub length: String,
    pub updated: String,
    pub path: String,
}

/// The cells of a row.
pub type RowText = (Seq<char>, Seq<char>, Seq<char>, Seq<char>);

impl View for TableRow {
    type V = RowText;

    open spec fn view(&self) -> RowText {
        (self.created@, self.length@, self.updated@, self.path@)
    }
}

/// The cells of each row.
pub open spec fn row_texts(rows: Seq<TableRow>) -> Seq<RowText> {
    Seq::new(rows.len(), |i: int| rows[i]@)
}

/// The columns of the table of notes: four, each aligned to the left, with a
/// blank between them.
pub const TABLE_COLUMNS: &'static str = "{:<} {:<} {:<} {:<}";

/// What `tabular` writes for a table of four columns, each aligned to the
/// left with a blank between them, that holds the given rows.
pub uninterp spec fn table_text(rows: Seq<RowText>) -> Seq<char>;

/// Makes a `tabular::Table` of the given columns, adds each row with
/// `Table::add_row`, and has the table written. The contract asks for the
/// four columns of the table of notes, since `Table::new` panics where the
/// columns are not well written and `add_row` where a row has another number
/// of cells, and gives the result the name `table_text`.
#[verifier::external_body]
fn write_table(columns: &str, rows: &Vec<TableRow>) -> (text: String)
    requires
        columns@ == TABLE_COLUMNS@,
    ensures
        text@ == table_text(row_texts(rows@)),
{
    let mut table = tabular::Table::new(columns);
    for row in rows {
        table.add_row(
            tabular::Row::new().with_cell(&row.created).with_cell(&row.length).with_cell(
                &row.updated,
            ).with_cell(&row.path),
        );
    }
    table.to_string()
}

/// What stands above the columns.
pub open spec fn header_row() -> RowText {
    ("Created"@, "Length"@, "Updated"@, "Path"@)
}

/// The row of a note at the time `now`: none where one of its times lies
/// outside the calendar.
pub open spec fn note_row(entry: NoteEntry, now: i64) -> Option<RowText> {
    match (time_text(entry.created, now), time_text(entry.modified, now)) {
        (Some(created), Some(updated)) => Some(
            (created, decimal(entry.length as nat), updated, entry.path@),
        ),
        _ => None,
    }
}

/// Whether every note has a row at the time `now`.
pub open spec fn all_have_rows(entries: Seq<NoteEntry>, now: i64) -> bool {
    forall|i: int| 0 <= i < entries.len() ==> (#[trigger] note_row(entries[i], now)) is Some
}

/// The rows of the table of notes at the time `now`: the headers, where they
/// are asked for, and then a row for each note.
pub open spec fn table_rows(include_headers: bool, entries: Seq<NoteEntry>, now: i64) -> Seq<
    RowText,
> {
    let rows = Seq::new(entries.len(), |i: int| note_row(entries[i], now).unwrap());
    if include_headers {
        seq![header_row()] + rows
    } else {
        rows
    }
}

/// Whether `outcome` is what a listing at the time `now` comes to. A
/// directory given together with the request for all of them is reported,
/// then a time outside the calendar. Else a line counts the notes, and where
/// there are any, the table of them follows.
pub open spec fn lists(
    command: ListCommand,
    entries: Seq<NoteEntry>,
    now: i64,
    outcome: Result<Vec<String>, CommandError>,
) -> bool {
    match outcome {
        Ok(output) => {
            &&& !(command.dir is Some && command.all)
            &&& all_have_rows(entries, now)
            &&& output@.len() == if entries.len() > 0 {
                2int
            } else {
                1int
            }
            &&& output@[0]@ == TOTAL@ + decimal(entries.len())
            &&& entries.len() > 0 ==> output@[1]@ == table_text(
                table_rows(command.include_headers, entries, now),
            )
        },
        Err(CommandError::ConflictingOptions) => command.dir is Some && command.all,
        Err(CommandError::TimeOutOfRange) => !(command.dir is Some && command.all)
            && !all_have_rows(entries, now),
        Err(_) => false,
    }
}

impl ListCommand {
    /// What is to be listed: with `all`, what lies in each directory of the
    /// notes directory; else what lies in the directory of the command.
    pub fn list_notes(&self, config: &Config) -> (target: ListTarget)
        ensures
            match target {
                ListTarget::Below(root) => self.all && root@ == config.notes_dir@,
                ListTarget::In(dir) => !self.all && dir@ == joined(
                    config.notes_dir@,
                    resolved_dir(self.dir),
                ),
            },
    {
        if self.all {
            ListTarget::Below(config.notes_dir.clone())
        } else {
            let dir = resolve_dir(&self.dir);
            ListTarget::In(join_path(config.notes_dir.as_str(), dir.as_str()))
        }
    }

    /// The table of the notes at the time `now`: the headers, where they are
    /// asked for, and a row for each note with the time of its creation, its
    /// length, the time of its last change and its path. The result is `None`
    /// where a time lies outside the calendar.
    pub fn build_table(&self, entries: &Vec<NoteEntry>, now: i64) -> (table: Option<String>)
        ensures
            match table {
                Some(text) => all_have_rows(entries@, now) && text@ == table_text(
                    table_rows(self.include_headers, entries@, now),
                ),
                None => !all_have_rows(entries@, now),
            },
    {
        let mut rows: Vec<TableRow> = Vec::new();
        if self.include_headers {
            rows.push(
                TableRow {
                    created: String::from_str("Created"),
                    length: String::from_str("Length"),
                    updated: String::from_str("Updated"),
                    path: String::from_str("Path"),
                },
            );
        }
        let ghost offset = rows@.len() as int;
        let mut i: usize = 0;
        while i < entries.len()
            invariant
                i <= entries@.len(),
                offset == if self.include_headers {
                    1int
                } else {
                    0int
                },
                rows@.len() == offset + i,
                self.include_headers ==> rows@[0]@ == header_row(),
                forall|k: int| 0 <= k < i ==> (#[trigger] note_row(entries@[k], now)) == Some(
                    rows@[offset + k]@,
                ),
            decreases entries@.len() - i,
        {
            let entry = &entries[i];
            let created = format_system_time_at(entry.created, now);
            let updated = format_system_time_at(entry.modified, now);
            match (created, updated) {
                (Some(created), Some(updated)) => {
                    rows.push(
                        TableRow {
                            created,
                            length: to_decimal(entry.length),
                            updated,
                            path: entry.path.clone(),
                        },
                    );
                },
                _ => {
                    assert(note_row(entries@[i as int], now) is None);
                    return None;
                },
            }
            i += 1;
        }
        proof {
            assert(all_have_rows(entries@, now));
            assert(row_texts(rows@) =~= table_rows(self.include_headers, entries@, now));
        }
        Some(write_table(TABLE_COLUMNS, &rows))
    }

    /// What the listing comes to at the time `now`.
    pub fn run_at(&self, entries: &Vec<NoteEntry>, now: i64) -> (outcome: Result<
        Vec<String>,
        CommandError,
    >)
        ensures
            lists(*self, entries@, now, outcome),
    {
        match check_options(&self.dir, self.all) {
            Ok(_) => {},
            Err(error) => {
                return Err(error);
            },
        }
        let table = match self.build_table(entries, now) {
            Some(table) => table,
            None => {
                return Err(CommandError::TimeOutOfRange);
            },
        };
        let mut output: Vec<String> = Vec::new();
        output.push(total_line(entries.len()));
        if entries.len() > 0 {
            output.push(table);
        }
        Ok(output)
    }
}

impl Run for ListCommand {
    /// The notes that were found where `list_notes` says to look.
    type Observed = Vec<NoteEntry>;

    type Outcome = Result<Vec<String>, CommandError>;

    /// What the listing comes to now, by the clock, which gives a time inside
    /// the calendar: the lines to put out.
    fn run(&self, config: &Config, observed: Vec<NoteEntry>) -> (outcome: Result<
        Vec<String>,
        CommandError,
    >)
        ensures
            exists|now: i64| utc_day(now) is Some && lists(*self, observed@, now, outcome),
    {
        let now = now_seconds();
        let outcome = self.run_at(&observed, now);
        assert(utc_day(now) is Some && lists(*self, observed@, now, outcome));
        outcome
    }
}

} // verus!
