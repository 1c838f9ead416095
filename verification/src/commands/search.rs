//! Searching the notes that bear a tag.

use crate::commands::{check_options, total_line, CommandError, TOTAL};
use crate::config::Config;
use crate::index_file::{file_index, load_tags, TagsError};
use crate::listing::texts;
use crate::model::{notes_of, TagMap};
use crate::notes::{resolve_dir, resolved_dir, write_as_markdown, Rendering, HEADER_END};
use crate::paths::{append_separator, joined, with_separator};
use crate::run::Run;
use crate::text::{as_text, content_of, decimal, starts_with};
use vstd::prelude::*;
use vstd::string::*;

verus! {

/// Lists, or shows, the notes that bear a tag.
#[derive(Debug)]
pub struct SearchCommand {
    /// The tag to look for.
    pub tag: String,
    /// The note directory; the default directory where none is given.
    pub dir: Option<String>,
    /// Look in all directories.
    pub all: bool,
    /// Show the notes instead of listing them.
    pub show: bool,
}

/// Whether a note lies in a directory: its identifier begins with the
/// directory and a separator.
pub open spec fn in_dir(note: Seq<char>, dir: Seq<char>) -> bool {
    with_separator(dir).is_prefix_of(note)
}

/// The notes that a search finds: those that bear the tag, all of them or
/// those of one directory.
pub open spec fn found(index: TagMap, tag: Seq<char>, all: bool, dir: Seq<char>) -> Set<Seq<char>> {
    if all {
        notes_of(index, tag)
    } else {
        notes_of(index, tag).filter(|note: Seq<char>| in_dir(note, dir))
    }
}

/// One piece of what a search puts out.
#[derive(Debug)]
pub enum Output {
    /// A line of text.
    Line(String),
    /// A note to be shown.
    Note(Rendering),
}

/// What a search reports: the notes found, each once, and what is to be put
/// out for them, in order.
#[derive(Debug)]
pub struct SearchReport {
    pub results: Vec<String>,
    pub output: Vec<Output>,
}

/// Whether `output` is what is put out for `note`: the note shown, or a line
/// with its identifier.
pub open spec fn puts_out(output: Output, note: Seq<char>, show: bool, notes_dir: Seq<char>) -> bool {
    if show {
        output matches Output::Note(rendering) && rendering.path@ == joined(notes_dir, note)
            && rendering.header@ == note.push(HEADER_END)
    } else {
        output matches Output::Line(line) && line@ == note
    }
}

/// Whether `output` is what is put out for `results`: nothing where there are
/// none; else a line with their number, and then each of them in turn.
pub open spec fn reports(
    output: Seq<Output>,
    results: Seq<Seq<char>>,
    show: bool,
    notes_dir: Seq<char>,
) -> bool {
    if results.len() == 0 {
        output.len() == 0
    } else {
        &&& output.len() == results.len() + 1
        &&& output[0] matches Output::Line(line) && line@ == TOTAL@ + decimal(results.len())
        &&& forall|k: int|
            0 <= k < results.len() ==> puts_out(#[trigger] output[k + 1], results[k], show, notes_dir)
    }
}

/// Those of `notes` that lie in the directory `dir`, in the order in which
/// they stand.
pub fn notes_in_dir(notes: &Vec<String>, dir: &str) -> (kept: Vec<String>)
    ensures
        texts(kept@) == texts(notes@).filter(|note: Seq<char>| in_dir(note, dir@)),
{
    let prefix = append_separator(dir);
    let ghost inside = |note: Seq<char>| in_dir(note, dir@);
    let mut kept: Vec<String> = Vec::new();
    let mut i: usize = 0;
    proof {
        assert(texts(notes@).take(0) =~= Seq::<Seq<char>>::empty());
        assert(texts(kept@) =~= Seq::<Seq<char>>::empty());
        assert(Seq::<Seq<char>>::empty().filter(inside) =~= Seq::<Seq<char>>::empty()) by {
            reveal(Seq::filter);
        }
    }
    while i < notes.len()
        invariant
            i <= notes@.len(),
            prefix@ == with_separator(dir@),
            inside == |note: Seq<char>| in_dir(note, dir@),
            texts(kept@) == texts(notes@).take(i as int).filter(inside),
        decreases notes@.len() - i,
    {
        let ghost before = texts(notes@).take(i as int);
        let ghost kept_before = texts(kept@);
        proof {
            assert(texts(notes@).take(i + 1) =~= before.push(notes@[i as int]@));
            lemma_filter_push(before, notes@[i as int]@, inside);
        }
        if starts_with(notes[i].as_str(), prefix.as_str()) {
            kept.push(notes[i].clone());
            assert(texts(kept@) =~= kept_before.push(notes@[i as int]@));
        }
        i += 1;
    }
    proof {
        assert(texts(notes@).take(i as int) =~= texts(notes@));
    }
    kept
}

/// Filtering a sequence with one more item at its end.
proof fn lemma_filter_push(items: Seq<Seq<char>>, item: Seq<char>, keep: spec_fn(Seq<char>) -> bool)
    ensures
        items.push(item).filter(keep) == if keep(item) {
            items.filter(keep).push(item)
        } else {
            items.filter(keep)
        },
{
    reveal(Seq::filter);
    assert(items.push(item).drop_last() =~= items);
}

/// The items that a filter keeps are those of the items that it accepts, and
/// it keeps no item twice that did not stand twice.
proof fn lemma_filter_set(items: Seq<Seq<char>>, keep: spec_fn(Seq<char>) -> bool)
    ensures
        items.filter(keep).to_set() == items.to_set().filter(keep),
        items.no_duplicates() ==> items.filter(keep).no_duplicates(),
    decreases items.len(),
{
    reveal(Seq::filter);
    if items.len() == 0 {
        assert(items.filter(keep).to_set() =~= items.to_set().filter(keep));
    } else {
        let front = items.drop_last();
        let last = items.last();
        lemma_filter_set(front, keep);
        assert(items.to_set() =~= front.to_set().insert(last)) by {
            assert forall|item: Seq<char>| items.to_set().contains(item) implies front.to_set().insert(
                last,
            ).contains(item) by {
                let k = choose|k: int| 0 <= k < items.len() && items[k] == item;
                if k < front.len() {
                    assert(front[k] == item);
                }
            }
            assert forall|item: Seq<char>| front.to_set().insert(last).contains(
                item,
            ) implies items.to_set().contains(item) by {
                if item == last {
                    assert(items[items.len() - 1] == item);
                } else {
                    let k = choose|k: int| 0 <= k < front.len() && front[k] == item;
                    assert(items[k] == item);
                }
            }
        }
        let kept = front.filter(keep);
        if keep(last) {
            assert(kept.push(last).to_set() =~= kept.to_set().insert(last)) by {
                assert forall|item: Seq<char>| kept.push(last).to_set().contains(
                    item,
                ) implies kept.to_set().insert(last).contains(item) by {
                    let k = choose|k: int| 0 <= k < kept.push(last).len() && kept.push(last)[k]
                        == item;
                    if k < kept.len() {
                        assert(kept[k] == item);
                    }
                }
                assert forall|item: Seq<char>| kept.to_set().insert(last).contains(
                    item,
                ) implies kept.push(last).to_set().contains(item) by {
                    if item == last {
                        assert(kept.push(last)[kept.len() as int] == item);
                    } else {
                        let k = choose|k: int| 0 <= k < kept.len() && kept[k] == item;
                        assert(kept.push(last)[k] == item);
                    }
                }
            }
            assert(items.filter(keep).to_set() =~= items.to_set().filter(keep));
            if items.no_duplicates() {
                assert(front.no_duplicates());
                assert(!kept.to_set().contains(last)) by {
                    if front.to_set().contains(last) {
                        let k = choose|k: int| 0 <= k < front.len() && front[k] == last;
                        assert(items[k] == items[items.len() - 1]);
                    }
                }
                assert forall|a: int, b: int|
                    0 <= a < kept.push(last).len() && 0 <= b < kept.push(last).len() && a
                        != b implies kept.push(last)[a] != kept.push(last)[b] by {
                    if a < kept.len() && b < kept.len() {
                    } else if a < kept.len() {
                        assert(kept.to_set().contains(kept[a]));
                    } else {
                        assert(kept.to_set().contains(kept[b]));
                    }
                }
            }
        } else {
            assert(items.filter(keep).to_set() =~= items.to_set().filter(keep));
            if items.no_duplicates() {
                assert(front.no_duplicates());
            }
        }
    }
}

/// What is put out for the notes that a search found: nothing where there are
/// none; else a line with their number, and then each of them in turn, shown
/// or as a line.
pub fn report(results: &Vec<String>, show: bool, notes_dir: &str) -> (output: Vec<Output>)
    ensures
        reports(output@, texts(results@), show, notes_dir@),
{
    let mut output: Vec<Output> = Vec::new();
    if results.len() == 0 {
        return output;
    }
    output.push(Output::Line(total_line(results.len())));
    let mut i: usize = 0;
    while i < results.len()
        invariant
            i <= results@.len(),
            output@.len() == i + 1,
            output@[0] matches Output::Line(line) && line@ == TOTAL@ + decimal(results@.len()),
            forall|k: int|
                0 <= k < i ==> puts_out(
                    #[trigger] output@[k + 1],
                    texts(results@)[k],
                    show,
                    notes_dir@,
                ),
        decreases results@.len() - i,
    {
        if show {
            output.push(Output::Note(write_as_markdown(notes_dir, results[i].as_str())));
        } else {
            output.push(Output::Line(results[i].clone()));
        }
        i += 1;
    }
    output
}

impl Run for SearchCommand {
    /// The text of the tag index file, or `None` where there is no such file.
    type Observed = Option<String>;

    type Outcome = Result<SearchReport, CommandError>;

    /// The notes that bear the tag, all of them or those of the directory,
    /// and what is put out for them. A directory given together with the
    /// request for all of them is reported, and so is a tag index file that
    /// cannot be read.
    fn run(&self, config: &Config, observed: Option<String>) -> (outcome: Result<
        SearchReport,
        CommandError,
    >)
        ensures
            match outcome {
                Ok(report) => !(self.dir is Some && self.all) && match file_index(
                    content_of(observed),
                ) {
                    Some(index) => {
                        &&& texts(report.results@).no_duplicates()
                        &&& texts(report.results@).to_set() == found(
                            index,
                            self.tag@,
                            self.all,
                            resolved_dir(self.dir),
                        )
                        &&& reports(
                            report.output@,
                            texts(report.results@),
                            self.show,
                            config.notes_dir@,
                        )
                    },
                    None => false,
                },
                Err(CommandError::ConflictingOptions) => self.dir is Some && self.all,
                Err(CommandError::Tags(TagsError::Malformed(_))) => !(self.dir is Some && self.all)
                    && file_index(content_of(observed)) is None,
                Err(_) => false,
            },
    {
        match check_options(&self.dir, self.all) {
            Ok(_) => {},
            Err(error) => {
                return Err(error);
            },
        }
        let dir = resolve_dir(&self.dir);
        let tags = match load_tags(as_text(&observed)) {
            Ok(tags) => tags,
            Err(error) => {
                return Err(CommandError::Tags(error));
            },
        };
        let notes = tags.notes_with_tag(self.tag.as_str());
        let results = if self.all {
            notes
        } else {
            let kept = notes_in_dir(&notes, dir.as_str());
            proof {
                lemma_filter_set(texts(notes@), |note: Seq<char>| in_dir(note, dir@));
            }
            kept
        };
        let output = report(&results, self.show, config.notes_dir.as_str());
        Ok(SearchReport { results, output })
    }
}

} // verus!
