//! The tag index: which notes bear which tag.
//!
//! The index keeps each tag once, with the notes that bear it in the order in
//! which they were given the tag. A tag that no note bears is not kept.

use crate::listing::{
    lemma_listed_none, lemma_listed_note, lemma_listed_tag, listed, listing_exact, listing_of,
    lists_note, lists_tag, texts, without_empty, Listing,
};
use crate::model::{index_valid, notes_of, pruned, tagged, untagged, TagMap};
use vstd::prelude::*;
use vstd::string::*;

verus! {

/// One tag with the notes that bear it, in the order in which they were given
/// the tag.
#[derive(Debug)]
struct TagEntry {
    tag: String,
    notes: Vec<String>,
}

/// A tag index: for each tag the notes that bear it.
#[derive(Debug)]
pub struct Tags {
    entries: Vec<TagEntry>,
}

impl View for Tags {
    type V = TagMap;

    closed spec fn view(&self) -> TagMap {
        entries_map(self.entries@)
    }
}

impl Tags {
    #[verifier::type_invariant]
    spec fn well_formed(&self) -> bool {
        entries_wf(self.entries@)
    }

    /// An index without tags.
    pub fn new() -> (tags: Tags)
        ensures
            tags@ == TagMap::empty(),
            index_valid(tags@),
    {
        let tags = Tags { entries: Vec::new() };
        proof {
            lemma_valid(tags.entries@);
            assert(tags@ =~= TagMap::empty()) by {
                assert forall|tag: Seq<char>| !tags@.dom().contains(tag) by {
                    lemma_no_entry(tags.entries@, tag);
                }
            }
        }
        tags
    }

    /// Gives `tag` to the note `identifier`. A note that bears the tag already
    /// is not listed a second time.
    pub fn add_tag(&mut self, tag: &str, identifier: &str)
        ensures
            final(self)@ == tagged(old(self)@, tag@, identifier@),
            index_valid(final(self)@),
    {
        proof {
            use_type_invariant(&*self);
        }
        let tag = String::from_str(tag);
        let note = String::from_str(identifier);
        let mut entries: Vec<TagEntry> = Vec::new();
        core::mem::swap(&mut self.entries, &mut entries);
        let ghost before = entries@;
        let ghost index = entries_map(before);
        match find_tag(&entries, &tag) {
            Some(i) => {
                proof {
                    lemma_entry(before, i as int);
                }
                match find_note(&entries[i].notes, &note) {
                    Some(j) => {
                        proof {
                            assert(texts(before[i as int].notes@)[j as int] == note@);
                            assert(index[tag@].insert(note@) =~= index[tag@]);
                        }
                    },
                    None => {
                        entries[i].notes.push(note);
                        proof {
                            lemma_notes_pushed(before[i as int].notes@, entries@[i as int].notes@);
                        }
                    },
                }
                proof {
                    lemma_entry_changed(before, entries@, i as int);
                }
            },
            None => {
                let mut notes: Vec<String> = Vec::new();
                notes.push(note);
                entries.push(TagEntry { tag, notes });
                proof {
                    let only = texts(entries@.last().notes@);
                    assert(only.to_set() =~= Set::<Seq<char>>::empty().insert(note@)) by {
                        assert(only[0] == note@);
                    }
                    lemma_entry_pushed(before, entries@);
                }
            },
        }
        proof {
            lemma_valid(entries@);
        }
        self.entries = entries;
    }

    /// Takes `tag` from the note `identifier`. The tag leaves the index when
    /// no other note bears it; nothing happens when the note does not bear
    /// the tag.
    pub fn remove_tag_from_note(&mut self, tag: &str, identifier: &str)
        ensures
            final(self)@ == untagged(old(self)@, tag@, identifier@),
            index_valid(final(self)@),
    {
        proof {
            use_type_invariant(&*self);
        }
        let tag = String::from_str(tag);
        let note = String::from_str(identifier);
        let mut entries: Vec<TagEntry> = Vec::new();
        core::mem::swap(&mut self.entries, &mut entries);
        let ghost before = entries@;
        let ghost index = entries_map(before);
        match find_tag(&entries, &tag) {
            Some(i) => {
                proof {
                    lemma_entry(before, i as int);
                }
                match find_note(&entries[i].notes, &note) {
                    Some(j) => {
                        proof {
                            let notes = texts(before[i as int].notes@);
                            assert(notes[j as int] == note@);
                            notes.unique_seq_to_set();
                            lemma_notes_removed(before[i as int].notes@, j as int);
                        }
                        if entries[i].notes.len() > 1 {
                            entries[i].notes.remove(j);
                            proof {
                                lemma_entry_changed(before, entries@, i as int);
                            }
                        } else {
                            entries.remove(i);
                            proof {
                                lemma_entry_removed(before, i as int);
                            }
                        }
                    },
                    None => {},
                }
            },
            None => {
                proof {
                    lemma_no_entry(before, tag@);
                }
            },
        }
        proof {
            lemma_valid(entries@);
        }
        self.entries = entries;
    }

    /// The index without the note `identifier`: every tag keeps its other
    /// notes, and a tag that only this note bore is dropped.
    pub fn prune_identifier(&self, identifier: &str) -> (result: Tags)
        ensures
            result@ == pruned(self@, identifier@),
            index_valid(result@),
    {
        proof {
            use_type_invariant(self);
        }
        let note = String::from_str(identifier);
        let mut kept: Vec<TagEntry> = Vec::new();
        proof {
            lemma_prefix_empty(self.entries@);
            assert(entries_map(kept@) =~= pruned(TagMap::empty(), note@)) by {
                assert forall|tag: Seq<char>| !entries_map(kept@).dom().contains(tag) by {
                    lemma_no_entry(kept@, tag);
                }
            }
        }
        let mut i: usize = 0;
        while i < self.entries.len()
            invariant
                i <= self.entries@.len(),
                entries_wf(self.entries@),
                note@ == identifier@,
                entries_wf(kept@),
                entries_map(kept@) == pruned(entries_map(self.entries@.take(i as int)), note@),
            decreases self.entries@.len() - i,
        {
            let entry = &self.entries[i];
            let ghost seen = entries_map(self.entries@.take(i as int));
            let ghost kept_before = kept@;
            let mut notes = copy_notes(&entry.notes);
            match find_note(&notes, &note) {
                Some(j) => {
                    proof {
                        lemma_notes_removed(notes@, j as int);
                    }
                    notes.remove(j);
                },
                None => {
                    proof {
                        let all = texts(notes@).to_set();
                        assert(all.remove(note@) =~= all);
                    }
                },
            }
            assert(texts(notes@).to_set() == texts(entry.notes@).to_set().remove(note@));
            proof {
                lemma_prefix_step(self.entries@, i as int);
                lemma_pruned_insert(seen, entry.tag@, texts(entry.notes@).to_set(), note@);
            }
            if notes.len() > 0 {
                proof {
                    assert(texts(notes@).to_set().contains(texts(notes@)[0]));
                    assert forall|k: int| 0 <= k < kept_before.len() implies (
                    #[trigger] kept_before[k]).tag@ != entry.tag@ by {
                        lemma_entry(kept_before, k);
                    }
                }
                kept.push(TagEntry { tag: entry.tag.clone(), notes });
                proof {
                    lemma_entry_pushed(kept_before, kept@);
                }
            } else {
                assert(texts(notes@).to_set() =~= Set::<Seq<char>>::empty());
            }
            i += 1;
        }
        proof {
            assert(self.entries@.take(i as int) =~= self.entries@);
            lemma_valid(kept@);
        }
        Tags { entries: kept }
    }

    /// The notes that bear `tag`, each once: none for a tag that the index
    /// does not know.
    pub fn notes_with_tag(&self, tag: &str) -> (notes: Vec<String>)
        ensures
            texts(notes@).no_duplicates(),
            texts(notes@).to_set() == notes_of(self@, tag@),
    {
        proof {
            use_type_invariant(self);
        }
        let tag = String::from_str(tag);
        match find_tag(&self.entries, &tag) {
            Some(i) => {
                proof {
                    lemma_entry(self.entries@, i as int);
                }
                copy_notes(&self.entries[i].notes)
            },
            None => {
                proof {
                    lemma_no_entry(self.entries@, tag@);
                }
                let notes: Vec<String> = Vec::new();
                assert(texts(notes@).to_set() =~= Set::<Seq<char>>::empty());
                notes
            },
        }
    }

    /// Whether the note `identifier` bears `tag`.
    pub fn is_tagged(&self, tag: &str, identifier: &str) -> (found: bool)
        ensures
            found == notes_of(self@, tag@).contains(identifier@),
    {
        proof {
            use_type_invariant(self);
        }
        let tag = String::from_str(tag);
        let note = String::from_str(identifier);
        match find_tag(&self.entries, &tag) {
            Some(i) => {
                proof {
                    lemma_entry(self.entries@, i as int);
                }
                match find_note(&self.entries[i].notes, &note) {
                    Some(j) => {
                        assert(texts(self.entries@[i as int].notes@)[j as int] == note@);
                        true
                    },
                    None => false,
                }
            },
            None => {
                proof {
                    lemma_no_entry(self.entries@, tag@);
                }
                false
            },
        }
    }

    /// The number of tags.
    pub fn len(&self) -> (count: usize)
        ensures
            count == self@.dom().len(),
    {
        proof {
            use_type_invariant(self);
            lemma_tag_count(self.entries@);
        }
        self.entries.len()
    }

    /// The index written out: each tag once with its notes, each of them
    /// once. The index that is written out is a valid one.
    pub fn to_entries(&self) -> (entries: Vec<(String, Vec<String>)>)
        ensures
            listing_exact(listing_of(entries@)),
            listed(listing_of(entries@)) == self@,
            index_valid(self@),
    {
        proof {
            use_type_invariant(self);
            lemma_valid(self.entries@);
        }
        let mut entries: Vec<(String, Vec<String>)> = Vec::new();
        let mut i: usize = 0;
        while i < self.entries.len()
            invariant
                i <= self.entries@.len(),
                entries@.len() == i,
                forall|k: int|
                    0 <= k < i ==> (#[trigger] entries@[k]).0@ == self.entries@[k].tag@
                        && entries@[k].1@ == self.entries@[k].notes@,
            decreases self.entries@.len() - i,
        {
            entries.push((self.entries[i].tag.clone(), copy_notes(&self.entries[i].notes)));
            i += 1;
        }
        proof {
            lemma_written_out(self.entries@, listing_of(entries@));
        }
        entries
    }

    /// The index of what `entries` list: a tag has the notes of all its lists,
    /// each once, and a tag without a note is left out.
    pub fn from_entries(entries: &Vec<(String, Vec<String>)>) -> (tags: Tags)
        ensures
            tags@ == without_empty(listed(listing_of(entries@))),
            index_valid(tags@),
    {
        let ghost listing = listing_of(entries@);
        let mut tags = Tags::new();
        proof {
            lemma_listed_none(listing.take(0));
        }
        let mut i: usize = 0;
        while i < entries.len()
            invariant
                i <= entries@.len(),
                listing == listing_of(entries@),
                tags@ == without_empty(listed(listing.take(i as int))),
                index_valid(tags@),
            decreases entries@.len() - i,
        {
            let tag = entries[i].0.as_str();
            let notes = &entries[i].1;
            let ghost seen = listing.take(i as int);
            proof {
                lemma_listed_tag(seen, tag@);
                assert(texts(notes@).take(0) =~= Seq::<Seq<char>>::empty());
            }
            let mut j: usize = 0;
            while j < notes.len()
                invariant
                    j <= notes@.len(),
                    tags@ == without_empty(listed(seen.push((tag@, texts(notes@).take(j as int))))),
                    index_valid(tags@),
                decreases notes@.len() - j,
            {
                proof {
                    lemma_listed_note(seen, tag@, texts(notes@).take(j as int), notes@[j as int]@);
                    assert(texts(notes@).take(j as int).push(notes@[j as int]@) =~= texts(
                        notes@,
                    ).take(j + 1));
                }
                tags.add_tag(tag, notes[j].as_str());
                j += 1;
            }
            proof {
                assert(texts(notes@).take(j as int) =~= texts(notes@));
                assert(seen.push((tag@, texts(notes@))) =~= listing.take(i + 1));
            }
            i += 1;
        }
        proof {
            assert(listing.take(i as int) =~= listing);
        }
        tags
    }

    /// Whether `entries` list exactly this index: the tags of the index and
    /// no other, and for each tag the notes that bear it. A list that names a
    /// tag without any note does not list the index, which has no such tag.
    pub fn is_listed_by(&self, entries: &Vec<(String, Vec<String>)>) -> (exactly: bool)
        ensures
            exactly == (listed(listing_of(entries@)) == self@),
    {
        let read = Tags::from_entries(entries);
        let ghost listing = listing_of(entries@);
        proof {
            use_type_invariant(self);
            use_type_invariant(&read);
            lemma_valid(self.entries@);
        }
        let mut i: usize = 0;
        while i < entries.len()
            invariant
                i <= entries@.len(),
                listing == listing_of(entries@),
                read@ == without_empty(listed(listing)),
                entries_wf(read.entries@),
                index_valid(self@),
                forall|k: int| 0 <= k < i ==> read@.dom().contains((#[trigger] listing[k]).0),
            decreases entries@.len() - i,
        {
            assert(lists_tag(listing, listing[i as int].0, i as int));
            match find_tag(&read.entries, &entries[i].0) {
                Some(j) => {
                    proof {
                        lemma_entry(read.entries@, j as int);
                    }
                },
                None => {
                    proof {
                        let tag = listing[i as int].0;
                        lemma_no_entry(read.entries@, tag);
                        assert(listed(listing).dom().contains(tag));
                        assert(listed(listing)[tag].is_empty());
                        assert(listed(listing)[tag].len() == 0);
                        if listed(listing) == self@ {
                            assert(self@.dom().contains(tag));
                        }
                    }
                    return false;
                },
            }
            i += 1;
        }
        proof {
            assert(without_empty(listed(listing)) =~= listed(listing)) by {
                assert forall|tag: Seq<char>| listed(listing).dom().contains(
                    tag,
                ) implies without_empty(listed(listing)).dom().contains(tag) by {
                    let k = choose|k: int| lists_tag(listing, tag, k);
                    assert(read@.dom().contains(listing[k].0));
                }
            }
        }
        read == *self
    }
}

impl PartialEq for Tags {
    /// Whether two indexes hold the same tags with the same notes, in
    /// whatever order.
    fn eq(&self, other: &Tags) -> (same: bool) {
        proof {
            use_type_invariant(self);
            use_type_invariant(other);
            lemma_tag_count(self.entries@);
            lemma_tag_count(other.entries@);
            lemma_valid(self.entries@);
            lemma_valid(other.entries@);
        }
        if self.entries.len() != other.entries.len() {
            return false;
        }
        let mut i: usize = 0;
        while i < self.entries.len()
            invariant
                i <= self.entries@.len(),
                entries_wf(self.entries@),
                entries_wf(other.entries@),
                forall|k: int|
                    0 <= k < i ==> other@.dom().contains((#[trigger] self.entries@[k]).tag@)
                        && other@[self.entries@[k].tag@] == self@[self.entries@[k].tag@],
            decreases self.entries@.len() - i,
        {
            proof {
                lemma_entry(self.entries@, i as int);
            }
            match find_tag(&other.entries, &self.entries[i].tag) {
                Some(j) => {
                    proof {
                        lemma_entry(other.entries@, j as int);
                    }
                    if !same_notes(&self.entries[i].notes, &other.entries[j].notes) {
                        return false;
                    }
                },
                None => {
                    proof {
                        lemma_no_entry(other.entries@, self.entries@[i as int].tag@);
                    }
                    return false;
                },
            }
            i += 1;
        }
        proof {
            assert(self@.dom().subset_of(other@.dom())) by {
                assert forall|tag: Seq<char>| self@.dom().contains(tag) implies other@.dom().contains(
                    tag,
                ) by {
                    let k = lemma_has_entry(self.entries@, tag);
                    assert(other@.dom().contains(self.entries@[k].tag@));
                }
            }
            vstd::set_lib::lemma_subset_equality(self@.dom(), other@.dom());
            assert forall|tag: Seq<char>| self@.dom().contains(tag) implies self@[tag]
                == other@[tag] by {
                let k = lemma_has_entry(self.entries@, tag);
                assert(other@[self.entries@[k].tag@] == self@[self.entries@[k].tag@]);
            }
            assert(self@ =~= other@);
        }
        true
    }
}

impl vstd::std_specs::cmp::PartialEqSpecImpl for Tags {
    open spec fn obeys_eq_spec() -> bool {
        true
    }

    open spec fn eq_spec(&self, other: &Tags) -> bool {
        self@ == other@
    }
}

/// The position of `tag` among the entries, if it is there.
fn find_tag(entries: &Vec<TagEntry>, tag: &String) -> (found: Option<usize>)
    ensures
        match found {
            Some(i) => entry_of(entries@, tag@, i as int),
            None => forall|i: int| 0 <= i < entries@.len() ==> (#[trigger] entries@[i]).tag@ != tag@,
        },
{
    let mut i: usize = 0;
    while i < entries.len()
        invariant
            i <= entries@.len(),
            forall|k: int| 0 <= k < i ==> (#[trigger] entries@[k]).tag@ != tag@,
        decreases entries@.len() - i,
    {
        if entries[i].tag == *tag {
            return Some(i);
        }
        i += 1;
    }
    None
}

/// The position of `note` among `notes`, if it is there.
fn find_note(notes: &Vec<String>, note: &String) -> (found: Option<usize>)
    ensures
        match found {
            Some(j) => j < notes@.len() && notes@[j as int]@ == note@,
            None => !texts(notes@).to_set().contains(note@),
        },
{
    let mut j: usize = 0;
    while j < notes.len()
        invariant
            j <= notes@.len(),
            forall|k: int| 0 <= k < j ==> (#[trigger] notes@[k])@ != note@,
        decreases notes@.len() - j,
    {
        if notes[j] == *note {
            return Some(j);
        }
        j += 1;
    }
    proof {
        if texts(notes@).to_set().contains(note@) {
            let k = choose|k: int| 0 <= k < texts(notes@).len() && texts(notes@)[k] == note@;
            assert(notes@[k]@ != note@);
        }
    }
    None
}

/// A copy of a list of notes.
fn copy_notes(notes: &Vec<String>) -> (copy: Vec<String>)
    ensures
        copy@ == notes@,
{
    let mut copy: Vec<String> = Vec::new();
    let mut i: usize = 0;
    while i < notes.len()
        invariant
            i <= notes@.len(),
            copy@ == notes@.take(i as int),
        decreases notes@.len() - i,
    {
        copy.push(notes[i].clone());
        assert(copy@ =~= notes@.take(i + 1));
        i += 1;
    }
    assert(notes@.take(i as int) =~= notes@);
    copy
}

/// Whether two lists of notes, each without a note that stands twice, hold
/// the same notes.
fn same_notes(first: &Vec<String>, second: &Vec<String>) -> (same: bool)
    requires
        texts(first@).no_duplicates(),
        texts(second@).no_duplicates(),
    ensures
        same == (texts(first@).to_set() == texts(second@).to_set()),
{
    proof {
        texts(first@).unique_seq_to_set();
        texts(second@).unique_seq_to_set();
        vstd::seq_lib::seq_to_set_is_finite(texts(first@));
        vstd::seq_lib::seq_to_set_is_finite(texts(second@));
    }
    if first.len() != second.len() {
        return false;
    }
    let mut i: usize = 0;
    while i < first.len()
        invariant
            i <= first@.len(),
            forall|k: int|
                0 <= k < i ==> texts(second@).to_set().contains(#[trigger] texts(first@)[k]),
        decreases first@.len() - i,
    {
        match find_note(second, &first[i]) {
            Some(j) => {
                assert(texts(second@)[j as int] == texts(first@)[i as int]);
            },
            None => {
                assert(texts(first@).to_set().contains(texts(first@)[i as int]));
                return false;
            },
        }
        i += 1;
    }
    proof {
        assert(texts(first@).to_set().subset_of(texts(second@).to_set())) by {
            assert forall|note: Seq<char>| texts(first@).to_set().contains(note) implies texts(
                second@,
            ).to_set().contains(note) by {
                let k = choose|k: int| 0 <= k < texts(first@).len() && texts(first@)[k] == note;
                assert(texts(second@).to_set().contains(texts(first@)[k]));
            }
        }
        vstd::set_lib::lemma_subset_equality(texts(first@).to_set(), texts(second@).to_set());
    }
    true
}

/// Each tag stands once, with at least one note, and each note once under a
/// tag.
spec fn entries_wf(entries: Seq<TagEntry>) -> bool {
    &&& forall|i: int, j: int|
        0 <= i < j < entries.len() ==> (#[trigger] entries[i]).tag@ != (#[trigger] entries[j]).tag@
    &&& forall|i: int|
        0 <= i < entries.len() ==> (#[trigger] entries[i]).notes@.len() > 0 && texts(
            entries[i].notes@,
        ).no_duplicates()
}

/// Whether `entries[i]` is the entry of `tag`.
spec fn entry_of(entries: Seq<TagEntry>, tag: Seq<char>, i: int) -> bool {
    0 <= i < entries.len() && entries[i].tag@ == tag
}

/// The index that a sequence of entries stands for.
spec fn entries_map(entries: Seq<TagEntry>) -> TagMap {
    Map::new(
        |tag: Seq<char>| exists|i: int| entry_of(entries, tag, i),
        |tag: Seq<char>|
            texts(entries[choose|i: int| entry_of(entries, tag, i)].notes@).to_set(),
    )
}

/// The tags of a sequence of entries, in order.
spec fn entry_tags(entries: Seq<TagEntry>) -> Seq<Seq<char>> {
    Seq::new(entries.len(), |i: int| entries[i].tag@)
}

/// In well-formed entries each entry is the one that the index has for its
/// tag.
proof fn lemma_entry(entries: Seq<TagEntry>, i: int)
    requires
        entries_wf(entries),
        0 <= i < entries.len(),
    ensures
        entries_map(entries).dom().contains(entries[i].tag@),
        entries_map(entries)[entries[i].tag@] == texts(entries[i].notes@).to_set(),
{
    let tag = entries[i].tag@;
    assert(entry_of(entries, tag, i));
    let k = choose|k: int| entry_of(entries, tag, k);
    assert(entry_of(entries, tag, k));
    if k < i {
        assert(entries[k].tag@ != entries[i].tag@);
    } else if i < k {
        assert(entries[i].tag@ != entries[k].tag@);
    }
}

/// A tag that no entry holds is not in the index.
proof fn lemma_no_entry(entries: Seq<TagEntry>, tag: Seq<char>)
    requires
        forall|i: int| 0 <= i < entries.len() ==> (#[trigger] entries[i]).tag@ != tag,
    ensures
        !entries_map(entries).dom().contains(tag),
{
    if entries_map(entries).dom().contains(tag) {
        let k = choose|k: int| entry_of(entries, tag, k);
        assert(entry_of(entries, tag, k));
        assert(entries[k].tag@ != tag);
    }
}

/// A tag of the index has an entry.
proof fn lemma_has_entry(entries: Seq<TagEntry>, tag: Seq<char>) -> (i: int)
    requires
        entries_wf(entries),
        entries_map(entries).dom().contains(tag),
    ensures
        entry_of(entries, tag, i),
        entries_map(entries)[tag] == texts(entries[i].notes@).to_set(),
{
    let i = choose|i: int| entry_of(entries, tag, i);
    lemma_entry(entries, i);
    i
}

/// The tags of the index are the tags of the entries.
proof fn lemma_tags_of_index(entries: Seq<TagEntry>)
    ensures
        entries_map(entries).dom() == entry_tags(entries).to_set(),
{
    let index = entries_map(entries);
    let tags = entry_tags(entries);
    assert(index.dom() =~= tags.to_set()) by {
        assert forall|tag: Seq<char>| index.dom().contains(tag) implies tags.to_set().contains(
            tag,
        ) by {
            let i = choose|i: int| entry_of(entries, tag, i);
            assert(tags[i] == tag);
        }
        assert forall|tag: Seq<char>| tags.to_set().contains(tag) implies index.dom().contains(
            tag,
        ) by {
            let i = choose|i: int| 0 <= i < tags.len() && tags[i] == tag;
            assert(entry_of(entries, tag, i));
        }
    }
}

/// Well-formed entries stand for a valid index.
proof fn lemma_valid(entries: Seq<TagEntry>)
    requires
        entries_wf(entries),
    ensures
        index_valid(entries_map(entries)),
{
    let index = entries_map(entries);
    let tags = entry_tags(entries);
    lemma_tags_of_index(entries);
    vstd::seq_lib::seq_to_set_is_finite(tags);
    assert forall|tag: Seq<char>| #[trigger] index.dom().contains(tag) implies index[tag].finite()
        && index[tag].len() > 0 by {
        let i = lemma_has_entry(entries, tag);
        let notes = texts(entries[i].notes@);
        vstd::seq_lib::seq_to_set_is_finite(notes);
        assert(notes.to_set().contains(notes[0]));
    }
}

/// Well-formed entries hold as many tags as the index has.
proof fn lemma_tag_count(entries: Seq<TagEntry>)
    requires
        entries_wf(entries),
    ensures
        entries_map(entries).dom().len() == entries.len(),
{
    let index = entries_map(entries);
    let tags = entry_tags(entries);
    lemma_tags_of_index(entries);
    assert(tags.no_duplicates()) by {
        assert forall|a: int, b: int| 0 <= a < tags.len() && 0 <= b < tags.len() && a
            != b implies tags[a] != tags[b] by {
            if a < b {
                assert(entries[a].tag@ != entries[b].tag@);
            } else {
                assert(entries[b].tag@ != entries[a].tag@);
            }
        }
    }
    tags.unique_seq_to_set();
}

/// What a list of notes stands for after a note that it did not hold is
/// written at its end.
proof fn lemma_notes_pushed(before: Seq<String>, after: Seq<String>)
    requires
        texts(before).no_duplicates(),
        after.len() == before.len() + 1,
        forall|k: int| 0 <= k < before.len() ==> after[k] == before[k],
        !texts(before).to_set().contains(after.last()@),
    ensures
        texts(after).no_duplicates(),
        texts(after).to_set() == texts(before).to_set().insert(after.last()@),
{
    let old_texts = texts(before);
    let new_texts = texts(after);
    assert(new_texts =~= old_texts.push(after.last()@));
    assert forall|a: int, b: int| 0 <= a < new_texts.len() && 0 <= b < new_texts.len() && a
        != b implies new_texts[a] != new_texts[b] by {
        if a < old_texts.len() && b < old_texts.len() {
        } else if a < old_texts.len() {
            assert(old_texts.to_set().contains(old_texts[a]));
        } else {
            assert(old_texts.to_set().contains(old_texts[b]));
        }
    }
    assert(new_texts.to_set() =~= old_texts.to_set().insert(after.last()@)) by {
        assert forall|t: Seq<char>| new_texts.to_set().contains(t) implies old_texts.to_set().insert(
            after.last()@,
        ).contains(t) by {
            let k = choose|k: int| 0 <= k < new_texts.len() && new_texts[k] == t;
            if k < old_texts.len() {
                assert(old_texts[k] == t);
            }
        }
        assert forall|t: Seq<char>| old_texts.to_set().insert(after.last()@).contains(
            t,
        ) implies new_texts.to_set().contains(t) by {
            if t == after.last()@ {
                assert(new_texts[new_texts.len() - 1] == t);
            } else {
                let k = choose|k: int| 0 <= k < old_texts.len() && old_texts[k] == t;
                assert(new_texts[k] == t);
            }
        }
    }
}

/// What a list of notes stands for after one of them is taken out.
proof fn lemma_notes_removed(before: Seq<String>, j: int)
    requires
        texts(before).no_duplicates(),
        0 <= j < before.len(),
    ensures
        texts(before.remove(j)).no_duplicates(),
        texts(before.remove(j)).to_set() == texts(before).to_set().remove(before[j]@),
{
    let old_texts = texts(before);
    let new_texts = texts(before.remove(j));
    assert(new_texts =~= old_texts.remove(j));
    assert forall|a: int, b: int| 0 <= a < new_texts.len() && 0 <= b < new_texts.len() && a
        != b implies new_texts[a] != new_texts[b] by {
        let a0 = if a < j { a } else { a + 1 };
        let b0 = if b < j { b } else { b + 1 };
        assert(new_texts[a] == old_texts[a0]);
        assert(new_texts[b] == old_texts[b0]);
    }
    assert(new_texts.to_set() =~= old_texts.to_set().remove(before[j]@)) by {
        assert forall|t: Seq<char>| new_texts.to_set().contains(t) implies old_texts.to_set().remove(
            before[j]@,
        ).contains(t) by {
            let k = choose|k: int| 0 <= k < new_texts.len() && new_texts[k] == t;
            let k0 = if k < j { k } else { k + 1 };
            assert(old_texts[k0] == t);
            assert(old_texts[j] == before[j]@);
        }
        assert forall|t: Seq<char>| old_texts.to_set().remove(before[j]@).contains(
            t,
        ) implies new_texts.to_set().contains(t) by {
            let k = choose|k: int| 0 <= k < old_texts.len() && old_texts[k] == t;
            assert(k != j);
            let k1 = if k < j { k } else { k - 1 };
            assert(new_texts[k1] == t);
        }
    }
}

/// The index after the notes of one entry were replaced by a list that holds
/// them and at most more: every other tag is as before.
proof fn lemma_entry_changed(before: Seq<TagEntry>, after: Seq<TagEntry>, i: int)
    requires
        entries_wf(before),
        0 <= i < before.len(),
        after.len() == before.len(),
        after[i].tag@ == before[i].tag@,
        after[i].notes@.len() > 0,
        texts(after[i].notes@).no_duplicates(),
        forall|k: int| 0 <= k < before.len() && k != i ==> after[k] == before[k],
    ensures
        entries_wf(after),
        entries_map(after) == entries_map(before).insert(
            before[i].tag@,
            texts(after[i].notes@).to_set(),
        ),
{
    assert(entries_wf(after)) by {
        assert forall|a: int, b: int| 0 <= a < b < after.len() implies (#[trigger] after[a]).tag@
            != (#[trigger] after[b]).tag@ by {
            assert(before[a].tag@ != before[b].tag@);
        }
        assert forall|a: int| 0 <= a < after.len() implies (#[trigger] after[a]).notes@.len() > 0
            && texts(after[a].notes@).no_duplicates() by {
            if a != i {
                assert(after[a] == before[a]);
            }
        }
    }
    let old_index = entries_map(before);
    let new_index = entries_map(after);
    let expected = old_index.insert(before[i].tag@, texts(after[i].notes@).to_set());
    assert forall|tag: Seq<char>| new_index.dom().contains(tag) == expected.dom().contains(
        tag,
    ) by {
        if new_index.dom().contains(tag) {
            let k = lemma_has_entry(after, tag);
            assert(entry_of(before, tag, k));
        }
        if expected.dom().contains(tag) {
            if tag == before[i].tag@ {
                assert(entry_of(after, tag, i));
            } else {
                let k = lemma_has_entry(before, tag);
                assert(entry_of(after, tag, k));
            }
        }
    }
    assert forall|tag: Seq<char>| new_index.dom().contains(tag) implies new_index[tag]
        == expected[tag] by {
        let k = lemma_has_entry(after, tag);
        if k != i {
            lemma_entry(before, k);
            assert(before[k].tag@ != before[i].tag@) by {
                if k < i {
                } else {
                }
            }
        } else {
            lemma_entry(after, i);
        }
    }
    assert(new_index =~= expected);
}

/// The index after an entry with a tag that it did not hold is written at its
/// end.
proof fn lemma_entry_pushed(before: Seq<TagEntry>, after: Seq<TagEntry>)
    requires
        entries_wf(before),
        after.len() == before.len() + 1,
        forall|k: int| 0 <= k < before.len() ==> after[k] == before[k],
        forall|k: int| 0 <= k < before.len() ==> (#[trigger] before[k]).tag@ != after.last().tag@,
        after.last().notes@.len() > 0,
        texts(after.last().notes@).no_duplicates(),
    ensures
        entries_wf(after),
        !entries_map(before).dom().contains(after.last().tag@),
        entries_map(after) == entries_map(before).insert(
            after.last().tag@,
            texts(after.last().notes@).to_set(),
        ),
{
    let last = before.len() as int;
    lemma_no_entry(before, after.last().tag@);
    assert(entries_wf(after)) by {
        assert forall|a: int, b: int| 0 <= a < b < after.len() implies (#[trigger] after[a]).tag@
            != (#[trigger] after[b]).tag@ by {
            if b < last {
                assert(before[a].tag@ != before[b].tag@);
            } else {
                assert(before[a].tag@ != after.last().tag@);
            }
        }
        assert forall|a: int| 0 <= a < after.len() implies (#[trigger] after[a]).notes@.len() > 0
            && texts(after[a].notes@).no_duplicates() by {
            if a < last {
                assert(after[a] == before[a]);
            }
        }
    }
    let old_index = entries_map(before);
    let new_index = entries_map(after);
    let expected = old_index.insert(after.last().tag@, texts(after.last().notes@).to_set());
    assert forall|tag: Seq<char>| new_index.dom().contains(tag) == expected.dom().contains(
        tag,
    ) by {
        if new_index.dom().contains(tag) {
            let k = lemma_has_entry(after, tag);
            if k < last {
                assert(entry_of(before, tag, k));
            }
        }
        if expected.dom().contains(tag) {
            if tag == after.last().tag@ {
                assert(entry_of(after, tag, last));
            } else {
                let k = lemma_has_entry(before, tag);
                assert(entry_of(after, tag, k));
            }
        }
    }
    assert forall|tag: Seq<char>| new_index.dom().contains(tag) implies new_index[tag]
        == expected[tag] by {
        let k = lemma_has_entry(after, tag);
        if k < last {
            lemma_entry(before, k);
        }
    }
    assert(new_index =~= expected);
}

/// The index after one entry is taken out: its tag leaves, every other tag is
/// as before.
proof fn lemma_entry_removed(before: Seq<TagEntry>, i: int)
    requires
        entries_wf(before),
        0 <= i < before.len(),
    ensures
        entries_wf(before.remove(i)),
        entries_map(before.remove(i)) == entries_map(before).remove(before[i].tag@),
{
    let after = before.remove(i);
    assert(entries_wf(after)) by {
        assert forall|a: int, b: int| 0 <= a < b < after.len() implies (#[trigger] after[a]).tag@
            != (#[trigger] after[b]).tag@ by {
            let a0 = if a < i { a } else { a + 1 };
            let b0 = if b < i { b } else { b + 1 };
            assert(before[a0].tag@ != before[b0].tag@);
        }
        assert forall|a: int| 0 <= a < after.len() implies (#[trigger] after[a]).notes@.len() > 0
            && texts(after[a].notes@).no_duplicates() by {
            let a0 = if a < i { a } else { a + 1 };
            assert(after[a] == before[a0]);
        }
    }
    let old_index = entries_map(before);
    let new_index = entries_map(after);
    let expected = old_index.remove(before[i].tag@);
    assert forall|tag: Seq<char>| new_index.dom().contains(tag) == expected.dom().contains(
        tag,
    ) by {
        if new_index.dom().contains(tag) {
            let k = lemma_has_entry(after, tag);
            let k0 = if k < i { k } else { k + 1 };
            assert(entry_of(before, tag, k0));
            assert(before[k0].tag@ != before[i].tag@) by {
                if k0 < i {
                } else {
                }
            }
        }
        if expected.dom().contains(tag) {
            let k = lemma_has_entry(before, tag);
            let k1 = if k < i { k } else { k - 1 };
            assert(entry_of(after, tag, k1));
        }
    }
    assert forall|tag: Seq<char>| new_index.dom().contains(tag) implies new_index[tag]
        == expected[tag] by {
        let k = lemma_has_entry(after, tag);
        let k0 = if k < i { k } else { k + 1 };
        lemma_entry(before, k0);
    }
    assert(new_index =~= expected);
}

/// No entries stand for the index without tags.
proof fn lemma_prefix_empty(entries: Seq<TagEntry>)
    ensures
        entries_map(entries.take(0)) == TagMap::empty(),
{
    assert(entries_map(entries.take(0)) =~= TagMap::empty()) by {
        assert forall|tag: Seq<char>| !entries_map(entries.take(0)).dom().contains(tag) by {
            lemma_no_entry(entries.take(0), tag);
        }
    }
}

/// The index of the first `i + 1` entries is that of the first `i` with the
/// entry `i` added, whose tag the first `i` do not hold.
proof fn lemma_prefix_step(entries: Seq<TagEntry>, i: int)
    requires
        entries_wf(entries),
        0 <= i < entries.len(),
    ensures
        entries_wf(entries.take(i)),
        entries_wf(entries.take(i + 1)),
        !entries_map(entries.take(i)).dom().contains(entries[i].tag@),
        entries_map(entries.take(i + 1)) == entries_map(entries.take(i)).insert(
            entries[i].tag@,
            texts(entries[i].notes@).to_set(),
        ),
{
    let before = entries.take(i);
    let after = entries.take(i + 1);
    assert(entries_wf(before)) by {
        assert forall|a: int, b: int| 0 <= a < b < before.len() implies (
        #[trigger] before[a]).tag@ != (#[trigger] before[b]).tag@ by {
            assert(entries[a].tag@ != entries[b].tag@);
        }
        assert forall|a: int| 0 <= a < before.len() implies (#[trigger] before[a]).notes@.len()
            > 0 && texts(before[a].notes@).no_duplicates() by {
            assert(before[a] == entries[a]);
        }
    }
    assert forall|k: int| 0 <= k < before.len() implies (#[trigger] before[k]).tag@
        != after.last().tag@ by {
        assert(entries[k].tag@ != entries[i].tag@);
    }
    assert(after.last() == entries[i]);
    lemma_entry_pushed(before, after);
}

/// Taking a note out of an index to which a new tag was added.
proof fn lemma_pruned_insert(index: TagMap, tag: Seq<char>, notes: Set<Seq<char>>, note: Seq<char>)
    requires
        !index.dom().contains(tag),
    ensures
        pruned(index.insert(tag, notes), note) == if notes.remove(note).is_empty() {
            pruned(index, note)
        } else {
            pruned(index, note).insert(tag, notes.remove(note))
        },
{
    let left = pruned(index.insert(tag, notes), note);
    if notes.remove(note).is_empty() {
        assert(left =~= pruned(index, note));
    } else {
        assert(left =~= pruned(index, note).insert(tag, notes.remove(note)));
    }
}

/// Entries written out tag by tag list exactly the index.
proof fn lemma_written_out(entries: Seq<TagEntry>, listing: Listing)
    requires
        entries_wf(entries),
        listing.len() == entries.len(),
        forall|k: int|
            0 <= k < entries.len() ==> (#[trigger] listing[k]).0 == entries[k].tag@ && listing[k].1
                == texts(entries[k].notes@),
    ensures
        listing_exact(listing),
        listed(listing) == entries_map(entries),
{
    assert(listing_exact(listing)) by {
        assert forall|i: int, j: int| 0 <= i < j < listing.len() implies (#[trigger] listing[i]).0
            != (#[trigger] listing[j]).0 by {
            assert(entries[i].tag@ != entries[j].tag@);
        }
        assert forall|i: int| 0 <= i < listing.len() implies (#[trigger] listing[i]).1.len() > 0
            && listing[i].1.no_duplicates() by {
            assert(entries[i].notes@.len() > 0);
        }
    }
    let index = entries_map(entries);
    let written = listed(listing);
    assert forall|tag: Seq<char>| written.dom().contains(tag) == index.dom().contains(tag) by {
        if written.dom().contains(tag) {
            let i = choose|i: int| lists_tag(listing, tag, i);
            assert(entry_of(entries, tag, i));
        }
        if index.dom().contains(tag) {
            let i = choose|i: int| entry_of(entries, tag, i);
            assert(lists_tag(listing, tag, i));
        }
    }
    assert forall|tag: Seq<char>| written.dom().contains(tag) implies written[tag]
        =~= index[tag] by {
        let k = lemma_has_entry(entries, tag);
        let notes = texts(entries[k].notes@);
        assert forall|note: Seq<char>| written[tag].contains(note) implies notes.to_set().contains(
            note,
        ) by {
            let (i, j) = choose|i: int, j: int| lists_note(listing, tag, note, i, j);
            assert(entry_of(entries, tag, i));
            if i < k {
                assert(entries[i].tag@ != entries[k].tag@);
            } else if k < i {
                assert(entries[k].tag@ != entries[i].tag@);
            }
            assert(notes[j] == note);
        }
        assert forall|note: Seq<char>| notes.to_set().contains(note) implies written[tag].contains(
            note,
        ) by {
            let j = choose|j: int| 0 <= j < notes.len() && notes[j] == note;
            assert(lists_note(listing, tag, note, k, j));
        }
    }
    assert(written =~= index);
}

} // verus!
