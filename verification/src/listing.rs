//! A tag index written out as a list: each tag with a list of notes. This is
//! the shape in which an index is stored and read back.

use crate::model::{index_valid, notes_of, tagged, TagMap};
use vstd::prelude::*;
use vstd::string::*;

verus! {

/// The characters of each text of a sequence.
pub open spec fn texts(items: Seq<String>) -> Seq<Seq<char>> {
    Seq::new(items.len(), |i: int| items[i]@)
}

/// A tag index written out: each tag with a list of notes.
pub type Listing = Seq<(Seq<char>, Seq<Seq<char>>)>;

/// Whether item `i` of a listing is a list for `tag`.
pub open spec fn lists_tag(listing: Listing, tag: Seq<char>, i: int) -> bool {
    0 <= i < listing.len() && listing[i].0 == tag
}

/// Whether item `i` of a listing is a list for `tag` with `note` at place `j`.
pub open spec fn lists_note(
    listing: Listing,
    tag: Seq<char>,
    note: Seq<char>,
    i: int,
    j: int,
) -> bool {
    lists_tag(listing, tag, i) && 0 <= j < listing[i].1.len() && listing[i].1[j] == note
}

/// The map that a listing stands for: the tags are those that it lists, and a
/// tag has the notes of all its lists.
pub open spec fn listed(listing: Listing) -> TagMap {
    Map::new(
        |tag: Seq<char>| exists|i: int| lists_tag(listing, tag, i),
        |tag: Seq<char>|
            Set::new(|note: Seq<char>| exists|i: int, j: int| lists_note(listing, tag, note, i, j)),
    )
}

/// Each tag is listed once, with at least one note, and no note twice under
/// one tag.
pub open spec fn listing_exact(listing: Listing) -> bool {
    &&& forall|i: int, j: int|
        0 <= i < j < listing.len() ==> (#[trigger] listing[i]).0 != (#[trigger] listing[j]).0
    &&& forall|i: int|
        0 <= i < listing.len() ==> (#[trigger] listing[i]).1.len() > 0
            && listing[i].1.no_duplicates()
}

/// A map without the tags that have no note.
pub open spec fn without_empty(index: TagMap) -> TagMap {
    index.restrict(Set::new(|tag: Seq<char>| !index[tag].is_empty()))
}

/// What a vector of tags with their notes lists.
pub open spec fn listing_of(entries: Seq<(String, Vec<String>)>) -> Listing {
    Seq::new(entries.len(), |i: int| (entries[i].0@, texts(entries[i].1@)))
}

/// A valid index that is written out and read back from what was written is
/// the same index: nothing of it is left out.
pub proof fn reading_back_what_was_written(index: TagMap, listing: Listing)
    requires
        index_valid(index),
        listed(listing) == index,
    ensures
        without_empty(listed(listing)) == index,
{
    assert forall|tag: Seq<char>| index.dom().contains(tag) implies !index[tag].is_empty() by {
        assert(index[tag].len() > 0);
    }
    assert(without_empty(index) =~= index);
}

/// A listing without items stands for the index without tags.
pub(crate) proof fn lemma_listed_none(listing: Listing)
    requires
        listing.len() == 0,
    ensures
        without_empty(listed(listing)) == TagMap::empty(),
{
    assert(without_empty(listed(listing)) =~= TagMap::empty()) by {
        assert forall|tag: Seq<char>| !listed(listing).dom().contains(tag) by {
            if listed(listing).dom().contains(tag) {
                let i = choose|i: int| lists_tag(listing, tag, i);
                assert(lists_tag(listing, tag, i));
            }
        }
    }
}

/// A tag listed without notes adds nothing to what a listing stands for.
pub(crate) proof fn lemma_listed_tag(listing: Listing, tag: Seq<char>)
    ensures
        without_empty(listed(listing.push((tag, Seq::<Seq<char>>::empty())))) == without_empty(
            listed(listing),
        ),
{
    let longer = listing.push((tag, Seq::<Seq<char>>::empty()));
    let last = listing.len() as int;
    let old_index = listed(listing);
    let new_index = listed(longer);
    assert forall|t: Seq<char>| old_index.dom().contains(t) implies new_index.dom().contains(t)
        && new_index[t] =~= old_index[t] by {
        let k = choose|k: int| lists_tag(listing, t, k);
        assert(lists_tag(longer, t, k));
        assert forall|note: Seq<char>| new_index[t].contains(note) implies old_index[t].contains(
            note,
        ) by {
            let (i, j) = choose|i: int, j: int| lists_note(longer, t, note, i, j);
            assert(lists_note(listing, t, note, i, j));
        }
        assert forall|note: Seq<char>| old_index[t].contains(note) implies new_index[t].contains(
            note,
        ) by {
            let (i, j) = choose|i: int, j: int| lists_note(listing, t, note, i, j);
            assert(lists_note(longer, t, note, i, j));
        }
    }
    assert forall|t: Seq<char>|
        new_index.dom().contains(t) && !old_index.dom().contains(t) implies new_index[t].is_empty(
    ) by {
        assert forall|note: Seq<char>| !new_index[t].contains(note) by {
            if new_index[t].contains(note) {
                let (i, j) = choose|i: int, j: int| lists_note(longer, t, note, i, j);
                if i < last {
                    assert(lists_tag(listing, t, i));
                }
            }
        }
    }
    assert(without_empty(new_index) =~= without_empty(old_index));
}

/// One more note at the end of the last list of a listing gives that note the
/// tag of the list.
pub(crate) proof fn lemma_listed_note(listing: Listing, tag: Seq<char>, notes: Seq<Seq<char>>, note: Seq<char>)
    ensures
        without_empty(listed(listing.push((tag, notes.push(note))))) == tagged(
            without_empty(listed(listing.push((tag, notes)))),
            tag,
            note,
        ),
{
    let before = listing.push((tag, notes));
    let after = listing.push((tag, notes.push(note)));
    let last = listing.len() as int;
    let old_index = listed(before);
    let new_index = listed(after);
    assert(lists_tag(before, tag, last));
    assert(lists_tag(after, tag, last));
    assert(lists_note(after, tag, note, last, notes.len() as int));
    assert forall|t: Seq<char>| new_index.dom().contains(t) == old_index.dom().contains(t) by {
        if new_index.dom().contains(t) {
            let i = choose|i: int| lists_tag(after, t, i);
            assert(lists_tag(before, t, i));
        }
        if old_index.dom().contains(t) {
            let i = choose|i: int| lists_tag(before, t, i);
            assert(lists_tag(after, t, i));
        }
    }
    assert forall|t: Seq<char>, n: Seq<char>| new_index.dom().contains(t) implies (
    new_index[t].contains(n) == (old_index[t].contains(n) || (t == tag && n == note))) by {
        if new_index[t].contains(n) {
            let (i, j) = choose|i: int, j: int| lists_note(after, t, n, i, j);
            if i == last && j == notes.len() {
            } else {
                assert(lists_note(before, t, n, i, j));
            }
        }
        if old_index[t].contains(n) {
            let (i, j) = choose|i: int, j: int| lists_note(before, t, n, i, j);
            assert(lists_note(after, t, n, i, j));
        }
    }
    let left = without_empty(new_index);
    let kept = without_empty(old_index);
    let right = tagged(kept, tag, note);
    assert(new_index[tag].contains(note));
    assert forall|t: Seq<char>| left.dom().contains(t) == right.dom().contains(t) by {
        if t != tag {
            if left.dom().contains(t) {
                let n = choose|n: Seq<char>| new_index[t].contains(n);
                assert(old_index[t].contains(n));
            }
            if right.dom().contains(t) {
                let n = choose|n: Seq<char>| old_index[t].contains(n);
                assert(new_index[t].contains(n));
            }
        }
    }
    assert forall|t: Seq<char>| left.dom().contains(t) implies left[t] =~= right[t] by {
        if t == tag {
            if old_index[tag].is_empty() {
                assert(notes_of(kept, tag) =~= Set::<Seq<char>>::empty());
            } else {
                assert(kept.dom().contains(tag));
            }
        }
    }
    assert(left =~= right);
}

} // verus!
