//! The tag index as a mathematical object: a map from a tag to the set of
//! identifiers of the notes that bear it, what giving and taking a tag does
//! to it, and what holds of that.

use vstd::prelude::*;

verus! {


/// The mathematical model of a tag index.
pub type TagMap = Map<Seq<char>, Set<Seq<char>>>;

/// No tag of the index is left without a note, and the index and the set of
/// notes of each tag are finite.
pub open spec fn index_valid(index: TagMap) -> bool {
    &&& index.dom().finite()
    &&& forall|tag: Seq<char>| #[trigger]
        index.dom().contains(tag) ==> index[tag].finite() && index[tag].len() > 0
}

/// The notes that bear `tag`: none where the index does not know the tag.
pub open spec fn notes_of(index: TagMap, tag: Seq<char>) -> Set<Seq<char>> {
    if index.dom().contains(tag) {
        index[tag]
    } else {
        Set::empty()
    }
}

/// The index after `note` is given `tag`: a known tag gains the note, an
/// unknown tag enters the index with the note as its only one.
pub open spec fn tagged(index: TagMap, tag: Seq<char>, note: Seq<char>) -> TagMap {
    index.insert(tag, notes_of(index, tag).insert(note))
}

/// The index after `tag` is taken from `note`: the tag loses the note, and
/// leaves the index when no other note bears it. An index in which the note
/// does not bear the tag stays as it is.
pub open spec fn untagged(index: TagMap, tag: Seq<char>, note: Seq<char>) -> TagMap {
    if index.dom().contains(tag) && index[tag].contains(note) {
        if index[tag].len() > 1 {
            index.insert(tag, index[tag].remove(note))
        } else {
            index.remove(tag)
        }
    } else {
        index
    }
}

/// The index after `note` is taken out of every tag: each tag keeps its other
/// notes, and a tag that only `note` bore leaves the index.
pub open spec fn pruned(index: TagMap, note: Seq<char>) -> TagMap {
    Map::new(
        |tag: Seq<char>| index.dom().contains(tag) && !(index[tag].remove(note).is_empty()),
        |tag: Seq<char>| index[tag].remove(note),
    )
}

/// Giving and taking tags keeps an index valid: no tag is ever left without
/// a note.
pub proof fn validity_is_kept(index: TagMap, tag: Seq<char>, note: Seq<char>)
    requires
        index_valid(index),
    ensures
        index_valid(tagged(index, tag, note)),
        index_valid(untagged(index, tag, note)),
        index_valid(pruned(index, note)),
{
    let more = tagged(index, tag, note);
    assert(index_valid(more)) by {
        assert(more.dom() =~= index.dom().insert(tag));
        assert(notes_of(index, tag).finite());
        assert forall|t: Seq<char>| #[trigger] more.dom().contains(t) implies more[t].finite()
            && more[t].len() > 0 by {
            if t == tag {
                assert(more[t].contains(note));
            } else {
                assert(index.dom().contains(t));
            }
        }
    }
    let less = untagged(index, tag, note);
    assert(index_valid(less)) by {
        if index.dom().contains(tag) && index[tag].contains(note) {
            if index[tag].len() > 1 {
                assert(less.dom() =~= index.dom());
            } else {
                assert(less.dom() =~= index.dom().remove(tag));
            }
        }
        assert forall|t: Seq<char>| #[trigger] less.dom().contains(t) implies less[t].finite()
            && less[t].len() > 0 by {
            assert(index.dom().contains(t));
        }
    }
    pruning_touches_only_the_note(index, note, tag);
}

/// Giving a note a tag that it bears already changes nothing: a note stands
/// once under a tag, however often it is given the tag.
pub proof fn tagging_twice_is_tagging_once(index: TagMap, tag: Seq<char>, note: Seq<char>)
    ensures
        tagged(tagged(index, tag, note), tag, note) == tagged(index, tag, note),
        notes_of(tagged(index, tag, note), tag).contains(note),
{
    let once = tagged(index, tag, note);
    assert(once[tag].insert(note) =~= once[tag]);
    assert(tagged(once, tag, note) =~= once);
}

/// Where no other note bears the tag, giving a note the tag and taking it
/// from the note again leaves an index that does not know the tag.
pub proof fn untagging_the_only_note_drops_the_tag(
    index: TagMap,
    tag: Seq<char>,
    note: Seq<char>,
)
    requires
        forall|other: Seq<char>| notes_of(index, tag).contains(other) ==> other == note,
    ensures
        !untagged(tagged(index, tag, note), tag, note).dom().contains(tag),
{
    let once = tagged(index, tag, note);
    assert(once[tag] =~= set![note]);
}

/// In a valid index, taking a tag from a note that was just given it, and
/// did not bear it before, gives the index back.
pub proof fn untagging_undoes_tagging(index: TagMap, tag: Seq<char>, note: Seq<char>)
    requires
        index_valid(index),
        !notes_of(index, tag).contains(note),
    ensures
        untagged(tagged(index, tag, note), tag, note) == index,
{
    let once = tagged(index, tag, note);
    if index.dom().contains(tag) {
        assert(once[tag].remove(note) =~= index[tag]);
        assert(once.insert(tag, once[tag].remove(note)) =~= index);
    } else {
        assert(once[tag] =~= set![note]);
        assert(once.remove(tag) =~= index);
    }
}

/// Where exactly two notes bear a tag, taking the tag from one of them leaves
/// the tag with exactly the other.
pub proof fn untagging_leaves_the_other_note(
    index: TagMap,
    tag: Seq<char>,
    first: Seq<char>,
    second: Seq<char>,
)
    requires
        index.dom().contains(tag),
        index[tag] == set![first, second],
        first != second,
    ensures
        untagged(index, tag, first).dom().contains(tag),
        untagged(index, tag, first)[tag] == set![second],
{
    assert(index[tag].remove(first) =~= set![second]);
    assert(index[tag].len() == 2) by {
        assert(set![first, second] =~= set![second].insert(first));
    }
}

/// In a valid index, taking a tag from one of several notes that bear it
/// keeps the tag for all the others, and touches no other tag.
pub proof fn untagging_keeps_the_other_notes(
    index: TagMap,
    tag: Seq<char>,
    note: Seq<char>,
    other: Seq<char>,
)
    requires
        index_valid(index),
        index.dom().contains(tag),
        index[tag].contains(note),
        index[tag].contains(other),
        other != note,
    ensures
        untagged(index, tag, note) == index.insert(tag, index[tag].remove(note)),
        untagged(index, tag, note)[tag].contains(other),
        !untagged(index, tag, note)[tag].contains(note),
{
    let rest = index[tag].remove(note);
    assert(rest.contains(other));
    assert(rest.len() > 0);
}

/// Taking a note out of a valid index takes it from every tag that it bore,
/// drops the tags that it alone bore, and leaves every other tag as it was.
pub proof fn pruning_touches_only_the_note(index: TagMap, note: Seq<char>, tag: Seq<char>)
    requires
        index_valid(index),
    ensures
        !notes_of(pruned(index, note), tag).contains(note),
        pruned(index, note).dom().contains(tag) ==> index.dom().contains(tag),
        index.dom().contains(tag) && !index[tag].contains(note) ==> pruned(
            index,
            note,
        ).dom().contains(tag) && pruned(index, note)[tag] == index[tag],
        index.dom().contains(tag) && index[tag].contains(note) ==> (pruned(
            index,
            note,
        ).dom().contains(tag) <==> index[tag].len() > 1),
        pruned(index, note).dom().contains(tag) ==> pruned(index, note)[tag] == index[tag].remove(
            note,
        ),
        index_valid(pruned(index, note)),
{
    let after = pruned(index, note);
    if index.dom().contains(tag) {
        let notes = index[tag];
        if !notes.contains(note) {
            assert(notes.remove(note) =~= notes);
            assert(!notes.is_empty());
        } else {
            if notes.len() > 1 {
                assert(notes.remove(note).len() > 0);
            }
        }
    }
    assert(index_valid(after)) by {
        assert(after.dom().subset_of(index.dom()));
        vstd::set_lib::lemma_set_subset_finite(index.dom(), after.dom());
        assert forall|t: Seq<char>| #[trigger] after.dom().contains(t) implies after[t].finite()
            && after[t].len() > 0 by {
            assert(index.dom().contains(t));
        }
    }
}

} // verus!
