//! Paths as text: how a directory and a name are joined.

use vstd::prelude::*;
use vstd::string::*;

verus! {

/// The character that separates the components of a path.
pub const SEPARATOR: char = '/';

/// Whether a path starts at the root of the file system.
pub open spec fn is_rooted(path: Seq<char>) -> bool {
    path.len() > 0 && path[0] == SEPARATOR
}

/// Whether a separator has to be written between `base` and what follows it.
pub open spec fn needs_separator(base: Seq<char>) -> bool {
    base.len() > 0 && base.last() != SEPARATOR
}

/// `path` taken relative to `base`: a rooted `path` stands for itself;
/// otherwise it follows `base`, with one separator between the two unless
/// `base` is empty or already ends with one.
pub open spec fn joined(base: Seq<char>, path: Seq<char>) -> Seq<char> {
    if is_rooted(path) {
        path
    } else if needs_separator(base) {
        base + seq![SEPARATOR] + path
    } else {
        base + path
    }
}

/// `text` followed by one separator.
pub open spec fn with_separator(text: Seq<char>) -> Seq<char> {
    text.push(SEPARATOR)
}

/// Joins `path` to `base`.
pub fn join_path(base: &str, path: &str) -> (whole: String)
    ensures
        whole@ == joined(base@, path@),
{
    if path.unicode_len() > 0 && path.get_char(0) == SEPARATOR {
        return String::from_str(path);
    }
    let base_len = base.unicode_len();
    let mut whole = String::from_str(base);
    if base_len > 0 && base.get_char(base_len - 1) != SEPARATOR {
        proof {
            reveal_strlit("/");
        }
        whole.append("/");
        assert(whole@ =~= base@ + seq![SEPARATOR]);
    }
    whole.append(path);
    whole
}

/// Writes a separator after `text`.
pub fn append_separator(text: &str) -> (whole: String)
    ensures
        whole@ == with_separator(text@),
{
    proof {
        reveal_strlit("/");
    }
    let mut whole = String::from_str(text);
    whole.append("/");
    assert(whole@ =~= with_separator(text@));
    whole
}

} // verus!
