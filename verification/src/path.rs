//! The path grammar: a path is text in which `/` separates the names, and the
//! parent of a path is the text before its last separator.

use vstd::prelude::*;
use vstd::string::StrSliceExecFns;

verus! {

broadcast use vstd::string::group_string_axioms;

/// The character that separates the names of a path.
pub const SEPARATOR: char = '/';

/// The index of the last separator of `path`, if it has one.
pub open spec fn last_separator(path: Seq<char>) -> Option<int>
    decreases path.len(),
{
    if path.len() == 0 {
        None
    } else if path.last() == SEPARATOR {
        Some(path.len() - 1)
    } else {
        last_separator(path.drop_last())
    }
}

/// The parent of `path`: the text before its last separator.
///
/// A path whose only separator is its first character has the root `/` as
/// its parent. The root itself and a path without a separator have none:
/// each is the root of a tree.
pub open spec fn parent(path: Seq<char>) -> Option<Seq<char>> {
    match last_separator(path) {
        None => None,
        Some(i) => if i > 0 {
            Some(path.subrange(0, i))
        } else if path.len() > 1 {
            Some(path.subrange(0, 1))
        } else {
            None
        },
    }
}

/// The last separator stands at an index of the path, holds a separator, and
/// no separator follows it; there is none exactly when the path holds no
/// separator at all.
pub proof fn lemma_last_separator(path: Seq<char>)
    ensures
        match last_separator(path) {
            Some(i) => {
                &&& 0 <= i < path.len()
                &&& path[i] == SEPARATOR
                &&& forall|j: int| i < j < path.len() ==> path[j] != SEPARATOR
            },
            None => forall|j: int| 0 <= j < path.len() ==> path[j] != SEPARATOR,
        },
    decreases path.len(),
{
    if path.len() > 0 && path.last() != SEPARATOR {
        let front = path.drop_last();
        lemma_last_separator(front);
        assert forall|j: int| 0 <= j < front.len() implies front[j] == path[j] by {}
    }
}

/// A parent is a proper prefix of its path, so a walk from parent to
/// parent ends.
pub proof fn lemma_parent_is_shorter(path: Seq<char>)
    ensures
        parent(path) matches Some(q) ==> q.len() < path.len() && q == path.subrange(
            0,
            q.len() as int,
        ),
{
    lemma_last_separator(path);
}

/// Returns the parent of `path`, or `None` where `path` is the root of a tree.
pub fn parent_of(path: &str) -> (r: Option<&str>)
    ensures
        match r {
            Some(q) => parent(path@) == Some(q@),
            None => parent(path@) is None,
        },
{
    let n = path.unicode_len();
    let mut last: Option<usize> = None;
    let mut idx: usize = 0;
    for c in it: path.chars()
        invariant
            n == path@.len(),
            it.seq() == path@,
            idx == it.index(),
            match last {
                Some(i) => last_separator(path@.take(idx as int)) == Some(i as int),
                None => last_separator(path@.take(idx as int)) is None,
            },
    {
        assert(path@.take(idx + 1).drop_last() == path@.take(idx as int));
        if c == SEPARATOR {
            last = Some(idx);
        }
        idx = idx + 1;
    }
    assert(path@.take(idx as int) == path@);
    proof {
        lemma_last_separator(path@);
    }
    match last {
        None => None,
        Some(i) => if i > 0 {
            Some(path.substring_char(0, i))
        } else if n > 1 {
            Some(path.substring_char(0, 1))
        } else {
            None
        },
    }
}

} // verus!
