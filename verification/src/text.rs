//! Small operations on text that the other modules share.

use vstd::prelude::*;
use vstd::string::{StrSliceExecFns, StringExecFns};

verus! {

/// Whether `s` begins with `prefix`.
pub fn has_prefix(s: &str, prefix: &str) -> (found: bool)
    ensures
        found == prefix@.is_prefix_of(s@),
{
    let n: usize = prefix.unicode_len();
    if s.unicode_len() < n {
        return false;
    }
    let mut i: usize = 0;
    while i < n
        invariant
            i <= n,
            n == prefix@.len(),
            n <= s@.len(),
            forall|j: int| 0 <= j < i ==> prefix@[j] == s@[j],
        decreases n - i,
    {
        if prefix.get_char(i) != s.get_char(i) {
            return false;
        }
        i = i + 1;
    }
    assert(prefix@ =~= s@.subrange(0, n as int));
    true
}

/// `first` followed by `second`.
pub fn join(first: &str, second: &str) -> (joined: String)
    ensures
        joined@ == first@ + second@,
{
    first.to_owned().concat(second)
}

/// `::` stands at `k` in `path`.
pub open spec fn separator_at(path: Seq<char>, k: int) -> bool {
    0 <= k && k + 1 < path.len() && path[k] == ':' && path[k + 1] == ':'
}

/// `segment` is what stands in `path` before the first `::`, or all of it.
pub open spec fn is_first_segment(segment: Seq<char>, path: Seq<char>) -> bool {
    &&& segment.is_prefix_of(path)
    &&& segment.len() == path.len() || separator_at(path, segment.len() as int)
    &&& forall|k: int| 0 <= k < segment.len() ==> !separator_at(path, k)
}

/// The part of a module path before the first `::`.
pub fn first_segment(path: &str) -> (segment: String)
    ensures
        is_first_segment(segment@, path@),
        segment@ == path@.take(segment@.len() as int),
        segment@.len() <= path@.len(),
        segment@.len() < path@.len() ==> segment@.len() + 1 < path@.len() && path@[segment@.len() as int]
            == ':' && path@[segment@.len() as int + 1] == ':',
        forall|k: int|
            0 <= k < segment@.len() && k + 1 < path@.len() && #[trigger] path@[k] == ':' ==> path@[k
                + 1] != ':',
{
    let n: usize = path.unicode_len();
    let mut i: usize = 0;
    while i < n && !(i + 1 < n && path.get_char(i) == ':' && path.get_char(i + 1) == ':')
        invariant
            i <= n,
            n == path@.len(),
            forall|k: int| 0 <= k < i ==> !separator_at(path@, k),
        decreases n - i,
    {
        i = i + 1;
    }
    let segment = path.substring_char(0, i).to_owned();
    proof {
        assert forall|k: int|
            0 <= k < i && k + 1 < n && #[trigger] path@[k] == ':' implies path@[k + 1] != ':' by {
            assert(!separator_at(path@, k));
        }
    }
    segment
}

/// The first segment of a path is what stands before its first `::`: the path
/// goes on with `::` behind it unless it ends there, and no `::` begins within it.
pub proof fn law_first_segment(segment: Seq<char>, path: Seq<char>)
    requires
        is_first_segment(segment, path),
    ensures
        segment.len() <= path.len(),
        segment == path.take(segment.len() as int),
        segment.len() < path.len() ==> segment.len() + 1 < path.len() && path[segment.len() as int]
            == ':' && path[segment.len() as int + 1] == ':',
        forall|k: int|
            0 <= k < segment.len() && k + 1 < path.len() && #[trigger] path[k] == ':' ==> path[k
                + 1] != ':',
{
    assert forall|k: int|
        0 <= k < segment.len() && k + 1 < path.len() && #[trigger] path[k] == ':' implies path[k
        + 1] != ':' by {
        assert(!separator_at(path, k));
    }
}

} // verus!
