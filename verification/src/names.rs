//! Comparing symbol names.

use vstd::prelude::*;
use vstd::string::StrSliceExecFns;

verus! {

/// Whether `name` begins with `prefix`.
pub open spec fn has_prefix(name: Seq<char>, prefix: Seq<char>) -> bool {
    prefix.len() <= name.len() && name.subrange(0, prefix.len() as int) == prefix
}

/// Whether `name` begins with `prefix`.
pub fn starts_with(name: &str, prefix: &str) -> (found: bool)
    ensures
        found == has_prefix(name@, prefix@),
{
    let wanted: usize = prefix.unicode_len();
    if name.unicode_len() < wanted {
        return false;
    }
    let mut seen: usize = 0;
    while seen < wanted
        invariant
            seen <= wanted,
            wanted == prefix@.len(),
            wanted <= name@.len(),
            name@.subrange(0, seen as int) == prefix@.subrange(0, seen as int),
        decreases wanted - seen,
    {
        if name.get_char(seen) != prefix.get_char(seen) {
            return false;
        }
        proof {
            assert(name@.subrange(0, seen + 1) =~= name@.subrange(0, seen as int).push(
                name@[seen as int],
            ));
            assert(prefix@.subrange(0, seen + 1) =~= prefix@.subrange(0, seen as int).push(
                prefix@[seen as int],
            ));
        }
        seen = seen + 1;
    }
    proof {
        assert(prefix@.subrange(0, wanted as int) =~= prefix@);
    }
    true
}

/// Whether two names are the same.
pub fn same_name(name: &str, other: &str) -> (same: bool)
    ensures
        same == (name@ == other@),
{
    if name.unicode_len() != other.unicode_len() {
        return false;
    }
    let found = starts_with(name, other);
    proof {
        assert(name@.subrange(0, name@.len() as int) =~= name@);
    }
    found
}

} // verus!
