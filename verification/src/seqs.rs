//! Facts about sequences that the loops of this crate rest on.

use vstd::prelude::*;

verus! {

/// The prefix of length `i + 1` is the prefix of length `i` and the item
/// at position `i`.
pub proof fn lemma_take_step<A>(s: Seq<A>, i: int)
    requires
        0 <= i < s.len(),
    ensures
        s.take(i + 1).drop_last() == s.take(i),
        s.take(i + 1).last() == s[i],
        s.take(i + 1).len() == i + 1,
{
    assert(s.take(i + 1).drop_last() =~= s.take(i));
}

} // verus!
