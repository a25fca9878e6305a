//! The library-wide laws, stated over the views and spec state that
//! the public contracts use, and proved once and for all.

use vstd::prelude::*;

use crate::BufKind;
use crate::MAByteString;
use crate::MAByteStringBuilder;
use crate::layout::SHORT_CAP;

verus! {

/// Round trip: constructing a buffer from a byte sequence and
/// converting it back yields the original bytes.  Every constructor
/// ensures that the new buffer's view equals its input, and
/// `into_vec` ensures that the output equals the buffer's view; this
/// law records that the two contracts compose to the identity.
pub proof fn lemma_round_trip(s: Seq<u8>, constructed: MAByteString, out: Seq<u8>)
    requires
        constructed@ == s,
        out == constructed@,
    ensures
        out == s,
{
}

/// Copy-on-write isolation: a duplicate starts with the original's
/// bytes, and growing the duplicate relates only the duplicate's old
/// and new views — so the original keeps its bytes, and the two
/// handles' contents diverge as soon as anything is appended.
pub proof fn lemma_cow_isolation(
    a: MAByteString,
    duplicate: MAByteString,
    mutated: MAByteString,
    pushed: Seq<u8>,
)
    requires
        duplicate@ == a@,
        mutated@ == duplicate@ + pushed,
    ensures
        mutated@ == a@ + pushed,
        pushed.len() > 0 ==> mutated@ != a@,
{
    assert(mutated@.len() == a@.len() + pushed.len());
}

/// Capacity monotonicity: whatever branch `reserve` takes, the
/// resulting capacity covers the request and the bytes are unchanged.
/// The two `requires` clauses are exactly the relation that
/// [`MAByteString::reserve`] ensures between its pre- and post-state.
pub proof fn lemma_reserve_capacity(pre: MAByteString, post: MAByteString, mincap: usize)
    requires
        post@ == pre@,
        pre.kind() == BufKind::Short && mincap <= SHORT_CAP ==> post.kind() == BufKind::Short,
        !(pre.kind() == BufKind::Short && mincap <= SHORT_CAP) ==> post.spec_capacity() >= mincap,
    ensures
        post@ == pre@,
        post.spec_capacity() >= mincap || (post.kind() == BufKind::Short && mincap <= SHORT_CAP),
        post.kind() == BufKind::Short ==> post.spec_capacity() == SHORT_CAP,
        post.spec_capacity() >= mincap,
{
    crate::bytestring::lemma_kind_capacity(post);
}

/// Allocation bound for duplication, as far as the model reaches: a
/// duplicate always carries the same bytes and the same capacity as
/// its source (no payload is ever copied), and only the first
/// duplication of a uniquely owned buffer changes the ownership
/// bookkeeping — every later duplicate of the resulting handles finds
/// the control block already installed.  The three `requires` clauses
/// are the kind mapping [`MAByteString::clone`] ensures.
pub proof fn lemma_duplication_installs_once(
    first: MAByteString,
    second: MAByteString,
    third: MAByteString,
)
    requires
        second@ == first@ && second.spec_capacity() == first.spec_capacity(),
        third@ == second@ && third.spec_capacity() == second.spec_capacity(),
        first.kind() == BufKind::Unattached ==> second.kind() == BufKind::CbOwned,
        second.kind() == BufKind::CbOwned ==> third.kind() == BufKind::CbOwned,
    ensures
        third@ == first@,
        third.spec_capacity() == first.spec_capacity(),
        first.kind() == BufKind::Unattached ==> second.kind() == BufKind::CbOwned && third.kind()
            == BufKind::CbOwned,
{
}

/// Idempotent clear, builder side: clearing a builder always empties
/// it while preserving both its mode and its capacity, because a
/// builder's payload is uniquely owned.  This is exactly what
/// [`MAByteStringBuilder::clear`] ensures; the shareable type makes
/// the same promise only when it is the sole owner of its payload,
/// and otherwise resets to an empty short buffer.
pub proof fn lemma_clear_builder(
    pre: MAByteStringBuilder,
    post: MAByteStringBuilder,
)
    requires
        post@ == Seq::<u8>::empty(),
        post.is_short() == pre.is_short(),
        post.spec_capacity() == pre.spec_capacity(),
    ensures
        post@.len() == 0,
        post.spec_capacity() == pre.spec_capacity(),
{
}

} // verus!
