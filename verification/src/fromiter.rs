//! Collecting a sequence of byte-like items into a builder by
//! concatenation: the core that the string and byte types share.

use vstd::prelude::*;

use crate::MAByteStringBuilder;
use crate::join::Joinable;
use crate::join::join_spec;
use crate::join::join_views;
use crate::join::lemma_join_spec_snoc;
use crate::layout::spec_max_len;

verus! {

/// The concatenation of the bytes each item contributes.
pub open spec fn concat_views<T: Joinable>(items: Seq<T>) -> Seq<u8> {
    join_spec(join_views(items), Seq::<u8>::empty())
}

/// Concatenation is joining with an empty separator, one item at a
/// time.
proof fn lemma_concat_snoc<T: Joinable>(items: Seq<T>, i: int)
    requires
        0 <= i < items.len(),
    ensures
        concat_views(items.subrange(0, i + 1)) == concat_views(items.subrange(0, i))
            + items[i].join_view(),
{
    lemma_join_spec_snoc(
        join_views(items.subrange(0, i)),
        Seq::<u8>::empty(),
        items[i].join_view(),
    );
    assert(join_views(items.subrange(0, i + 1)) =~= join_views(items.subrange(0, i)).push(
        items[i].join_view(),
    ));
    if items.subrange(0, i).len() == 0 {
        assert(concat_views(items.subrange(0, i)) + items[i].join_view() =~= items[i].join_view());
    } else {
        assert(concat_views(items.subrange(0, i)) + Seq::<u8>::empty() + items[i].join_view()
            =~= concat_views(items.subrange(0, i)) + items[i].join_view());
    }
}

/// A longer prefix concatenates to a sequence at least as long.
proof fn lemma_concat_prefix_len<T: Joinable>(items: Seq<T>, i: int)
    requires
        0 <= i <= items.len(),
    ensures
        concat_views(items.subrange(0, i)).len() <= concat_views(items).len(),
    decreases items.len() - i,
{
    if i == items.len() {
        assert(items.subrange(0, i) =~= items);
    } else {
        lemma_concat_prefix_len(items, i + 1);
        lemma_concat_snoc(items, i);
    }
}

/// Appends the concatenation of the items to `result`: the shared
/// core of collecting string-like items.  The result is sized once,
/// then each item is appended in turn.
pub fn from_iter_stringlike_core<T: Joinable>(result: &mut MAByteStringBuilder, items: &[T])
    requires
        old(result)@.len() + concat_views(items@).len() <= spec_max_len(),
    ensures
        final(result)@ == old(result)@ + concat_views(items@),
{
    let n = items.len();
    let mut buf = crate::JoinableBuf::new();

    // first pass: how many bytes the items contribute
    let mut total: usize = 0;
    let mut i: usize = 0;
    while i < n
        invariant
            i <= n,
            n == items@.len(),
            concat_views(items@).len() <= spec_max_len(),
            total == concat_views(items@.subrange(0, i as int)).len(),
        decreases n - i,
    {
        proof {
            lemma_concat_snoc(items@, i as int);
            lemma_concat_prefix_len(items@, i + 1);
        }
        let piece = items[i].join_prepare(&mut buf);
        total = total + piece.len();
        i += 1;
    }
    proof {
        assert(items@.subrange(0, n as int) =~= items@);
    }

    // second pass: reserve once, then append each item
    let start = result.len();
    result.reserve(start + total);
    let mut i: usize = 0;
    while i < n
        invariant
            i <= n,
            n == items@.len(),
            concat_views(items@).len() <= spec_max_len(),
            old(result)@.len() + concat_views(items@).len() <= spec_max_len(),
            result@ == old(result)@ + concat_views(items@.subrange(0, i as int)),
        decreases n - i,
    {
        proof {
            lemma_concat_snoc(items@, i as int);
            lemma_concat_prefix_len(items@, i + 1);
        }
        let piece = items[i].join_prepare(&mut buf);
        result.push_slice(piece);
        proof {
            assert(old(result)@ + concat_views(items@.subrange(0, i as int))
                + items@[i as int].join_view() =~= old(result)@ + concat_views(
                items@.subrange(0, i + 1),
            ));
        }
        i += 1;
    }
    proof {
        assert(items@.subrange(0, n as int) =~= items@);
    }
}

} // verus!
