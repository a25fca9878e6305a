//! Joining a sequence of byte-like items with a separator, and the
//! trait that says which item types can be joined.

use vstd::prelude::*;

use vstd::string::StringSliceAdditionalSpecFns;

use crate::MAByteString;
use crate::MAByteStringBuilder;
use crate::MAString;
use crate::MAStringBuilder;
use crate::layout::spec_max_len;

verus! {

/// Scratch space a joinable item may stage its bytes in, for item
/// types (such as single bytes) that have no slice of their own to
/// borrow.
pub struct JoinableBuf([u8; 4]);

impl JoinableBuf {
    /// Fresh scratch space.
    pub fn new() -> JoinableBuf {
        JoinableBuf([0; 4])
    }
}

/// Element types that the join methods accept.
pub trait Joinable {
    /// The bytes this item contributes.
    spec fn join_view(&self) -> Seq<u8>;

    /// Borrows the item's bytes, staging them in `buf` if needed.
    fn join_prepare<'a>(&'a self, buf: &'a mut JoinableBuf) -> (r: &'a [u8])
        ensures
            r@ == self.join_view(),
    ;
}

impl Joinable for u8 {
    open spec fn join_view(&self) -> Seq<u8> {
        seq![*self]
    }

    fn join_prepare<'a>(&'a self, buf: &'a mut JoinableBuf) -> (r: &'a [u8]) {
        buf.0[0] = *self;
        let r = vstd::slice::slice_subrange(buf.0.as_slice(), 0, 1);
        proof {
            assert(r@ =~= seq![*self]);
        }
        r
    }
}

impl Joinable for &[u8] {
    open spec fn join_view(&self) -> Seq<u8> {
        self@
    }

    fn join_prepare<'a>(&'a self, buf: &'a mut JoinableBuf) -> (r: &'a [u8]) {
        *self
    }
}

impl Joinable for &str {
    open spec fn join_view(&self) -> Seq<u8> {
        self.spec_bytes()
    }

    fn join_prepare<'a>(&'a self, buf: &'a mut JoinableBuf) -> (r: &'a [u8]) {
        self.as_bytes()
    }
}

impl Joinable for Vec<u8> {
    open spec fn join_view(&self) -> Seq<u8> {
        self@
    }

    fn join_prepare<'a>(&'a self, buf: &'a mut JoinableBuf) -> (r: &'a [u8]) {
        self.as_slice()
    }
}

impl Joinable for MAByteString {
    open spec fn join_view(&self) -> Seq<u8> {
        self@
    }

    fn join_prepare<'a>(&'a self, buf: &'a mut JoinableBuf) -> (r: &'a [u8]) {
        self.as_slice()
    }
}

impl Joinable for MAByteStringBuilder {
    open spec fn join_view(&self) -> Seq<u8> {
        self@
    }

    fn join_prepare<'a>(&'a self, buf: &'a mut JoinableBuf) -> (r: &'a [u8]) {
        self.as_slice()
    }
}

impl Joinable for MAString {
    open spec fn join_view(&self) -> Seq<u8> {
        self@
    }

    fn join_prepare<'a>(&'a self, buf: &'a mut JoinableBuf) -> (r: &'a [u8]) {
        self.as_bytes()
    }
}

impl Joinable for MAStringBuilder {
    open spec fn join_view(&self) -> Seq<u8> {
        self@
    }

    fn join_prepare<'a>(&'a self, buf: &'a mut JoinableBuf) -> (r: &'a [u8]) {
        self.as_bytes()
    }
}

/// The bytes each item of a slice contributes.
pub open spec fn join_views<T: Joinable>(items: Seq<T>) -> Seq<Seq<u8>> {
    Seq::new(items.len(), |k: int| items[k].join_view())
}

/// The items joined with `sep` between consecutive items.
pub open spec fn join_spec(items: Seq<Seq<u8>>, sep: Seq<u8>) -> Seq<u8>
    decreases items.len(),
{
    if items.len() == 0 {
        Seq::<u8>::empty()
    } else if items.len() == 1 {
        items[0]
    } else {
        items[0] + sep + join_spec(items.drop_first(), sep)
    }
}

/// Joining one more item appends a separator (except before the
/// first) and the item.
pub proof fn lemma_join_spec_snoc(items: Seq<Seq<u8>>, sep: Seq<u8>, x: Seq<u8>)
    ensures
        join_spec(items.push(x), sep) == if items.len() == 0 {
            x
        } else {
            join_spec(items, sep) + sep + x
        },
    decreases items.len(),
{
    if items.len() == 0 {
        assert(items.push(x)[0] =~= x);
    } else if items.len() == 1 {
        assert(items.push(x).drop_first() =~= seq![x]);
        assert(items.push(x)[0] == items[0]);
        assert(seq![x][0] == x);
        assert(join_spec(seq![x], sep) == x);
        assert(join_spec(items.push(x), sep) == items[0] + sep + join_spec(
            items.push(x).drop_first(),
            sep,
        ));
    } else {
        lemma_join_spec_snoc(items.drop_first(), sep, x);
        assert(items.push(x).drop_first() =~= items.drop_first().push(x));
        assert(items[0] + sep + (join_spec(items.drop_first(), sep) + sep + x) =~= (items[0] + sep
            + join_spec(items.drop_first(), sep)) + sep + x);
    }
}

/// A longer prefix of the items joins to a sequence at least as long.
proof fn lemma_join_prefix_len<T: Joinable>(items: Seq<T>, sep: Seq<u8>, i: int)
    requires
        0 <= i <= items.len(),
    ensures
        join_spec(join_views(items.subrange(0, i)), sep).len() <= join_spec(
            join_views(items),
            sep,
        ).len(),
    decreases items.len() - i,
{
    if i == items.len() {
        assert(items.subrange(0, i) =~= items);
    } else {
        lemma_join_prefix_len(items, sep, i + 1);
        lemma_join_spec_snoc(join_views(items.subrange(0, i)), sep, items[i].join_view());
        assert(join_views(items.subrange(0, i + 1)) =~= join_views(items.subrange(0, i)).push(
            items[i].join_view(),
        ));
    }
}

/// Joins the items of a slice, putting `joiner` between consecutive
/// items: first sizes the result, then builds it in one pass.
pub fn join_internal<T: Joinable>(joiner: &[u8], items: &[T]) -> (r: MAByteStringBuilder)
    requires
        join_spec(join_views(items@), joiner@).len() <= spec_max_len(),
    ensures
        r@ == join_spec(join_views(items@), joiner@),
{
    let ghost views = join_views(items@);
    let ghost sep = joiner@;
    let n = items.len();
    let mut buf = JoinableBuf::new();

    // first pass: how many bytes the joined result needs
    let mut total: usize = 0;
    let mut i: usize = 0;
    while i < n
        invariant
            i <= n,
            n == items@.len(),
            views == join_views(items@),
            sep == joiner@,
            join_spec(views, sep).len() <= spec_max_len(),
            total == join_spec(join_views(items@.subrange(0, i as int)), sep).len(),
        decreases n - i,
    {
        proof {
            lemma_join_spec_snoc(
                join_views(items@.subrange(0, i as int)),
                sep,
                items@[i as int].join_view(),
            );
            assert(join_views(items@.subrange(0, i + 1)) =~= join_views(
                items@.subrange(0, i as int),
            ).push(items@[i as int].join_view()));
            assert(items@.subrange(0, i as int) =~= items@.subrange(0, i + 1).subrange(
                0,
                i as int,
            ));
            lemma_join_prefix_len(items@, sep, i + 1);
        }
        let piece = items[i].join_prepare(&mut buf);
        if i > 0 {
            total = total + joiner.len();
        }
        total = total + piece.len();
        i += 1;
    }

    proof {
        assert(items@.subrange(0, n as int) =~= items@);
    }
    // second pass: reserve once, then append separators and items
    let mut result = MAByteStringBuilder::new();
    result.reserve(total);
    let mut i: usize = 0;
    while i < n
        invariant
            i <= n,
            n == items@.len(),
            views == join_views(items@),
            sep == joiner@,
            join_spec(views, sep).len() <= spec_max_len(),
            result@ == join_spec(join_views(items@.subrange(0, i as int)), sep),
        decreases n - i,
    {
        proof {
            lemma_join_spec_snoc(
                join_views(items@.subrange(0, i as int)),
                sep,
                items@[i as int].join_view(),
            );
            assert(join_views(items@.subrange(0, i + 1)) =~= join_views(
                items@.subrange(0, i as int),
            ).push(items@[i as int].join_view()));
            lemma_join_prefix_len(items@, sep, i + 1);
        }
        let piece = items[i].join_prepare(&mut buf);
        if i > 0 {
            result.push_slice(joiner);
        }
        result.push_slice(piece);
        i += 1;
    }
    proof {
        assert(items@.subrange(0, n as int) =~= items@);
    }
    result
}

} // verus!
