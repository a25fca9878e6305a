//! The shared heap payload behind a long, shareable buffer, and the
//! small trusted boundary through which the library drives the
//! standard library's reference-counted pointer.
//!
//! A `Payload` bundles the heap bytes with one atomic word standing in
//! for the lazily installed control block: duplication of a buffer
//! that has no control block yet publishes one through this flag, so
//! every handle on the same allocation observes the installation.

use vstd::prelude::*;

use vstd::string::StringSliceAdditionalSpecFns;

use std::sync::Arc;
use std::sync::atomic::AtomicBool;

use vstd::utf8::encode_utf8;
use vstd::utf8::valid_utf8;

use crate::layout::SHORT_CAP;
use crate::layout::alloc_cap;
use crate::layout::spec_max_len;
use crate::layout::spec_round_up_cb;

verus! {

/// One shared heap allocation: the payload bytes plus the word that
/// records whether a separately owned control block was installed by a
/// duplication.  The reference count itself lives in the enclosing
/// `Arc`.
#[derive(Debug)]
pub(crate) struct Payload {
    pub(crate) bytes: Vec<u8>,
    pub(crate) owned_cb: AtomicBool,
}

/// Relies on `Arc::try_unwrap`: hands the payload back exactly when
/// this handle was the only one left, and returns the handle untouched
/// otherwise.  This is the uniqueness gate every in-place mutation
/// goes through.
#[verifier::external_body]
pub(crate) fn arc_try_unwrap(v: Arc<Payload>) -> (result: Result<Payload, Arc<Payload>>)
    ensures
        match result {
            Ok(t) => t == v,
            Err(e) => e == v,
        },
{
    Arc::try_unwrap(v)
}

/// Relies on `Arc::strong_count`: the number of live handles currently
/// sharing the allocation, of which this handle is one.  The value is
/// only a snapshot; nothing else is promised of it.
#[verifier::external_body]
pub(crate) fn arc_strong_count(v: &Arc<Payload>) -> (r: usize)
    ensures
        r >= 1,
{
    Arc::strong_count(v)
}

/// Relies on `Vec::capacity`: how many bytes the allocation can hold,
/// which is never less than what it currently holds.
#[verifier::external_body]
pub(crate) fn vec_capacity(v: &Vec<u8>) -> (r: usize)
    ensures
        r >= v@.len(),
{
    v.capacity()
}

/// Uniquely owned raw storage, the common currency between the
/// shareable buffers and the builders: an inline payload, or a heap
/// vector with its capacity bookkeeping.
pub(crate) enum RawBuf {
    Inline { len: u8, data: [u8; 31] },
    Heap { bytes: Vec<u8>, cap: usize },
}

/// The payload bytes a raw buffer holds.
pub(crate) open spec fn raw_view(t: RawBuf) -> Seq<u8> {
    match t {
        RawBuf::Inline { len, data } => data@.subrange(0, len as int),
        RawBuf::Heap { bytes, cap } => bytes@,
    }
}

/// Well-formedness of raw storage.
pub(crate) open spec fn raw_inv(t: RawBuf) -> bool {
    match t {
        RawBuf::Inline { len, data } => len as int <= SHORT_CAP,
        RawBuf::Heap { bytes, cap } => {
            &&& 0 < cap as int <= spec_max_len() + 16
            &&& bytes@.len() <= cap
            &&& bytes@.len() <= spec_max_len()
        },
    }
}

/// A fresh uniquely owned heap allocation holding a copy of `s`, with
/// the sizing every buffer type uses: room for `max(s.len(), mincap)`
/// bytes rounded up for alignment, plus one spare control-block slot.
pub(crate) fn fresh_heap(s: &[u8], mincap: usize) -> (t: (Vec<u8>, usize))
    requires
        s@.len() <= spec_max_len(),
        mincap <= spec_max_len(),
    ensures
        t.0@ == s@,
        t.1 == ({
            let target = if s@.len() > mincap {
                s@.len() as int
            } else {
                mincap as int
            };
            spec_round_up_cb(target) + 8
        }),
        s@.len() <= t.1,
        mincap <= t.1,
        t.1 <= spec_max_len() + 16,
{
    let target = if s.len() > mincap {
        s.len()
    } else {
        mincap
    };
    let cap = alloc_cap(target);
    let mut bytes: Vec<u8> = Vec::with_capacity(cap);
    extend_bytes(&mut bytes, s);
    proof {
        assert(Seq::<u8>::empty() + s@ =~= s@);
    }
    (bytes, cap)
}

/// Appends every byte of `src` to `dst`.
pub(crate) fn extend_bytes(dst: &mut Vec<u8>, src: &[u8])
    ensures
        final(dst)@ == old(dst)@ + src@,
{
    let n = src.len();
    let mut i: usize = 0;
    while i < n
        invariant
            i <= n,
            n == src@.len(),
            dst@ == old(dst)@ + src@.subrange(0, i as int),
        decreases n - i,
    {
        dst.push(src[i]);
        proof {
            assert(old(dst)@ + src@.subrange(0, i as int) + seq![src@[i as int]] =~= old(dst)@
                + src@.subrange(0, i + 1));
        }
        i += 1;
    }
    proof {
        assert(src@.subrange(0, n as int) =~= src@);
    }
}

/// Relies on `str::from_utf8`: succeeds exactly when the bytes are
/// valid UTF-8, and then returns a string view of those same bytes.
#[verifier::external_body]
pub(crate) fn bytes_as_str<'a>(v: &'a [u8]) -> (r: Option<&'a str>)
    ensures
        match r {
            Some(s) => valid_utf8(v@) && s.spec_bytes() == v@,
            None => !valid_utf8(v@),
        },
{
    match core::str::from_utf8(v) {
        Ok(s) => Some(s),
        Err(_) => None,
    }
}

/// Relies on `String::into_bytes`: the UTF-8 bytes of the string,
/// with the allocation handed over rather than copied.
#[verifier::external_body]
pub(crate) fn string_into_bytes(s: String) -> (v: Vec<u8>)
    ensures
        v@ == encode_utf8(s@),
{
    s.into_bytes()
}

/// Relies on `String::from_utf8`: succeeds exactly when the bytes are
/// valid UTF-8, taking over the allocation and keeping the bytes as
/// they were.
#[verifier::external_body]
pub(crate) fn string_from_utf8(v: Vec<u8>) -> (r: Option<String>)
    ensures
        match r {
            Some(s) => valid_utf8(v@) && encode_utf8(s@) == v@,
            None => !valid_utf8(v@),
        },
{
    match String::from_utf8(v) {
        Ok(s) => Some(s),
        Err(_) => None,
    }
}

/// Compares two byte slices for content equality.
pub(crate) fn slice_eq(a: &[u8], b: &[u8]) -> (r: bool)
    ensures
        r == (a@ == b@),
{
    let n = a.len();
    if n != b.len() {
        return false;
    }
    let mut i: usize = 0;
    while i < n
        invariant
            i <= n,
            n == a@.len(),
            n == b@.len(),
            forall|j: int| 0 <= j < i ==> a@[j] == b@[j],
        decreases n - i,
    {
        if a[i] != b[i] {
            return false;
        }
        i += 1;
    }
    proof {
        assert(a@ =~= b@);
    }
    true
}

/// Lexicographic comparison of two byte sequences.
pub open spec fn spec_cmp_bytes(a: Seq<u8>, b: Seq<u8>) -> core::cmp::Ordering
    decreases a.len(),
{
    if a.len() == 0 && b.len() == 0 {
        core::cmp::Ordering::Equal
    } else if a.len() == 0 {
        core::cmp::Ordering::Less
    } else if b.len() == 0 {
        core::cmp::Ordering::Greater
    } else if a[0] < b[0] {
        core::cmp::Ordering::Less
    } else if a[0] > b[0] {
        core::cmp::Ordering::Greater
    } else {
        spec_cmp_bytes(a.drop_first(), b.drop_first())
    }
}

/// Dropping an equal first byte from both sides leaves the
/// comparison unchanged; iterated, common prefixes cancel.
proof fn lemma_cmp_skip(a: Seq<u8>, b: Seq<u8>, i: int)
    requires
        0 <= i <= a.len(),
        i <= b.len(),
        forall|j: int| 0 <= j < i ==> a[j] == b[j],
    ensures
        spec_cmp_bytes(a, b) == spec_cmp_bytes(a.skip(i), b.skip(i)),
    decreases i,
{
    if i == 0 {
        assert(a.skip(0) =~= a);
        assert(b.skip(0) =~= b);
    } else {
        assert(a[0] == b[0]);
        assert(a.skip(1).skip(i - 1) =~= a.skip(i));
        assert(b.skip(1).skip(i - 1) =~= b.skip(i));
        assert(a.drop_first() =~= a.skip(1));
        assert(b.drop_first() =~= b.skip(1));
        assert(forall|j: int| 0 <= j < i - 1 ==> a.skip(1)[j] == b.skip(1)[j]);
        lemma_cmp_skip(a.skip(1), b.skip(1), i - 1);
        assert(spec_cmp_bytes(a, b) == spec_cmp_bytes(a.drop_first(), b.drop_first()));
    }
}

/// Compares two byte slices lexicographically.
pub(crate) fn slice_cmp(a: &[u8], b: &[u8]) -> (r: core::cmp::Ordering)
    ensures
        r == spec_cmp_bytes(a@, b@),
{
    let na = a.len();
    let nb = b.len();
    let n = if na < nb {
        na
    } else {
        nb
    };
    let mut i: usize = 0;
    while i < n
        invariant
            i <= n,
            na == a@.len(),
            nb == b@.len(),
            n == if na < nb {
                na
            } else {
                nb
            },
            forall|j: int| 0 <= j < i ==> a@[j] == b@[j],
        decreases n - i,
    {
        if a[i] < b[i] {
            proof {
                lemma_cmp_skip(a@, b@, i as int);
            }
            return core::cmp::Ordering::Less;
        }
        if a[i] > b[i] {
            proof {
                lemma_cmp_skip(a@, b@, i as int);
            }
            return core::cmp::Ordering::Greater;
        }
        i += 1;
    }
    proof {
        lemma_cmp_skip(a@, b@, n as int);
    }
    if na < nb {
        core::cmp::Ordering::Less
    } else if na > nb {
        core::cmp::Ordering::Greater
    } else {
        core::cmp::Ordering::Equal
    }
}

/// Copies the bytes of a slice into a fresh `Vec`.
pub(crate) fn slice_to_vec(src: &[u8]) -> (r: Vec<u8>)
    ensures
        r@ == src@,
{
    let mut v: Vec<u8> = Vec::new();
    extend_bytes(&mut v, src);
    proof {
        assert(Seq::<u8>::empty() + src@ =~= src@);
    }
    v
}

} // verus!
