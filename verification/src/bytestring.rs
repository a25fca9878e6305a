//! The shareable byte buffer: inline storage for short payloads,
//! borrowed storage for static payloads, and reference-counted heap
//! storage — with a lazily installed control block — for everything
//! else.

use vstd::prelude::*;

use std::sync::Arc;
use std::sync::atomic::AtomicBool;
use std::sync::atomic::Ordering;

use crate::layout::CB_BYTES;
use crate::layout::SHORT_CAP;
use crate::layout::alloc_cap;
use crate::layout::max_len;
use crate::layout::round_up_cb;
use crate::layout::spec_max_len;
use crate::layout::spec_round_up_cb;
use crate::bytestringbuilder::MAByteStringBuilder;
use crate::shared::Payload;
use crate::shared::RawBuf;
use crate::shared::fresh_heap;
use crate::shared::raw_inv;
use crate::shared::raw_view;
use crate::shared::arc_strong_count;
use crate::shared::arc_try_unwrap;
use crate::shared::extend_bytes;
use crate::shared::slice_cmp;
use crate::shared::spec_cmp_bytes;
use crate::shared::slice_eq;
use crate::shared::slice_to_vec;
use crate::shared::vec_capacity;

verus! {

/// How a buffer currently owns its bytes, as far as this handle's own
/// bookkeeping goes.  A handle that records no control block may still
/// have had one installed behind its back by a duplication; only the
/// diagnostic mode string looks that far.
pub enum BufKind {
    /// Payload held inline in the handle itself.
    Short,
    /// Payload borrowed from static memory; never owned, never freed.
    Static,
    /// Heap payload with no control block recorded by this handle.
    Unattached,
    /// Heap payload with a control block inside the same allocation,
    /// occupying its tail.
    CbInline,
    /// Heap payload with a separately allocated control block.
    CbOwned,
}

/// Control-block bookkeeping carried by a long handle.
#[derive(Debug)]
enum CbState {
    /// No control block recorded.
    Unattached,
    /// An inline control block sits after the payload; bytes from
    /// `usable` on are reserved for it.
    Inline { usable: usize },
    /// A separately allocated control block.
    Owned,
}

#[derive(Debug)]
enum Repr {
    Short { len: u8, data: [u8; 31] },
    Static { data: &'static [u8] },
    Long { buf: Arc<Payload>, cap: usize, cb: CbState },
}

/// Usable payload capacity of a long representation: an inline
/// control block reserves the allocation's tail, a separate one costs
/// nothing.
spec fn cb_capacity(cb: CbState, cap: usize) -> int {
    match cb {
        CbState::Inline { usable } => usable as int,
        _ => cap as int,
    }
}

/// Well-formedness of the pieces of a long representation.
spec fn long_parts_inv(bytes: Seq<u8>, cap: usize, cb: CbState) -> bool {
    &&& 0 < cap as int <= spec_max_len() + 16
    &&& bytes.len() <= cap
    &&& bytes.len() <= spec_max_len()
    &&& match cb {
        CbState::Inline { usable } => bytes.len() <= usable && usable + CB_BYTES <= cap,
        _ => true,
    }
}

/// A byte buffer that minimizes allocations: payloads of at most
/// [`SHORT_CAP`] bytes live inline, static payloads are borrowed, and
/// long payloads live on the heap under shared, copy-on-write
/// ownership.  Duplicating a handle never copies the payload; mutation
/// first re-establishes unique ownership.
#[derive(Debug)]
pub struct MAByteString {
    r: Repr,
}

impl View for MAByteString {
    type V = Seq<u8>;

    closed spec fn view(&self) -> Seq<u8> {
        match self.r {
            Repr::Short { len, data } => data@.subrange(0, len as int),
            Repr::Static { data } => data@,
            Repr::Long { buf, cap, cb } => buf.bytes@,
        }
    }
}

impl MAByteString {
    #[verifier::type_invariant]
    closed spec fn inv(self) -> bool {
        match self.r {
            Repr::Short { len, data } => len as int <= SHORT_CAP,
            Repr::Static { data } => SHORT_CAP < data@.len() <= spec_max_len(),
            Repr::Long { buf, cap, cb } => long_parts_inv(buf.bytes@, cap, cb),
        }
    }

    /// The ownership mode this handle records for itself.
    pub closed spec fn kind(self) -> BufKind {
        match self.r {
            Repr::Short { .. } => BufKind::Short,
            Repr::Static { .. } => BufKind::Static,
            Repr::Long { buf, cap, cb } => match cb {
                CbState::Unattached => BufKind::Unattached,
                CbState::Inline { .. } => BufKind::CbInline,
                CbState::Owned => BufKind::CbOwned,
            },
        }
    }

    /// The capacity the handle reports: the inline budget for short
    /// buffers, zero for static buffers (nothing is owned), and for
    /// heap buffers the allocation size minus whatever an inline
    /// control block reserves.
    pub closed spec fn spec_capacity(self) -> int {
        match self.r {
            Repr::Short { .. } => SHORT_CAP as int,
            Repr::Static { .. } => 0,
            Repr::Long { buf, cap, cb } => match cb {
                CbState::Inline { usable } => usable as int,
                _ => cap as int,
            },
        }
    }

    /// Creates an empty buffer, in short mode; never allocates.
    pub fn new() -> (r: Self)
        ensures
            r@ == Seq::<u8>::empty(),
            r.kind() == BufKind::Short,
    {
        let r = MAByteString { r: Repr::Short { len: 0, data: [0; 31] } };
        proof {
            assert(r@ =~= Seq::<u8>::empty());
        }
        r
    }

    /// Creates a buffer holding a copy of `s`.  A payload that fits
    /// inline is stored in short mode; a longer one gets a heap
    /// allocation with an eagerly installed inline control block, so
    /// that later duplications allocate nothing.
    pub fn from_slice(s: &[u8]) -> (r: Self)
        requires
            s@.len() <= spec_max_len(),
        ensures
            r@ == s@,
            s@.len() <= SHORT_CAP <==> r.kind() == BufKind::Short,
            s@.len() > SHORT_CAP ==> r.kind() == BufKind::CbInline,
            r.spec_capacity() >= s@.len(),
    {
        if s.len() <= SHORT_CAP {
            Self::short_from_slice(s)
        } else {
            Self::fresh_long(s, 0, true)
        }
    }

    /// Creates a buffer that takes over the allocation of `v`; never
    /// copies the payload unless it fits inline.  When the vector's
    /// spare capacity has room for an inline control block, one is
    /// installed eagerly; otherwise the buffer starts out uniquely
    /// owned and a control block is allocated on first duplication.
    pub fn from_vec(v: Vec<u8>) -> (r: Self)
        requires
            v@.len() <= spec_max_len(),
        ensures
            r@ == v@,
            v@.len() <= SHORT_CAP <==> r.kind() == BufKind::Short,
            v@.len() > SHORT_CAP ==> r.kind() == BufKind::CbInline || r.kind()
                == BufKind::Unattached,
            r.spec_capacity() >= v@.len(),
    {
        if v.len() <= SHORT_CAP {
            Self::short_from_slice(v.as_slice())
        } else {
            let len = v.len();
            let real_cap = vec_capacity(&v);
            let ml = max_len();
            let cap = if real_cap > ml + 16 {
                ml + 16
            } else {
                real_cap
            };
            let cbstart0 = round_up_cb(len);
            let cb = if cbstart0 <= cap && cap - cbstart0 >= CB_BYTES {
                // park the control block at the aligned end of the
                // spare space, leaving as much usable room as possible
                let extra = ((cap - cbstart0 - CB_BYTES) / 8) * 8;
                proof {
                    crate::layout::lemma_round_down_cb(cap - cbstart0 - CB_BYTES);
                }
                CbState::Inline { usable: cbstart0 + extra }
            } else {
                CbState::Unattached
            };
            MAByteString {
                r: Repr::Long {
                    buf: Arc::new(Payload { bytes: v, owned_cb: AtomicBool::new(false) }),
                    cap,
                    cb,
                },
            }
        }
    }

    /// Creates a buffer that borrows `s` forever; never allocates, and
    /// neither do duplicates of the result.  A payload that fits
    /// inline is copied into short mode instead.
    pub fn from_static(s: &'static [u8]) -> (r: Self)
        requires
            s@.len() <= spec_max_len(),
        ensures
            r@ == s@,
            s@.len() <= SHORT_CAP <==> r.kind() == BufKind::Short,
            s@.len() > SHORT_CAP ==> r.kind() == BufKind::Static,
    {
        if s.len() <= SHORT_CAP {
            Self::short_from_slice(s)
        } else {
            MAByteString { r: Repr::Static { data: s } }
        }
    }

    /// Copies a slice that fits inline into a short-mode buffer.
    fn short_from_slice(s: &[u8]) -> (r: Self)
        requires
            s@.len() <= SHORT_CAP,
        ensures
            r@ == s@,
            r.kind() == BufKind::Short,
    {
        let n = s.len();
        let mut data: [u8; 31] = [0; 31];
        let mut i: usize = 0;
        while i < n
            invariant
                i <= n,
                n == s@.len(),
                n <= 31,
                data@.len() == 31,
                forall|j: int| 0 <= j < i ==> data@[j] == s@[j],
            decreases n - i,
        {
            data[i] = s[i];
            i += 1;
        }
        let r = MAByteString { r: Repr::Short { len: n as u8, data } };
        proof {
            assert(r@ =~= s@);
        }
        r
    }

    /// Builds a fresh heap buffer holding a copy of `s`, sized for at
    /// least `max(s.len(), mincap)` bytes plus an aligned slot for one
    /// control block.  With `allowcb` the control block is installed
    /// inline (sharing-ready); without it the tail slot is left as
    /// plain spare capacity and the buffer is uniquely owned.
    fn fresh_long(s: &[u8], mincap: usize, allowcb: bool) -> (r: Self)
        requires
            s@.len() <= spec_max_len(),
            mincap <= spec_max_len(),
        ensures
            r@ == s@,
            r.kind() == if allowcb {
                BufKind::CbInline
            } else {
                BufKind::Unattached
            },
            r.spec_capacity() == {
                let target = if s@.len() > mincap {
                    s@.len() as int
                } else {
                    mincap as int
                };
                if allowcb {
                    spec_round_up_cb(target)
                } else {
                    spec_round_up_cb(target) + 8
                }
            },
            r.spec_capacity() >= s@.len(),
            r.spec_capacity() >= mincap,
    {
        let (p, cap, cb) = Self::fresh_long_parts(s, mincap, allowcb);
        MAByteString { r: Repr::Long { buf: Arc::new(p), cap, cb } }
    }

    /// Builds the pieces of a fresh heap allocation holding a copy of
    /// `s`: the payload, the capacity, and the control-block state.
    /// See [`Self::fresh_long`] for the sizing policy.
    fn fresh_long_parts(s: &[u8], mincap: usize, allowcb: bool) -> (t: (Payload, usize, CbState))
        requires
            s@.len() <= spec_max_len(),
            mincap <= spec_max_len(),
        ensures
            t.0.bytes@ == s@,
            long_parts_inv(t.0.bytes@, t.1, t.2),
            if allowcb {
                t.2 is Inline
            } else {
                t.2 is Unattached
            },
            cb_capacity(t.2, t.1) == {
                let target = if s@.len() > mincap {
                    s@.len() as int
                } else {
                    mincap as int
                };
                if allowcb {
                    spec_round_up_cb(target)
                } else {
                    spec_round_up_cb(target) + 8
                }
            },
            cb_capacity(t.2, t.1) >= s@.len(),
            cb_capacity(t.2, t.1) >= mincap,
    {
        let target = if s.len() > mincap {
            s.len()
        } else {
            mincap
        };
        let cap = alloc_cap(target);
        let mut bytes: Vec<u8> = Vec::with_capacity(cap);
        extend_bytes(&mut bytes, s);
        proof {
            assert(Seq::<u8>::empty() + s@ =~= s@);
        }
        let cb = if allowcb {
            CbState::Inline { usable: round_up_cb(target) }
        } else {
            CbState::Unattached
        };
        (Payload { bytes, owned_cb: AtomicBool::new(false) }, cap, cb)
    }

    /// Re-establishes unique ownership of a long payload and makes its
    /// usable capacity at least `mincap`, following the growth rules:
    /// a shared or externally referenced payload is always detached
    /// into a fresh copy (the copy-on-write point); a uniquely owned
    /// payload is kept when it has room, sheds a now-pointless inline
    /// control block when only that block is in the way, and is
    /// otherwise reallocated with at least doubled capacity.
    fn long_with_room(buf: Arc<Payload>, cap: usize, cb: CbState, mincap: usize) -> (t: (
        Payload,
        usize,
        CbState,
    ))
        requires
            mincap <= spec_max_len(),
            long_parts_inv(buf.bytes@, cap, cb),
        ensures
            t.0.bytes@ == buf.bytes@,
            long_parts_inv(t.0.bytes@, t.1, t.2),
            cb_capacity(t.2, t.1) >= mincap,
    {
        match arc_try_unwrap(buf) {
            Err(other) => {
                // still shared: detach into a fresh, adequately sized copy
                let t = Self::fresh_long_parts(other.bytes.as_slice(), mincap, true);
                t
            },
            Ok(p) => {
                if mincap <= cap {
                    match cb {
                        CbState::Inline { usable } => {
                            if mincap <= usable {
                                (p, cap, CbState::Inline { usable })
                            } else {
                                // the inline control block alone is in the
                                // way; drop it to reclaim its space
                                (p, cap, CbState::Unattached)
                            }
                        },
                        CbState::Unattached => (p, cap, CbState::Unattached),
                        CbState::Owned => (p, cap, CbState::Owned),
                    }
                } else {
                    let ml = max_len();
                    let doubled = if cap > ml / 2 {
                        ml
                    } else {
                        cap * 2
                    };
                    let target = if mincap > doubled {
                        mincap
                    } else {
                        doubled
                    };
                    Self::fresh_long_parts(p.bytes.as_slice(), target, true)
                }
            },
        }
    }

    /// Ensures there is capacity for at least `mincap` bytes.  A short
    /// buffer that can already hold `mincap` bytes inline is left
    /// alone; any other buffer ends up on the heap, uniquely owned,
    /// with usable capacity at least `mincap` and its bytes unchanged.
    pub fn reserve(&mut self, mincap: usize)
        requires
            mincap <= spec_max_len(),
        ensures
            final(self)@ == old(self)@,
            old(self).kind() == BufKind::Short && mincap <= SHORT_CAP ==> final(self).kind()
                == BufKind::Short,
            !(old(self).kind() == BufKind::Short && mincap <= SHORT_CAP) ==> ({
                &&& final(self).spec_capacity() >= mincap
                &&& final(self).kind() != BufKind::Short
                &&& final(self).kind() != BufKind::Static
            }),
    {
        proof {
            use_type_invariant(&*self);
        }
        let mut tmp = MAByteString::new();
        core::mem::swap(self, &mut tmp);
        match tmp.r {
            Repr::Short { len, data } => {
                if mincap <= SHORT_CAP {
                    *self = MAByteString { r: Repr::Short { len, data } };
                } else {
                    // promote to a heap buffer, asking for at least
                    // twice the inline budget
                    let target = if mincap > 2 * SHORT_CAP {
                        mincap
                    } else {
                        2 * SHORT_CAP
                    };
                    let s = vstd::slice::slice_subrange(data.as_slice(), 0, len as usize);
                    *self = Self::fresh_long(s, target, true);
                }
            },
            Repr::Static { data } => {
                // static bytes are never grown in place; copy them out
                *self = Self::fresh_long(data, mincap, true);
            },
            Repr::Long { buf, cap, cb } => {
                let (p, ncap, ncb) = Self::long_with_room(buf, cap, cb, mincap);
                *self = MAByteString {
                    r: Repr::Long { buf: Arc::new(p), cap: ncap, cb: ncb },
                };
            },
        }
    }

    /// A read-only view of the payload bytes.
    pub fn as_slice(&self) -> (r: &[u8])
        ensures
            r@ == self@,
    {
        proof {
            use_type_invariant(self);
        }
        match &self.r {
            Repr::Short { len, data } => {
                vstd::slice::slice_subrange(data.as_slice(), 0, *len as usize)
            },
            Repr::Static { data } => data,
            Repr::Long { buf, cap, cb } => buf.bytes.as_slice(),
        }
    }

    /// The number of payload bytes.
    pub fn len(&self) -> (r: usize)
        ensures
            r == self@.len(),
    {
        self.as_slice().len()
    }

    /// The capacity the handle can report without looking at shared
    /// state: [`SHORT_CAP`] in short mode, `0` for a static buffer,
    /// and otherwise the allocation size minus the space an inline
    /// control block reserves.  Under copy-on-write ownership this is
    /// no promise that future operations will not allocate.
    pub fn capacity(&self) -> (r: usize)
        ensures
            r == self.spec_capacity(),
    {
        proof {
            use_type_invariant(self);
        }
        match &self.r {
            Repr::Short { .. } => SHORT_CAP,
            Repr::Static { .. } => 0,
            Repr::Long { buf, cap, cb } => match cb {
                CbState::Inline { usable } => *usable,
                _ => *cap,
            },
        }
    }

    /// Empties the buffer.  A solely referenced heap buffer keeps its
    /// mode and capacity so later appends can reuse the allocation; a
    /// buffer whose payload other handles still reference is reset to
    /// a fresh empty short buffer instead of touching shared memory.
    /// Short and static buffers always reset to empty short mode.
    pub fn clear(&mut self)
        ensures
            final(self)@ == Seq::<u8>::empty(),
            old(self).kind() == BufKind::Short ==> final(self).kind() == BufKind::Short,
            old(self).kind() == BufKind::Static ==> final(self).kind() == BufKind::Short,
            final(self).kind() == BufKind::Short || (final(self).kind() == old(self).kind()
                && final(self).spec_capacity() == old(self).spec_capacity()),
    {
        proof {
            use_type_invariant(&*self);
        }
        let mut tmp = MAByteString::new();
        core::mem::swap(self, &mut tmp);
        match tmp.r {
            Repr::Short { .. } => {},
            Repr::Static { .. } => {},
            Repr::Long { buf, cap, cb } => {
                match arc_try_unwrap(buf) {
                    Ok(mut p) => {
                        // solely referenced: reuse the allocation
                        p.bytes.clear();
                        *self = MAByteString { r: Repr::Long { buf: Arc::new(p), cap, cb } };
                    },
                    Err(other) => {
                        // genuinely shared: detach, leaving the other
                        // handles' bytes untouched
                    },
                }
            },
        }
    }

    /// Converts the buffer into a plain `Vec`.  A solely referenced
    /// heap payload is handed over without copying; anything else is
    /// copied out.
    pub fn into_vec(self) -> (v: Vec<u8>)
        ensures
            v@ == self@,
    {
        proof {
            use_type_invariant(&self);
        }
        match self.r {
            Repr::Short { len, data } => {
                slice_to_vec(vstd::slice::slice_subrange(data.as_slice(), 0, len as usize))
            },
            Repr::Static { data } => slice_to_vec(data),
            Repr::Long { buf, cap, cb } => {
                match arc_try_unwrap(buf) {
                    Ok(p) => p.bytes,
                    Err(other) => slice_to_vec(other.bytes.as_slice()),
                }
            },
        }
    }

    /// Appends `other` to the buffer.  A short buffer with room grows
    /// in place; otherwise the buffer moves to (or stays on) the heap
    /// with unique ownership, detaching from any sharing first.
    pub fn push_slice(&mut self, other: &[u8])
        requires
            old(self)@.len() + other@.len() <= spec_max_len(),
        ensures
            final(self)@ == old(self)@ + other@,
            old(self).kind() == BufKind::Short && old(self)@.len() + other@.len() <= SHORT_CAP
                ==> final(self).kind() == BufKind::Short,
            !(old(self).kind() == BufKind::Short && old(self)@.len() + other@.len() <= SHORT_CAP)
                ==> final(self).kind() != BufKind::Short && final(self).kind() != BufKind::Static
                && final(self).spec_capacity() >= old(self)@.len() + other@.len(),
    {
        proof {
            use_type_invariant(&*self);
        }
        let mut tmp = MAByteString::new();
        core::mem::swap(self, &mut tmp);
        match tmp.r {
            Repr::Short { len, data } => {
                let n = len as usize;
                if other.len() <= SHORT_CAP - n {
                    let mut data = data;
                    let m = other.len();
                    let mut i: usize = 0;
                    while i < m
                        invariant
                            i <= m,
                            m == other@.len(),
                            n + m <= 31,
                            data@.len() == 31,
                            forall|j: int| 0 <= j < n ==> data@[j] == old(self)@[j],
                            forall|j: int| 0 <= j < i ==> data@[n + j] == other@[j],
                            n == old(self)@.len(),
                        decreases m - i,
                    {
                        data[n + i] = other[i];
                        i += 1;
                    }
                    let r = MAByteString { r: Repr::Short { len: (n + m) as u8, data } };
                    proof {
                        assert(r@ =~= old(self)@ + other@);
                    }
                    *self = r;
                } else {
                    let total = n + other.len();
                    let target = if total > 2 * SHORT_CAP {
                        total
                    } else {
                        2 * SHORT_CAP
                    };
                    let s = vstd::slice::slice_subrange(data.as_slice(), 0, n);
                    let (mut p, cap, cb) = Self::fresh_long_parts(s, target, true);
                    extend_bytes(&mut p.bytes, other);
                    *self = MAByteString { r: Repr::Long { buf: Arc::new(p), cap, cb } };
                }
            },
            Repr::Static { data } => {
                let total = data.len() + other.len();
                let (mut p, cap, cb) = Self::fresh_long_parts(data, total, true);
                extend_bytes(&mut p.bytes, other);
                *self = MAByteString { r: Repr::Long { buf: Arc::new(p), cap, cb } };
            },
            Repr::Long { buf, cap, cb } => {
                let total = buf.bytes.len() + other.len();
                let (mut p, ncap, ncb) = Self::long_with_room(buf, cap, cb, total);
                extend_bytes(&mut p.bytes, other);
                *self = MAByteString { r: Repr::Long { buf: Arc::new(p), cap: ncap, cb: ncb } };
            },
        }
    }

    /// Tears the buffer down into uniquely owned raw storage.  A
    /// solely owned heap payload is handed over with its capacity; a
    /// static or still-shared payload is copied into a fresh
    /// allocation.
    pub(crate) fn into_raw(self) -> (t: RawBuf)
        ensures
            raw_view(t) == self@,
            raw_inv(t),
            t is Inline <==> self.kind() == BufKind::Short,
    {
        proof {
            use_type_invariant(&self);
        }
        match self.r {
            Repr::Short { len, data } => RawBuf::Inline { len, data },
            Repr::Static { data } => {
                let (bytes, cap) = fresh_heap(data, 0);
                RawBuf::Heap { bytes, cap }
            },
            Repr::Long { buf, cap, cb } => match arc_try_unwrap(buf) {
                Ok(p) => RawBuf::Heap { bytes: p.bytes, cap },
                Err(other) => {
                    let (bytes, ncap) = fresh_heap(other.bytes.as_slice(), 0);
                    RawBuf::Heap { bytes, cap: ncap }
                },
            },
        }
    }

    /// Converts a builder into a shareable buffer, reusing its
    /// allocation.  When the spare capacity after the payload has room
    /// for an aligned control block, an inline one is installed so
    /// that the first duplication allocates nothing.
    pub fn from_builder(b: MAByteStringBuilder) -> (r: Self)
        ensures
            r@ == b@,
            b.is_short() <==> r.kind() == BufKind::Short,
            !b.is_short() ==> r.kind() == (if spec_round_up_cb(b@.len() as int) + CB_BYTES
                <= b.spec_capacity() {
                BufKind::CbInline
            } else {
                BufKind::Unattached
            }),
            !b.is_short() ==> r.spec_capacity() >= b@.len(),
    {
        match b.into_raw() {
            RawBuf::Inline { len, data } => MAByteString { r: Repr::Short { len, data } },
            RawBuf::Heap { bytes, cap } => {
                let len = bytes.len();
                let cbstart = round_up_cb(len);
                let cb = if cbstart <= cap && cap - cbstart >= CB_BYTES {
                    CbState::Inline { usable: cbstart }
                } else {
                    CbState::Unattached
                };
                MAByteString {
                    r: Repr::Long {
                        buf: Arc::new(Payload { bytes, owned_cb: AtomicBool::new(false) }),
                        cap,
                        cb,
                    },
                }
            },
        }
    }

    /// The current mode of the buffer, for diagnostics and tests.  The
    /// strings are not a stability guarantee.  Whether a shared-mode
    /// buffer is "(unique)" or "(shared)", and whether a buffer whose
    /// handle records no control block has had one installed by a
    /// duplication, depends on a snapshot of shared state; the
    /// contract therefore only ties the label down as far as this
    /// handle's own bookkeeping reaches.
    pub fn get_mode(&self) -> (m: &'static str)
        ensures
            mode_label_ok(self.kind(), m@),
    {
        proof {
            use_type_invariant(self);
        }
        match &self.r {
            Repr::Short { .. } => "short",
            Repr::Static { .. } => "static",
            Repr::Long { buf, cap, cb } => match cb {
                CbState::Inline { .. } => {
                    if arc_strong_count(buf) <= 1 {
                        "cbinline (unique)"
                    } else {
                        "cbinline (shared)"
                    }
                },
                CbState::Owned => {
                    if arc_strong_count(buf) <= 1 {
                        "cbowned (unique)"
                    } else {
                        "cbowned (shared)"
                    }
                },
                CbState::Unattached => {
                    if buf.owned_cb.load(Ordering::Relaxed) {
                        // a duplication of some earlier handle installed
                        // a control block behind our back
                        if arc_strong_count(buf) <= 1 {
                            "cbowned (unique)"
                        } else {
                            "cbowned (shared)"
                        }
                    } else {
                        "unique"
                    }
                },
            },
        }
    }
}

/// The mode labels [`MAByteString::get_mode`] may report for a handle
/// in the given state.  Labels that depend on the shared reference
/// count or on a control block installed by another handle cannot be
/// pinned down further.
pub open spec fn mode_label_ok(k: BufKind, m: Seq<char>) -> bool {
    match k {
        BufKind::Short => m == "short"@,
        BufKind::Static => m == "static"@,
        BufKind::CbInline => m == "cbinline (unique)"@ || m == "cbinline (shared)"@,
        BufKind::CbOwned => m == "cbowned (unique)"@ || m == "cbowned (shared)"@,
        BufKind::Unattached => m == "unique"@ || m == "cbowned (unique)"@ || m
            == "cbowned (shared)"@,
    }
}

impl Clone for MAByteString {
    /// Duplicates the handle without copying the payload.  Duplicating
    /// a uniquely owned heap buffer installs a separately allocated
    /// control block (visible to both handles); any further
    /// duplication only adjusts the reference count.
    fn clone(&self) -> (r: Self)
        ensures
            r@ == self@,
            r.spec_capacity() == self.spec_capacity(),
            match self.kind() {
                BufKind::Short => r.kind() == BufKind::Short,
                BufKind::Static => r.kind() == BufKind::Static,
                BufKind::CbInline => r.kind() == BufKind::CbInline,
                BufKind::CbOwned => r.kind() == BufKind::CbOwned,
                BufKind::Unattached => r.kind() == BufKind::CbOwned,
            },
    {
        proof {
            use_type_invariant(self);
        }
        match &self.r {
            Repr::Short { len, data } => MAByteString { r: Repr::Short { len: *len, data: *data } },
            Repr::Static { data } => MAByteString { r: Repr::Static { data: *data } },
            Repr::Long { buf, cap, cb } => {
                let ncb = match cb {
                    CbState::Inline { usable } => CbState::Inline { usable: *usable },
                    CbState::Owned => CbState::Owned,
                    CbState::Unattached => {
                        // first duplication of a uniquely owned buffer:
                        // publish the control block so the source handle
                        // observes the new sharing too
                        buf.owned_cb.store(true, Ordering::Relaxed);
                        CbState::Owned
                    },
                };
                MAByteString { r: Repr::Long { buf: buf.clone(), cap: *cap, cb: ncb } }
            },
        }
    }
}

/// What the closed capacity function reports for the inline and
/// static modes.
pub proof fn lemma_kind_capacity(b: MAByteString)
    ensures
        b.kind() == BufKind::Short ==> b.spec_capacity() == SHORT_CAP,
        b.kind() == BufKind::Static ==> b.spec_capacity() == 0,
{
}

/// The low hexadecimal digit for a nibble.
pub open spec fn spec_hex_digit(n: u8) -> u8 {
    if n < 10 {
        (n + 0x30) as u8
    } else {
        (n + 0x57) as u8
    }
}

/// How one byte appears in the debug form: printable ASCII stands for
/// itself, backslash and double quote are escaped with a backslash,
/// and everything else becomes a two-digit hex escape.
pub open spec fn spec_byte_escape(c: u8) -> Seq<u8> {
    if c == 0x5C {
        seq![0x5Cu8, 0x5Cu8]
    } else if c == 0x22 {
        seq![0x5Cu8, 0x22u8]
    } else if 0x20 <= c <= 0x7E {
        seq![c]
    } else {
        seq![0x5Cu8, 0x78u8, spec_hex_digit((c >> 4) as u8), spec_hex_digit((c & 0xF) as u8)]
    }
}

/// The escapes of every byte, concatenated.
pub open spec fn spec_bytes_escaped(s: Seq<u8>) -> Seq<u8>
    decreases s.len(),
{
    if s.len() == 0 {
        Seq::<u8>::empty()
    } else {
        spec_byte_escape(s[0]) + spec_bytes_escaped(s.drop_first())
    }
}

/// Escaping one more byte appends its escape.
pub proof fn lemma_bytes_escaped_push(s: Seq<u8>, c: u8)
    ensures
        spec_bytes_escaped(s.push(c)) == spec_bytes_escaped(s) + spec_byte_escape(c),
    decreases s.len(),
{
    if s.len() == 0 {
        assert(s.push(c).drop_first() =~= Seq::<u8>::empty());
        assert(s.push(c)[0] == c);
        assert(spec_byte_escape(c) + spec_bytes_escaped(Seq::<u8>::empty()) =~= spec_byte_escape(
            c,
        ));
        assert(spec_bytes_escaped(s) + spec_byte_escape(c) =~= spec_byte_escape(c));
    } else {
        lemma_bytes_escaped_push(s.drop_first(), c);
        assert(s.push(c).drop_first() =~= s.drop_first().push(c));
        assert(s.push(c)[0] == s[0]);
        assert(spec_byte_escape(s[0]) + (spec_bytes_escaped(s.drop_first()) + spec_byte_escape(c))
            =~= (spec_byte_escape(s[0]) + spec_bytes_escaped(s.drop_first())) + spec_byte_escape(
            c,
        ));
    }
}

/// The low hexadecimal digit for a nibble.
fn hex_digit(n: u8) -> (r: u8)
    requires
        n < 16,
    ensures
        r == spec_hex_digit(n),
{
    if n < 10 {
        n + 0x30
    } else {
        n + 0x57
    }
}

/// The debug form of a byte sequence: a `b"..."` literal whose body
/// escapes backslashes, double quotes, and non-printable bytes.
pub fn bytes_debug(s: &[u8]) -> (r: Vec<u8>)
    requires
        4 * s@.len() + 3 <= usize::MAX,
    ensures
        r@ == seq![0x62u8, 0x22u8] + spec_bytes_escaped(s@) + seq![0x22u8],
{
    let n = s.len();
    let mut r: Vec<u8> = Vec::new();
    r.push(0x62);
    r.push(0x22);
    let mut i: usize = 0;
    while i < n
        invariant
            i <= n,
            n == s@.len(),
            4 * n + 3 <= usize::MAX,
            r@ == seq![0x62u8, 0x22u8] + spec_bytes_escaped(s@.subrange(0, i as int)),
            r@.len() <= 2 + 4 * i,
        decreases n - i,
    {
        let c = s[i];
        proof {
            lemma_bytes_escaped_push(s@.subrange(0, i as int), c);
            assert(s@.subrange(0, i + 1) =~= s@.subrange(0, i as int).push(c));
        }
        if c == 0x5C {
            r.push(0x5C);
            r.push(0x5C);
        } else if c == 0x22 {
            r.push(0x5C);
            r.push(0x22);
        } else if 0x20 <= c && c <= 0x7E {
            r.push(c);
        } else {
            r.push(0x5C);
            r.push(0x78);
            proof {
                assert((c >> 4) < 16 && (c & 0xF) < 16) by (bit_vector);
            }
            r.push(hex_digit(c >> 4));
            r.push(hex_digit(c & 0xF));
        }
        proof {
            assert(r@ =~= seq![0x62u8, 0x22u8] + spec_bytes_escaped(s@.subrange(0, i + 1)));
        }
        i += 1;
    }
    proof {
        assert(s@.subrange(0, n as int) =~= s@);
    }
    r.push(0x22);
    proof {
        assert(r@ =~= seq![0x62u8, 0x22u8] + spec_bytes_escaped(s@) + seq![0x22u8]);
    }
    r
}

impl PartialEq for MAByteString {
    /// Equality is structural over the byte contents, never over the
    /// representation mode.
    fn eq(&self, other: &Self) -> (r: bool) {
        slice_eq(self.as_slice(), other.as_slice())
    }
}

impl vstd::std_specs::cmp::PartialEqSpecImpl for MAByteString {
    open spec fn obeys_eq_spec() -> bool {
        true
    }

    open spec fn eq_spec(&self, other: &Self) -> bool {
        self@ == other@
    }
}

impl Eq for MAByteString {

}


impl PartialOrd for MAByteString {
    /// Ordering is lexicographic over the byte contents.
    fn partial_cmp(&self, other: &Self) -> (r: Option<core::cmp::Ordering>) {
        Some(slice_cmp(self.as_slice(), other.as_slice()))
    }
}

impl vstd::std_specs::cmp::PartialOrdSpecImpl for MAByteString {
    open spec fn obeys_partial_cmp_spec() -> bool {
        true
    }

    open spec fn partial_cmp_spec(&self, other: &Self) -> Option<core::cmp::Ordering> {
        Some(spec_cmp_bytes(self@, other@))
    }
}

} // verus!
