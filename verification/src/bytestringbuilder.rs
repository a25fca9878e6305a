//! The non-shareable sibling of the byte buffer: same inline/heap
//! layout and growth policy, but its heap payload is always uniquely
//! owned — duplication copies bytes instead of touching a reference
//! count, so mutation never has to detach from sharing.

use vstd::prelude::*;

use crate::layout::SHORT_CAP;
use crate::layout::max_len;
use crate::layout::spec_max_len;
use crate::shared::RawBuf;
use crate::shared::extend_bytes;
use crate::shared::fresh_heap;
use crate::shared::raw_inv;
use crate::shared::slice_cmp;
use crate::shared::spec_cmp_bytes;
use crate::shared::slice_eq;
use crate::shared::raw_view;
use crate::shared::slice_to_vec;
use crate::shared::vec_capacity;

verus! {

#[derive(Debug)]
enum BRepr {
    Short { len: u8, data: [u8; 31] },
    Long { bytes: Vec<u8>, cap: usize },
}

/// A byte buffer builder: the unique-ownership variant of
/// [`crate::MAByteString`].  It occupies only short or uniquely owned
/// heap modes, never static or shared ones, so every mutation can work
/// in place.
#[derive(Debug)]
pub struct MAByteStringBuilder {
    r: BRepr,
}

impl View for MAByteStringBuilder {
    type V = Seq<u8>;

    closed spec fn view(&self) -> Seq<u8> {
        match self.r {
            BRepr::Short { len, data } => data@.subrange(0, len as int),
            BRepr::Long { bytes, cap } => bytes@,
        }
    }
}

impl MAByteStringBuilder {
    #[verifier::type_invariant]
    closed spec fn inv(self) -> bool {
        match self.r {
            BRepr::Short { len, data } => len as int <= SHORT_CAP,
            BRepr::Long { bytes, cap } => {
                &&& 0 < cap as int <= spec_max_len() + 16
                &&& bytes@.len() <= cap
                &&& bytes@.len() <= spec_max_len()
            },
        }
    }

    /// True when the payload is stored inline.
    pub closed spec fn is_short(self) -> bool {
        self.r is Short
    }

    /// The reported capacity: the inline budget in short mode, the
    /// whole allocation in heap mode (a builder never loses tail space
    /// to a control block).
    pub closed spec fn spec_capacity(self) -> int {
        match self.r {
            BRepr::Short { .. } => SHORT_CAP as int,
            BRepr::Long { bytes, cap } => cap as int,
        }
    }

    /// Creates an empty builder; never allocates.
    pub fn new() -> (r: Self)
        ensures
            r@ == Seq::<u8>::empty(),
            r.is_short(),
    {
        let r = MAByteStringBuilder { r: BRepr::Short { len: 0, data: [0; 31] } };
        proof {
            assert(r@ =~= Seq::<u8>::empty());
        }
        r
    }

    /// Creates an empty builder with room for at least `cap` bytes.
    pub fn with_capacity(cap: usize) -> (r: Self)
        requires
            cap <= spec_max_len(),
        ensures
            r@ == Seq::<u8>::empty(),
            r.is_short() <==> cap <= SHORT_CAP,
            r.spec_capacity() >= cap,
    {
        if cap <= SHORT_CAP {
            Self::new()
        } else {
            let (bytes, ncap) = fresh_heap(&[], cap);
            let r = MAByteStringBuilder { r: BRepr::Long { bytes, cap: ncap } };
            r
        }
    }

    /// Creates a builder holding a copy of `s`; allocates only when
    /// the payload does not fit inline.
    pub fn from_slice(s: &[u8]) -> (r: Self)
        requires
            s@.len() <= spec_max_len(),
        ensures
            r@ == s@,
            r.is_short() <==> s@.len() <= SHORT_CAP,
            r.spec_capacity() >= s@.len(),
    {
        if s.len() <= SHORT_CAP {
            Self::short_from_slice(s)
        } else {
            let (bytes, cap) = fresh_heap(s, 0);
            MAByteStringBuilder { r: BRepr::Long { bytes, cap } }
        }
    }

    /// Creates a builder that takes over the allocation of `v`; copies
    /// only when the payload fits inline.
    pub fn from_vec(v: Vec<u8>) -> (r: Self)
        requires
            v@.len() <= spec_max_len(),
        ensures
            r@ == v@,
            r.is_short() <==> v@.len() <= SHORT_CAP,
            r.spec_capacity() >= v@.len(),
    {
        if v.len() <= SHORT_CAP {
            Self::short_from_slice(v.as_slice())
        } else {
            let len = v.len();
            let real_cap = vec_capacity(&v);
            let ml = max_len();
            let cap = if real_cap > ml + 16 {
                ml + 16
            } else {
                real_cap
            };
            MAByteStringBuilder { r: BRepr::Long { bytes: v, cap } }
        }
    }

    /// Copies a slice that fits inline into a short-mode builder.
    fn short_from_slice(s: &[u8]) -> (r: Self)
        requires
            s@.len() <= SHORT_CAP,
        ensures
            r@ == s@,
            r.is_short(),
    {
        let n = s.len();
        let mut data: [u8; 31] = [0; 31];
        let mut i: usize = 0;
        while i < n
            invariant
                i <= n,
                n == s@.len(),
                n <= 31,
                data@.len() == 31,
                forall|j: int| 0 <= j < i ==> data@[j] == s@[j],
            decreases n - i,
        {
            data[i] = s[i];
            i += 1;
        }
        let r = MAByteStringBuilder { r: BRepr::Short { len: n as u8, data } };
        proof {
            assert(r@ =~= s@);
        }
        r
    }

    /// The current mode of the builder, for diagnostics and tests: a
    /// builder is only ever `short` or `unique`.
    pub fn get_mode(&self) -> (m: &'static str)
        ensures
            self.is_short() ==> m@ == "short"@,
            !self.is_short() ==> m@ == "unique"@,
    {
        match &self.r {
            BRepr::Short { .. } => "short",
            BRepr::Long { .. } => "unique",
        }
    }

    /// Ensures there is capacity for at least `mincap` bytes, growing
    /// with at least doubled capacity when the current allocation is
    /// too small.
    pub fn reserve(&mut self, mincap: usize)
        requires
            mincap <= spec_max_len(),
        ensures
            final(self)@ == old(self)@,
            old(self).is_short() && mincap <= SHORT_CAP ==> final(self).is_short(),
            !(old(self).is_short() && mincap <= SHORT_CAP) ==> final(self).spec_capacity()
                >= mincap && !final(self).is_short(),
            final(self).spec_capacity() >= old(self).spec_capacity() || final(self).is_short(),
    {
        proof {
            use_type_invariant(&*self);
        }
        let mut tmp = MAByteStringBuilder::new();
        core::mem::swap(self, &mut tmp);
        match tmp.r {
            BRepr::Short { len, data } => {
                if mincap <= SHORT_CAP {
                    *self = MAByteStringBuilder { r: BRepr::Short { len, data } };
                } else {
                    let target = if mincap > 2 * SHORT_CAP {
                        mincap
                    } else {
                        2 * SHORT_CAP
                    };
                    let s = vstd::slice::slice_subrange(data.as_slice(), 0, len as usize);
                    let (bytes, cap) = fresh_heap(s, target);
                    *self = MAByteStringBuilder { r: BRepr::Long { bytes, cap } };
                }
            },
            BRepr::Long { bytes, cap } => {
                if mincap <= cap {
                    *self = MAByteStringBuilder { r: BRepr::Long { bytes, cap } };
                } else {
                    let ml = max_len();
                    let doubled = if cap > ml / 2 {
                        ml
                    } else {
                        cap * 2
                    };
                    let target = if mincap > doubled {
                        mincap
                    } else {
                        doubled
                    };
                    let (nbytes, ncap) = fresh_heap(bytes.as_slice(), target);
                    *self = MAByteStringBuilder { r: BRepr::Long { bytes: nbytes, cap: ncap } };
                }
            },
        }
    }

    /// The capacity of the builder.
    pub fn capacity(&self) -> (r: usize)
        ensures
            r == self.spec_capacity(),
    {
        proof {
            use_type_invariant(self);
        }
        match &self.r {
            BRepr::Short { .. } => SHORT_CAP,
            BRepr::Long { bytes, cap } => *cap,
        }
    }

    /// Empties the builder, always keeping its mode and capacity: the
    /// payload is uniquely owned, so the allocation can simply be
    /// reused.
    pub fn clear(&mut self)
        ensures
            final(self)@ == Seq::<u8>::empty(),
            final(self).is_short() == old(self).is_short(),
            final(self).spec_capacity() == old(self).spec_capacity(),
    {
        proof {
            use_type_invariant(&*self);
        }
        let mut tmp = MAByteStringBuilder::new();
        core::mem::swap(self, &mut tmp);
        match tmp.r {
            BRepr::Short { .. } => {},
            BRepr::Long { mut bytes, cap } => {
                bytes.clear();
                *self = MAByteStringBuilder { r: BRepr::Long { bytes, cap } };
            },
        }
    }

    /// Converts the builder into a plain `Vec`; hands the allocation
    /// over without copying unless the payload was inline.
    pub fn into_vec(self) -> (v: Vec<u8>)
        ensures
            v@ == self@,
    {
        proof {
            use_type_invariant(&self);
        }
        match self.r {
            BRepr::Short { len, data } => {
                slice_to_vec(vstd::slice::slice_subrange(data.as_slice(), 0, len as usize))
            },
            BRepr::Long { bytes, cap } => bytes,
        }
    }

    /// Appends `other` to the builder.  A short payload with room
    /// grows in place; otherwise the payload moves to (or stays on)
    /// the heap, growing the allocation as `reserve` would.
    pub fn push_slice(&mut self, other: &[u8])
        requires
            old(self)@.len() + other@.len() <= spec_max_len(),
        ensures
            final(self)@ == old(self)@ + other@,
            old(self).is_short() && old(self)@.len() + other@.len() <= SHORT_CAP ==> ({
                final(self).is_short()
            }),
            !(old(self).is_short() && old(self)@.len() + other@.len() <= SHORT_CAP) ==> ({
                &&& !final(self).is_short()
                &&& final(self).spec_capacity() >= old(self)@.len() + other@.len()
            }),
    {
        proof {
            use_type_invariant(&*self);
        }
        let mut tmp = MAByteStringBuilder::new();
        core::mem::swap(self, &mut tmp);
        match tmp.r {
            BRepr::Short { len, data } => {
                let n = len as usize;
                if other.len() <= SHORT_CAP - n {
                    let mut data = data;
                    let m = other.len();
                    let mut i: usize = 0;
                    while i < m
                        invariant
                            i <= m,
                            m == other@.len(),
                            n + m <= 31,
                            data@.len() == 31,
                            forall|j: int| 0 <= j < n ==> data@[j] == old(self)@[j],
                            forall|j: int| 0 <= j < i ==> data@[n + j] == other@[j],
                            n == old(self)@.len(),
                        decreases m - i,
                    {
                        data[n + i] = other[i];
                        i += 1;
                    }
                    let r = MAByteStringBuilder { r: BRepr::Short { len: (n + m) as u8, data } };
                    proof {
                        assert(r@ =~= old(self)@ + other@);
                    }
                    *self = r;
                } else {
                    let total = n + other.len();
                    let target = if total > 2 * SHORT_CAP {
                        total
                    } else {
                        2 * SHORT_CAP
                    };
                    let s = vstd::slice::slice_subrange(data.as_slice(), 0, n);
                    let (mut bytes, cap) = fresh_heap(s, target);
                    extend_bytes(&mut bytes, other);
                    *self = MAByteStringBuilder { r: BRepr::Long { bytes, cap } };
                }
            },
            BRepr::Long { mut bytes, cap } => {
                let total = bytes.len() + other.len();
                if total <= cap {
                    extend_bytes(&mut bytes, other);
                    *self = MAByteStringBuilder { r: BRepr::Long { bytes, cap } };
                } else {
                    let ml = max_len();
                    let doubled = if cap > ml / 2 {
                        ml
                    } else {
                        cap * 2
                    };
                    let target = if total > doubled {
                        total
                    } else {
                        doubled
                    };
                    let (mut nbytes, ncap) = fresh_heap(bytes.as_slice(), target);
                    extend_bytes(&mut nbytes, other);
                    *self = MAByteStringBuilder { r: BRepr::Long { bytes: nbytes, cap: ncap } };
                }
            },
        }
    }
}

impl Clone for MAByteStringBuilder {
    /// Duplicates the builder by copying its bytes: a builder never
    /// shares its allocation.
    fn clone(&self) -> (r: Self)
        ensures
            r@ == self@,
            r.is_short() <==> self@.len() <= SHORT_CAP,
    {
        proof {
            use_type_invariant(self);
        }
        Self::from_slice(self.as_slice())
    }
}

impl MAByteStringBuilder {
    /// A read-only view of the payload bytes.
    pub fn as_slice(&self) -> (r: &[u8])
        ensures
            r@ == self@,
    {
        proof {
            use_type_invariant(self);
        }
        match &self.r {
            BRepr::Short { len, data } => {
                vstd::slice::slice_subrange(data.as_slice(), 0, *len as usize)
            },
            BRepr::Long { bytes, cap } => bytes.as_slice(),
        }
    }

    /// The number of payload bytes.
    pub fn len(&self) -> (r: usize)
        ensures
            r == self@.len(),
    {
        self.as_slice().len()
    }

    /// Joins the items with this builder's bytes as the separator.
    pub fn join<T: crate::Joinable>(&self, items: &[T]) -> (r: Self)
        requires
            crate::join_spec(crate::join_views(items@), self@).len() <= spec_max_len(),
        ensures
            r@ == crate::join_spec(crate::join_views(items@), self@),
    {
        crate::join_internal(self.as_slice(), items)
    }

    /// Converts a shareable byte buffer into a builder.  The
    /// allocation is reused whenever the buffer was the sole owner of
    /// its heap payload; static and shared payloads are copied out.
    pub fn from_mabs(s: crate::MAByteString) -> (r: Self)
        ensures
            r@ == s@,
            r.is_short() <==> s.kind() == crate::BufKind::Short,
    {
        match s.into_raw() {
            RawBuf::Inline { len, data } => MAByteStringBuilder { r: BRepr::Short { len, data } },
            RawBuf::Heap { bytes, cap } => MAByteStringBuilder { r: BRepr::Long { bytes, cap } },
        }
    }

    /// Tears the builder down into raw storage; nothing is copied, a
    /// builder's payload being uniquely owned already.
    pub(crate) fn into_raw(self) -> (t: RawBuf)
        ensures
            raw_view(t) == self@,
            raw_inv(t),
            t is Inline <==> self.is_short(),
            t matches RawBuf::Heap { bytes, cap } ==> cap == self.spec_capacity(),
    {
        proof {
            use_type_invariant(&self);
        }
        match self.r {
            BRepr::Short { len, data } => RawBuf::Inline { len, data },
            BRepr::Long { bytes, cap } => RawBuf::Heap { bytes, cap },
        }
    }
}

impl PartialEq for MAByteStringBuilder {
    /// Equality is structural over the byte contents, never over the
    /// representation mode.
    fn eq(&self, other: &Self) -> (r: bool) {
        slice_eq(self.as_slice(), other.as_slice())
    }
}

impl vstd::std_specs::cmp::PartialEqSpecImpl for MAByteStringBuilder {
    open spec fn obeys_eq_spec() -> bool {
        true
    }

    open spec fn eq_spec(&self, other: &Self) -> bool {
        self@ == other@
    }
}

impl Eq for MAByteStringBuilder {

}


impl PartialOrd for MAByteStringBuilder {
    /// Ordering is lexicographic over the byte contents.
    fn partial_cmp(&self, other: &Self) -> (r: Option<core::cmp::Ordering>) {
        Some(slice_cmp(self.as_slice(), other.as_slice()))
    }
}

impl vstd::std_specs::cmp::PartialOrdSpecImpl for MAByteStringBuilder {
    open spec fn obeys_partial_cmp_spec() -> bool {
        true
    }

    open spec fn partial_cmp_spec(&self, other: &Self) -> Option<core::cmp::Ordering> {
        Some(spec_cmp_bytes(self@, other@))
    }
}

} // verus!
