//! A UTF-8 string builder on top of the byte builder: uniquely owned
//! storage with the invariant that the payload is always valid UTF-8.

use vstd::prelude::*;

use vstd::string::StringSliceAdditionalSpecFns;

use vstd::utf8::encode_utf8;
use vstd::utf8::valid_utf8;

use crate::MAByteStringBuilder;
use crate::MAString;
use crate::layout::SHORT_CAP;
use crate::layout::spec_max_len;
use crate::shared::bytes_as_str;
use crate::shared::slice_cmp;
use crate::shared::spec_cmp_bytes;
use crate::shared::string_from_utf8;
use crate::shared::string_into_bytes;
use crate::string::Utf8Error;
use crate::string::chars_to_vec;

verus! {

broadcast use vstd::utf8::encode_utf8_valid_utf8;

/// A string builder that minimizes allocations, built on
/// [`MAByteStringBuilder`]: uniquely owned short or heap storage,
/// always valid UTF-8.  Its view is the payload's byte sequence.
#[derive(Debug)]
pub struct MAStringBuilder {
    inner: MAByteStringBuilder,
}

impl View for MAStringBuilder {
    type V = Seq<u8>;

    closed spec fn view(&self) -> Seq<u8> {
        self.inner@
    }
}

impl MAStringBuilder {
    #[verifier::type_invariant]
    closed spec fn inv(self) -> bool {
        valid_utf8(self.inner@)
    }

    /// True when the payload is stored inline.
    pub closed spec fn is_short(self) -> bool {
        self.inner.is_short()
    }

    /// The capacity of the underlying byte builder.
    pub closed spec fn spec_capacity(self) -> int {
        self.inner.spec_capacity()
    }

    /// Creates an empty string builder; never allocates.
    pub fn new() -> (r: Self)
        ensures
            r@ == Seq::<u8>::empty(),
            r.is_short(),
    {
        let inner = MAByteStringBuilder::new();
        proof {
            assert(valid_utf8(inner@));
        }
        MAStringBuilder { inner }
    }

    /// Creates an empty string builder with room for at least `cap`
    /// bytes.
    pub fn with_capacity(cap: usize) -> (r: Self)
        requires
            cap <= spec_max_len(),
        ensures
            r@ == Seq::<u8>::empty(),
            r.is_short() <==> cap <= SHORT_CAP,
            r.spec_capacity() >= cap,
    {
        let inner = MAByteStringBuilder::with_capacity(cap);
        proof {
            assert(valid_utf8(inner@));
        }
        MAStringBuilder { inner }
    }

    /// Creates a string builder holding a copy of `s`.
    pub fn from_slice(s: &str) -> (r: Self)
        requires
            s.spec_bytes().len() <= spec_max_len(),
        ensures
            r@ == s.spec_bytes(),
            r.is_short() <==> s.spec_bytes().len() <= SHORT_CAP,
    {
        MAStringBuilder { inner: MAByteStringBuilder::from_slice(s.as_bytes()) }
    }

    /// Creates a string builder that takes over the allocation of `s`.
    pub fn from_string(s: String) -> (r: Self)
        requires
            encode_utf8(s@).len() <= spec_max_len(),
        ensures
            r@ == encode_utf8(s@),
            r.is_short() <==> encode_utf8(s@).len() <= SHORT_CAP,
    {
        MAStringBuilder { inner: MAByteStringBuilder::from_vec(string_into_bytes(s)) }
    }

    /// Converts a string into a string builder, reusing its allocation
    /// when the string was the sole owner; see
    /// [`MAByteStringBuilder::from_mabs`].
    pub fn from_mas(s: MAString) -> (r: Self)
        ensures
            r@ == s@,
            r.is_short() <==> s.kind() == crate::BufKind::Short,
    {
        MAStringBuilder { inner: MAByteStringBuilder::from_mabs(s.into_bytes()) }
    }

    /// The current mode of the builder, for diagnostics and tests: a
    /// builder is only ever `short` or `unique`.
    pub fn get_mode(&self) -> (m: &'static str)
        ensures
            self.is_short() ==> m@ == "short"@,
            !self.is_short() ==> m@ == "unique"@,
    {
        self.inner.get_mode()
    }

    /// Ensures there is capacity for at least `mincap` bytes; see
    /// [`MAByteStringBuilder::reserve`].
    pub fn reserve(&mut self, mincap: usize)
        requires
            mincap <= spec_max_len(),
        ensures
            final(self)@ == old(self)@,
            !(old(self).is_short() && mincap <= SHORT_CAP) ==> final(self).spec_capacity()
                >= mincap,
    {
        proof {
            use_type_invariant(&*self);
        }
        let mut tmp = MAStringBuilder::new();
        core::mem::swap(self, &mut tmp);
        let mut inner = tmp.inner;
        inner.reserve(mincap);
        *self = MAStringBuilder { inner };
    }

    /// The capacity of the builder.
    pub fn capacity(&self) -> (r: usize)
        ensures
            r == self.spec_capacity(),
    {
        self.inner.capacity()
    }

    /// Empties the builder, always keeping its mode and capacity.
    pub fn clear(&mut self)
        ensures
            final(self)@ == Seq::<u8>::empty(),
            final(self).is_short() == old(self).is_short(),
            final(self).spec_capacity() == old(self).spec_capacity(),
    {
        proof {
            use_type_invariant(&*self);
        }
        let mut tmp = MAStringBuilder::new();
        core::mem::swap(self, &mut tmp);
        let mut inner = tmp.inner;
        inner.clear();
        *self = MAStringBuilder { inner };
    }

    /// Converts the builder into a plain byte vector.
    pub fn into_vec(self) -> (v: Vec<u8>)
        ensures
            v@ == self@,
    {
        self.inner.into_vec()
    }

    /// Wraps byte storage as a string builder, after checking that it
    /// holds valid UTF-8; the rejected storage comes back in the
    /// error.
    pub fn from_utf8(data: MAByteStringBuilder) -> (r: Result<Self, Utf8Error>)
        ensures
            valid_utf8(data@) <==> r is Ok,
            match r {
                Ok(s) => s@ == data@,
                Err(e) => e@ == data@,
            },
    {
        if bytes_as_str(data.as_slice()).is_some() {
            Ok(MAStringBuilder { inner: data })
        } else {
            Err(Utf8Error::new(data.into_vec()))
        }
    }

    /// Wraps byte storage as a string builder, replacing ill-formed
    /// sequences as [`MAString::from_utf8_lossy`] does.
    pub fn from_utf8_lossy(data: MAByteStringBuilder) -> (r: Self)
        requires
            3 * data@.len() <= spec_max_len(),
        ensures
            valid_utf8(data@) ==> r@ == data@,
            !valid_utf8(data@) ==> r@ == crate::string::spec_lossy(data@, 0),
            valid_utf8(r@),
    {
        if bytes_as_str(data.as_slice()).is_some() {
            MAStringBuilder { inner: data }
        } else {
            let repaired = crate::string::lossy_repair(data.as_slice());
            MAStringBuilder { inner: MAByteStringBuilder::from_vec(repaired) }
        }
    }

    /// Converts the builder into a plain `String`, handing its
    /// allocation over.
    pub fn into_string(self) -> (r: String)
        ensures
            encode_utf8(r@) == self@,
    {
        proof {
            use_type_invariant(&self);
        }
        match string_from_utf8(self.inner.into_vec()) {
            Some(s) => s,
            None => vstd::pervasive::unreached(),
        }
    }

    /// Converts the builder into the underlying byte builder.
    pub fn into_bytes(self) -> (r: MAByteStringBuilder)
        ensures
            r@ == self@,
            r.is_short() == self.is_short(),
            r.spec_capacity() == self.spec_capacity(),
            valid_utf8(r@),
    {
        proof {
            use_type_invariant(&self);
        }
        self.inner
    }

    /// Tears the builder down into the byte builder, for the string
    /// type's use.
    pub(crate) fn into_inner(self) -> (r: MAByteStringBuilder)
        ensures
            r@ == self@,
            r.is_short() == self.is_short(),
            r.spec_capacity() == self.spec_capacity(),
            valid_utf8(r@),
    {
        proof {
            use_type_invariant(&self);
        }
        self.inner
    }

    /// Creates a string builder from a slice of characters.
    pub fn from_char_slice(chars: &[char]) -> (r: Self)
        requires
            encode_utf8(chars@).len() <= spec_max_len(),
        ensures
            r@ == encode_utf8(chars@),
    {
        let v = chars_to_vec(chars);
        MAStringBuilder { inner: MAByteStringBuilder::from_vec(v) }
    }

    /// Appends `s` to the builder.
    pub fn push_str(&mut self, s: &str)
        requires
            old(self)@.len() + s.spec_bytes().len() <= spec_max_len(),
        ensures
            final(self)@ == old(self)@ + s.spec_bytes(),
    {
        proof {
            use_type_invariant(&*self);
            vstd::utf8::valid_utf8_concat(self.inner@, s.spec_bytes());
        }
        let mut tmp = MAStringBuilder::new();
        core::mem::swap(self, &mut tmp);
        let mut inner = tmp.inner;
        inner.push_slice(s.as_bytes());
        *self = MAStringBuilder { inner };
    }

    /// A read-only view of the string.
    pub fn as_str(&self) -> (r: &str)
        ensures
            r.spec_bytes() == self@,
    {
        proof {
            use_type_invariant(self);
        }
        match bytes_as_str(self.inner.as_slice()) {
            Some(s) => s,
            None => vstd::pervasive::unreached(),
        }
    }

    /// A read-only view of the payload bytes.
    pub fn as_bytes(&self) -> (r: &[u8])
        ensures
            r@ == self@,
    {
        self.inner.as_slice()
    }

    /// The number of payload bytes.
    pub fn len(&self) -> (r: usize)
        ensures
            r == self@.len(),
    {
        self.inner.len()
    }
}

impl Clone for MAStringBuilder {
    /// Duplicates the builder by copying its bytes.
    fn clone(&self) -> (r: Self)
        ensures
            r@ == self@,
    {
        proof {
            use_type_invariant(self);
        }
        MAStringBuilder { inner: self.inner.clone() }
    }
}

impl PartialEq for MAStringBuilder {
    /// Equality is structural over the byte contents, never over the
    /// representation mode.
    fn eq(&self, other: &Self) -> (r: bool) {
        self.inner.eq(&other.inner)
    }
}

impl vstd::std_specs::cmp::PartialEqSpecImpl for MAStringBuilder {
    open spec fn obeys_eq_spec() -> bool {
        true
    }

    open spec fn eq_spec(&self, other: &Self) -> bool {
        self@ == other@
    }
}

impl Eq for MAStringBuilder {

}


impl PartialOrd for MAStringBuilder {
    /// Ordering is lexicographic over the byte contents.
    fn partial_cmp(&self, other: &Self) -> (r: Option<core::cmp::Ordering>) {
        Some(slice_cmp(self.as_bytes(), other.as_bytes()))
    }
}

impl vstd::std_specs::cmp::PartialOrdSpecImpl for MAStringBuilder {
    open spec fn obeys_partial_cmp_spec() -> bool {
        true
    }

    open spec fn partial_cmp_spec(&self, other: &Self) -> Option<core::cmp::Ordering> {
        Some(spec_cmp_bytes(self@, other@))
    }
}

} // verus!
