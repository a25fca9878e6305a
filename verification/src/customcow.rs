//! A borrowed-or-owned value, parameterized the opposite way round
//! from the standard library's: the owned type is the parameter, and
//! its borrowed form is an associated type.

use vstd::prelude::*;

use vstd::string::StringSliceAdditionalSpecFns;

use crate::MAByteString;
use crate::MAByteStringBuilder;
use crate::MAString;
use crate::MAStringBuilder;
use crate::layout::spec_max_len;

verus! {

/// An owned buffer type that can be rebuilt from its borrowed form
/// and duplicated; what [`CustomCow`] needs of its parameter.
pub trait CowOwned: Sized {
    /// The borrowed form of the type (a byte or string slice).
    type Borrowed: ?Sized;

    /// The bytes an owned value holds.
    spec fn own_view(&self) -> Seq<u8>;

    /// The bytes a borrowed value holds.
    spec fn borrowed_view(b: &Self::Borrowed) -> Seq<u8>;

    /// Builds an owned value holding a copy of the borrowed bytes.
    fn to_owned_from(b: &Self::Borrowed) -> (r: Self)
        requires
            Self::borrowed_view(b).len() <= spec_max_len(),
        ensures
            r.own_view() == Self::borrowed_view(b),
    ;

    /// Duplicates an owned value.
    fn dup(&self) -> (r: Self)
        ensures
            r.own_view() == self.own_view(),
    ;
}

impl CowOwned for MAByteString {
    type Borrowed = [u8];

    open spec fn own_view(&self) -> Seq<u8> {
        self@
    }

    open spec fn borrowed_view(b: &[u8]) -> Seq<u8> {
        b@
    }

    fn to_owned_from(b: &[u8]) -> (r: Self) {
        MAByteString::from_slice(b)
    }

    fn dup(&self) -> (r: Self) {
        self.clone()
    }
}

impl CowOwned for MAByteStringBuilder {
    type Borrowed = [u8];

    open spec fn own_view(&self) -> Seq<u8> {
        self@
    }

    open spec fn borrowed_view(b: &[u8]) -> Seq<u8> {
        b@
    }

    fn to_owned_from(b: &[u8]) -> (r: Self) {
        MAByteStringBuilder::from_slice(b)
    }

    fn dup(&self) -> (r: Self) {
        self.clone()
    }
}

impl CowOwned for MAString {
    type Borrowed = str;

    open spec fn own_view(&self) -> Seq<u8> {
        self@
    }

    open spec fn borrowed_view(b: &str) -> Seq<u8> {
        b.spec_bytes()
    }

    fn to_owned_from(b: &str) -> (r: Self) {
        MAString::from_slice(b)
    }

    fn dup(&self) -> (r: Self) {
        self.clone()
    }
}

impl CowOwned for MAStringBuilder {
    type Borrowed = str;

    open spec fn own_view(&self) -> Seq<u8> {
        self@
    }

    open spec fn borrowed_view(b: &str) -> Seq<u8> {
        b.spec_bytes()
    }

    fn to_owned_from(b: &str) -> (r: Self) {
        MAStringBuilder::from_slice(b)
    }

    fn dup(&self) -> (r: Self) {
        self.clone()
    }
}

/// A value that either borrows its bytes or owns them in a `T`.
pub enum CustomCow<'a, T: CowOwned> {
    Borrowed(&'a T::Borrowed),
    Owned(T),
}

impl<'a, T: CowOwned> View for CustomCow<'a, T> {
    type V = Seq<u8>;

    open spec fn view(&self) -> Seq<u8> {
        match self {
            CustomCow::Borrowed(b) => T::borrowed_view(b),
            CustomCow::Owned(o) => o.own_view(),
        }
    }
}

impl<'a, T: CowOwned> CustomCow<'a, T> {
    /// Converts into an owned value, copying only if still borrowed.
    pub fn into_owned(self) -> (r: T)
        requires
            self@.len() <= spec_max_len(),
        ensures
            r.own_view() == self@,
    {
        match self {
            CustomCow::Borrowed(b) => T::to_owned_from(b),
            CustomCow::Owned(o) => o,
        }
    }

    /// Makes the value owned in place, copying only if still
    /// borrowed; afterwards the owned value can be mutated freely.
    pub fn to_mut(&mut self)
        requires
            old(self)@.len() <= spec_max_len(),
        ensures
            final(self)@ == old(self)@,
            *final(self) is Owned,
    {
        match self {
            CustomCow::Borrowed(b) => {
                let o = T::to_owned_from(*b);
                *self = CustomCow::Owned(o);
            },
            CustomCow::Owned(_) => {},
        }
    }

    /// An owned copy of the value, duplicating when already owned.
    pub fn to_owned(&self) -> (r: T)
        requires
            self@.len() <= spec_max_len(),
        ensures
            r.own_view() == self@,
    {
        match self {
            CustomCow::Borrowed(b) => T::to_owned_from(b),
            CustomCow::Owned(o) => o.dup(),
        }
    }
}

impl<'a, T: CowOwned + Clone> Clone for CustomCow<'a, T> {
    /// Duplicates the value, keeping borrowed values borrowed.
    fn clone(&self) -> (r: Self) {
        match self {
            CustomCow::Borrowed(b) => CustomCow::Borrowed(*b),
            CustomCow::Owned(o) => CustomCow::Owned(o.clone()),
        }
    }
}

} // verus!
