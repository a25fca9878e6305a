//! A UTF-8 string on top of the shareable byte buffer: a thin wrapper
//! whose invariant is that the bytes are always valid UTF-8, plus the
//! character-encoding helpers the string types share.

use vstd::prelude::*;

use vstd::string::StringSliceAdditionalSpecFns;

use vstd::utf8::encode_scalar;
use vstd::utf8::encode_utf8;
use vstd::utf8::valid_utf8;

use crate::BufKind;
use crate::MAByteString;
use crate::MAStringBuilder;
use crate::layout::SHORT_CAP;
use crate::layout::spec_max_len;
use crate::shared::bytes_as_str;
use crate::shared::slice_cmp;
use crate::shared::spec_cmp_bytes;
use crate::shared::string_from_utf8;
use crate::shared::string_into_bytes;

verus! {

broadcast use vstd::utf8::encode_utf8_valid_utf8;

/// Concatenating two character sequences concatenates their UTF-8
/// encodings.
pub proof fn lemma_encode_utf8_concat(a: Seq<char>, b: Seq<char>)
    ensures
        encode_utf8(a + b) == encode_utf8(a) + encode_utf8(b),
    decreases a.len(),
{
    if a.len() == 0 {
        assert(a + b =~= b);
        assert(encode_utf8(a) + encode_utf8(b) =~= encode_utf8(b));
    } else {
        lemma_encode_utf8_concat(a.drop_first(), b);
        assert((a + b).drop_first() =~= a.drop_first() + b);
        assert(encode_utf8(a) + encode_utf8(b) =~= encode_scalar(a[0] as u32) + (encode_utf8(
            a.drop_first(),
        ) + encode_utf8(b)));
    }
}

/// Appending one character appends its UTF-8 encoding.
pub proof fn lemma_encode_utf8_push(s: Seq<char>, c: char)
    ensures
        encode_utf8(s.push(c)) == encode_utf8(s) + encode_scalar(c as u32),
{
    lemma_encode_utf8_concat(s, seq![c]);
    assert(s.push(c) =~= s + seq![c]);
    assert(seq![c].drop_first() =~= Seq::<char>::empty());
    assert(encode_utf8(seq![c]) =~= encode_scalar(c as u32) + encode_utf8(
        Seq::<char>::empty(),
    ));
    assert(encode_scalar(c as u32) + encode_utf8(Seq::<char>::empty()) =~= encode_scalar(
        c as u32,
    ));
}

/// The replacement character's UTF-8 encoding, and its validity.
proof fn lemma_replacement_bytes()
    ensures
        encode_scalar('\u{FFFD}' as u32) == seq![0xEFu8, 0xBFu8, 0xBDu8],
        valid_utf8(seq![0xEFu8, 0xBFu8, 0xBDu8]),
{
    let u: u32 = '\u{FFFD}' as u32;
    assert(u == 0xFFFD);
    assert(0xE0u8 | (((0xFFFDu32 >> 12) & 0x0F) as u8) == 0xEFu8) by (bit_vector);
    assert(0x80u8 | (((0xFFFDu32 >> 6) & 0x3F) as u8) == 0xBFu8) by (bit_vector);
    assert(0x80u8 | ((0xFFFDu32 & 0x3F) as u8) == 0xBDu8) by (bit_vector);
    assert(encode_scalar(u) =~= seq![0xEFu8, 0xBFu8, 0xBDu8]);
    lemma_encode_utf8_push(Seq::<char>::empty(), '\u{FFFD}');
    assert(Seq::<char>::empty().push('\u{FFFD}') =~= seq!['\u{FFFD}']);
    assert(valid_utf8(encode_utf8(seq!['\u{FFFD}'])));
    assert(encode_utf8(Seq::<char>::empty()) + encode_scalar('\u{FFFD}' as u32) =~= encode_scalar(
        '\u{FFFD}' as u32,
    ));
}

/// Appends the UTF-8 encoding of `c` to `out`.
fn push_char_utf8(out: &mut Vec<u8>, c: char)
    requires
        old(out)@.len() + 4 <= usize::MAX,
    ensures
        final(out)@ == old(out)@ + encode_scalar(c as u32),
{
    proof {
        vstd::utf8::char_is_scalar(c);
    }
    let u = c as u32;
    if u < 0x80 {
        out.push(u as u8);
        proof {
            assert(encode_scalar(u) =~= seq![(u & 0x7F) as u8]);
            assert((u & 0x7F) as u8 == u as u8) by (bit_vector)
                requires
                    u < 0x80,
            ;
            assert(old(out)@ + encode_scalar(u) =~= old(out)@.push(u as u8));
        }
    } else if u < 0x800 {
        out.push(0xC0 | ((u >> 6) & 0x1F) as u8);
        out.push(0x80 | (u & 0x3F) as u8);
        proof {
            assert(old(out)@ + encode_scalar(u) =~= old(out)@.push(0xC0 | ((u >> 6) & 0x1F) as u8)
                .push(0x80 | (u & 0x3F) as u8));
        }
    } else if u < 0x10000 {
        out.push(0xE0 | ((u >> 12) & 0x0F) as u8);
        out.push(0x80 | ((u >> 6) & 0x3F) as u8);
        out.push(0x80 | (u & 0x3F) as u8);
        proof {
            assert(old(out)@ + encode_scalar(u) =~= old(out)@.push(
                0xE0 | ((u >> 12) & 0x0F) as u8,
            ).push(0x80 | ((u >> 6) & 0x3F) as u8).push(0x80 | (u & 0x3F) as u8));
        }
    } else {
        out.push(0xF0 | ((u >> 18) & 0x7) as u8);
        out.push(0x80 | ((u >> 12) & 0x3F) as u8);
        out.push(0x80 | ((u >> 6) & 0x3F) as u8);
        out.push(0x80 | (u & 0x3F) as u8);
        proof {
            assert(old(out)@ + encode_scalar(u) =~= old(out)@.push(0xF0 | ((u >> 18) & 0x7) as u8)
                .push(0x80 | ((u >> 12) & 0x3F) as u8).push(0x80 | ((u >> 6) & 0x3F) as u8).push(
                0x80 | (u & 0x3F) as u8,
            ));
        }
    }
}

/// The number of bytes the UTF-8 encoding of `c` takes.
fn char_utf8len(c: char) -> (r: usize)
    ensures
        r == encode_scalar(c as u32).len(),
        1 <= r <= 4,
{
    proof {
        vstd::utf8::char_is_scalar(c);
    }
    let u = c as u32;
    if u < 0x80 {
        1
    } else if u < 0x800 {
        2
    } else if u < 0x10000 {
        3
    } else {
        4
    }
}

/// The length in bytes of the UTF-8 encoding of a character slice.
pub fn chars_utf8len(chars: &[char]) -> (r: usize)
    requires
        encode_utf8(chars@).len() <= spec_max_len(),
    ensures
        r == encode_utf8(chars@).len(),
{
    let n = chars.len();
    let mut total: usize = 0;
    let mut i: usize = 0;
    while i < n
        invariant
            i <= n,
            n == chars@.len(),
            encode_utf8(chars@).len() <= spec_max_len(),
            total == encode_utf8(chars@.subrange(0, i as int)).len(),
        decreases n - i,
    {
        proof {
            lemma_encode_utf8_push(chars@.subrange(0, i as int), chars@[i as int]);
            assert(chars@.subrange(0, i + 1) =~= chars@.subrange(0, i as int).push(
                chars@[i as int],
            ));
            lemma_encode_utf8_concat(chars@.subrange(0, i + 1), chars@.subrange(i + 1, n as int));
            assert(chars@.subrange(0, i + 1) + chars@.subrange(i + 1, n as int) =~= chars@);
        }
        total = total + char_utf8len(chars[i]);
        i += 1;
    }
    proof {
        assert(chars@.subrange(0, n as int) =~= chars@);
    }
    total
}

/// Encodes a character slice into a fresh byte vector.
pub(crate) fn chars_to_vec(chars: &[char]) -> (v: Vec<u8>)
    requires
        encode_utf8(chars@).len() <= spec_max_len(),
    ensures
        v@ == encode_utf8(chars@),
{
    let n = chars.len();
    let mut v: Vec<u8> = Vec::new();
    let mut i: usize = 0;
    while i < n
        invariant
            i <= n,
            n == chars@.len(),
            encode_utf8(chars@).len() <= spec_max_len(),
            v@ == encode_utf8(chars@.subrange(0, i as int)),
        decreases n - i,
    {
        proof {
            lemma_encode_utf8_push(chars@.subrange(0, i as int), chars@[i as int]);
            assert(chars@.subrange(0, i + 1) =~= chars@.subrange(0, i as int).push(
                chars@[i as int],
            ));
            lemma_encode_utf8_concat(chars@.subrange(0, i + 1), chars@.subrange(i + 1, n as int));
            assert(chars@.subrange(0, i + 1) + chars@.subrange(i + 1, n as int) =~= chars@);
        }
        push_char_utf8(&mut v, chars[i]);
        i += 1;
    }
    proof {
        assert(chars@.subrange(0, n as int) =~= chars@);
    }
    v
}

/// Fills a byte array with the UTF-8 encoding of a character slice,
/// leaving any remaining space zeroed; the encoding must fit.
pub fn chars_to_bytes<const N: usize>(chars: &[char]) -> (r: [u8; N])
    requires
        encode_utf8(chars@).len() <= N,
        N <= spec_max_len(),
    ensures
        r@.subrange(0, encode_utf8(chars@).len() as int) == encode_utf8(chars@),
        forall|j: int| encode_utf8(chars@).len() <= j < N ==> r@[j] == 0,
{
    let v = chars_to_vec(chars);
    let mut r: [u8; N] = [0; N];
    let m = v.len();
    let mut i: usize = 0;
    while i < m
        invariant
            i <= m,
            m == v@.len(),
            m <= N,
            r@.len() == N,
            forall|j: int| 0 <= j < i ==> r@[j] == v@[j],
            forall|j: int| i <= j < N ==> r@[j] == 0,
        decreases m - i,
    {
        r[i] = v[i];
        i += 1;
    }
    proof {
        assert(r@.subrange(0, m as int) =~= v@);
    }
    r
}

/// An attempt to interpret bytes that are not valid UTF-8 as a string;
/// hands the rejected bytes back.
#[derive(Debug)]
pub struct Utf8Error {
    bytes: Vec<u8>,
}

impl View for Utf8Error {
    type V = Seq<u8>;

    closed spec fn view(&self) -> Seq<u8> {
        self.bytes@
    }
}

impl Utf8Error {
    pub(crate) fn new(bytes: Vec<u8>) -> (r: Self)
        ensures
            r@ == bytes@,
    {
        Utf8Error { bytes }
    }

    /// The rejected bytes.
    pub fn into_bytes(self) -> (v: Vec<u8>)
        ensures
            v@ == self@,
    {
        self.bytes
    }

    /// A view of the rejected bytes.
    pub fn as_bytes(&self) -> (r: &[u8])
        ensures
            r@ == self@,
    {
        self.bytes.as_slice()
    }
}

/// A string that minimizes allocations, built on [`MAByteString`]:
/// the same short, static, and copy-on-write shared modes, with the
/// invariant that the payload is always valid UTF-8.  Its view is the
/// payload's byte sequence.
#[derive(Debug)]
pub struct MAString {
    inner: MAByteString,
}

impl View for MAString {
    type V = Seq<u8>;

    closed spec fn view(&self) -> Seq<u8> {
        self.inner@
    }
}

impl MAString {
    #[verifier::type_invariant]
    closed spec fn inv(self) -> bool {
        valid_utf8(self.inner@)
    }

    /// The ownership mode of the underlying byte buffer.
    pub closed spec fn kind(self) -> BufKind {
        self.inner.kind()
    }

    /// The capacity of the underlying byte buffer.
    pub closed spec fn spec_capacity(self) -> int {
        self.inner.spec_capacity()
    }

    /// Creates an empty string; never allocates.
    pub fn new() -> (r: Self)
        ensures
            r@ == Seq::<u8>::empty(),
            r.kind() == BufKind::Short,
    {
        let inner = MAByteString::new();
        proof {
            assert(valid_utf8(inner@));
        }
        MAString { inner }
    }

    /// Creates an empty string with room for at least `cap` bytes;
    /// a capacity above the inline budget allocates a uniquely owned
    /// heap buffer.
    pub fn with_capacity(cap: usize) -> (r: Self)
        requires
            cap <= spec_max_len(),
        ensures
            r@ == Seq::<u8>::empty(),
            r.spec_capacity() >= cap,
            cap <= SHORT_CAP <==> r.kind() == BufKind::Short,
    {
        let mut inner = MAByteString::new();
        inner.reserve(cap);
        proof {
            assert(valid_utf8(inner@));
            crate::bytestring::lemma_kind_capacity(inner);
        }
        MAString { inner }
    }

    /// Creates a string holding a copy of `s`; see
    /// [`MAByteString::from_slice`] for the resulting mode.
    pub fn from_slice(s: &str) -> (r: Self)
        requires
            s.spec_bytes().len() <= spec_max_len(),
        ensures
            r@ == s.spec_bytes(),
            s.spec_bytes().len() <= SHORT_CAP <==> r.kind() == BufKind::Short,
            s.spec_bytes().len() > SHORT_CAP ==> r.kind() == BufKind::CbInline,
    {
        MAString { inner: MAByteString::from_slice(s.as_bytes()) }
    }

    /// Creates a string that takes over the allocation of `s`; see
    /// [`MAByteString::from_vec`] for the resulting mode.
    pub fn from_string(s: String) -> (r: Self)
        requires
            encode_utf8(s@).len() <= spec_max_len(),
        ensures
            r@ == encode_utf8(s@),
            encode_utf8(s@).len() <= SHORT_CAP <==> r.kind() == BufKind::Short,
    {
        MAString { inner: MAByteString::from_vec(string_into_bytes(s)) }
    }

    /// Creates a string that borrows `s` forever; never allocates, and
    /// neither do duplicates of the result.
    pub fn from_static(s: &'static str) -> (r: Self)
        requires
            s.spec_bytes().len() <= spec_max_len(),
        ensures
            r@ == s.spec_bytes(),
            s.spec_bytes().len() <= SHORT_CAP <==> r.kind() == BufKind::Short,
            s.spec_bytes().len() > SHORT_CAP ==> r.kind() == BufKind::Static,
    {
        MAString { inner: MAByteString::from_static(s.as_bytes()) }
    }

    /// Converts a string builder into a string, reusing its
    /// allocation; see [`MAByteString::from_builder`].
    pub fn from_builder(b: MAStringBuilder) -> (r: Self)
        ensures
            r@ == b@,
            b.is_short() <==> r.kind() == BufKind::Short,
    {
        MAString { inner: MAByteString::from_builder(b.into_inner()) }
    }

    /// The current mode of the buffer, for diagnostics and tests; see
    /// [`MAByteString::get_mode`].
    pub fn get_mode(&self) -> (m: &'static str)
        ensures
            crate::mode_label_ok(self.kind(), m@),
    {
        self.inner.get_mode()
    }

    /// Ensures there is capacity for at least `mincap` bytes; see
    /// [`MAByteString::reserve`].
    pub fn reserve(&mut self, mincap: usize)
        requires
            mincap <= spec_max_len(),
        ensures
            final(self)@ == old(self)@,
            !(old(self).kind() == BufKind::Short && mincap <= SHORT_CAP) ==> ({
                final(self).spec_capacity() >= mincap
            }),
    {
        proof {
            use_type_invariant(&*self);
        }
        let mut tmp = MAString::new();
        core::mem::swap(self, &mut tmp);
        let mut inner = tmp.inner;
        inner.reserve(mincap);
        *self = MAString { inner };
    }

    /// The capacity of the string; see [`MAByteString::capacity`].
    pub fn capacity(&self) -> (r: usize)
        ensures
            r == self.spec_capacity(),
    {
        self.inner.capacity()
    }

    /// Empties the string; see [`MAByteString::clear`] for when the
    /// capacity is kept.
    pub fn clear(&mut self)
        ensures
            final(self)@ == Seq::<u8>::empty(),
            final(self).kind() == BufKind::Short || (final(self).kind() == old(self).kind()
                && final(self).spec_capacity() == old(self).spec_capacity()),
    {
        proof {
            use_type_invariant(&*self);
        }
        let mut tmp = MAString::new();
        core::mem::swap(self, &mut tmp);
        let mut inner = tmp.inner;
        inner.clear();
        *self = MAString { inner };
    }

    /// Converts the string into a plain byte vector; see
    /// [`MAByteString::into_vec`].
    pub fn into_vec(self) -> (v: Vec<u8>)
        ensures
            v@ == self@,
    {
        self.inner.into_vec()
    }

    /// Wraps byte storage as a string, after checking that it holds
    /// valid UTF-8; the rejected storage comes back in the error.
    pub fn from_utf8(data: MAByteString) -> (r: Result<Self, Utf8Error>)
        ensures
            valid_utf8(data@) <==> r is Ok,
            match r {
                Ok(s) => s@ == data@,
                Err(e) => e@ == data@,
            },
    {
        if bytes_as_str(data.as_slice()).is_some() {
            Ok(MAString { inner: data })
        } else {
            Err(Utf8Error::new(data.into_vec()))
        }
    }

    /// Wraps byte storage as a string, replacing ill-formed sequences
    /// with the replacement character.  Well-formed input is wrapped
    /// unchanged; ill-formed input is rewritten by keeping each
    /// longest well-formed run and substituting one replacement
    /// character for each ill-formed byte run.
    pub fn from_utf8_lossy(data: MAByteString) -> (r: Self)
        requires
            3 * data@.len() <= spec_max_len(),
        ensures
            valid_utf8(data@) ==> r@ == data@,
            !valid_utf8(data@) ==> r@ == spec_lossy(data@, 0),
            valid_utf8(r@),
    {
        if bytes_as_str(data.as_slice()).is_some() {
            MAString { inner: data }
        } else {
            let repaired = lossy_repair(data.as_slice());
            MAString { inner: MAByteString::from_vec(repaired) }
        }
    }

    /// Converts the string into a plain `String`; reuses the
    /// allocation whenever the buffer was the sole owner of its heap
    /// payload.
    pub fn into_string(self) -> (r: String)
        ensures
            encode_utf8(r@) == self@,
    {
        proof {
            use_type_invariant(&self);
        }
        match string_from_utf8(self.inner.into_vec()) {
            Some(s) => s,
            None => vstd::pervasive::unreached(),
        }
    }

    /// Converts the string into the underlying byte buffer.
    pub fn into_bytes(self) -> (r: MAByteString)
        ensures
            r@ == self@,
            r.kind() == self.kind(),
            r.spec_capacity() == self.spec_capacity(),
            valid_utf8(r@),
    {
        proof {
            use_type_invariant(&self);
        }
        self.inner
    }

    /// Creates a string from a slice of characters; allocates only
    /// when the encoding does not fit inline.
    pub fn from_char_slice(chars: &[char]) -> (r: Self)
        requires
            encode_utf8(chars@).len() <= spec_max_len(),
        ensures
            r@ == encode_utf8(chars@),
    {
        let v = chars_to_vec(chars);
        MAString { inner: MAByteString::from_vec(v) }
    }

    /// Appends `s` to the string.
    pub fn push_str(&mut self, s: &str)
        requires
            old(self)@.len() + s.spec_bytes().len() <= spec_max_len(),
        ensures
            final(self)@ == old(self)@ + s.spec_bytes(),
    {
        proof {
            use_type_invariant(&*self);
            vstd::utf8::valid_utf8_concat(self.inner@, s.spec_bytes());
        }
        let mut tmp = MAString::new();
        core::mem::swap(self, &mut tmp);
        let mut inner = tmp.inner;
        inner.push_slice(s.as_bytes());
        *self = MAString { inner };
    }

    /// A read-only view of the string.
    pub fn as_str(&self) -> (r: &str)
        ensures
            r.spec_bytes() == self@,
    {
        proof {
            use_type_invariant(self);
        }
        match bytes_as_str(self.inner.as_slice()) {
            Some(s) => s,
            None => vstd::pervasive::unreached(),
        }
    }

    /// A read-only view of the payload bytes.
    pub fn as_bytes(&self) -> (r: &[u8])
        ensures
            r@ == self@,
    {
        self.inner.as_slice()
    }

    /// The number of payload bytes.
    pub fn len(&self) -> (r: usize)
        ensures
            r == self@.len(),
    {
        self.inner.len()
    }
}

impl Clone for MAString {
    /// Duplicates the handle without copying the payload; see
    /// [`MAByteString::clone`].
    fn clone(&self) -> (r: Self)
        ensures
            r@ == self@,
    {
        proof {
            use_type_invariant(self);
        }
        MAString { inner: self.inner.clone() }
    }
}

impl PartialEq for MAString {
    /// Equality is structural over the byte contents, never over the
    /// representation mode.
    fn eq(&self, other: &Self) -> (r: bool) {
        self.inner.eq(&other.inner)
    }
}

impl vstd::std_specs::cmp::PartialEqSpecImpl for MAString {
    open spec fn obeys_eq_spec() -> bool {
        true
    }

    open spec fn eq_spec(&self, other: &Self) -> bool {
        self@ == other@
    }
}

impl Eq for MAString {

}

impl PartialOrd for MAString {
    /// Ordering is lexicographic over the byte contents.
    fn partial_cmp(&self, other: &Self) -> (r: Option<core::cmp::Ordering>) {
        Some(slice_cmp(self.as_bytes(), other.as_bytes()))
    }
}

impl vstd::std_specs::cmp::PartialOrdSpecImpl for MAString {
    open spec fn obeys_partial_cmp_spec() -> bool {
        true
    }

    open spec fn partial_cmp_spec(&self, other: &Self) -> Option<core::cmp::Ordering> {
        Some(spec_cmp_bytes(self@, other@))
    }
}

/// The width of the longest well-formed scalar at position `i` of
/// `v` (at most four bytes), or zero when no well-formed sequence
/// starts there.
pub open spec fn spec_lossy_width(v: Seq<u8>, i: int) -> int {
    if i + 4 <= v.len() && valid_utf8(v.subrange(i, i + 4)) {
        4
    } else if i + 3 <= v.len() && valid_utf8(v.subrange(i, i + 3)) {
        3
    } else if i + 2 <= v.len() && valid_utf8(v.subrange(i, i + 2)) {
        2
    } else if i + 1 <= v.len() && valid_utf8(v.subrange(i, i + 1)) {
        1
    } else {
        0
    }
}

/// The repair the lossy constructors apply from position `i` on: each
/// longest well-formed scalar is kept, and each byte that starts no
/// well-formed sequence becomes one replacement character.
pub open spec fn spec_lossy(v: Seq<u8>, i: int) -> Seq<u8>
    decreases v.len() - i,
    when 0 <= i <= v.len()
{
    if i >= v.len() {
        Seq::<u8>::empty()
    } else {
        let w = spec_lossy_width(v, i);
        if w > 0 {
            v.subrange(i, i + w) + spec_lossy(v, i + w)
        } else {
            seq![0xEFu8, 0xBFu8, 0xBDu8] + spec_lossy(v, i + 1)
        }
    }
}

/// Rewrites arbitrary bytes into valid UTF-8 following
/// [`spec_lossy`].
pub(crate) fn lossy_repair(v: &[u8]) -> (out: Vec<u8>)
    requires
        3 * v@.len() <= spec_max_len(),
    ensures
        valid_utf8(out@),
        out@.len() <= spec_max_len(),
        out@ == spec_lossy(v@, 0),
{
    let n = v.len();
    let mut out: Vec<u8> = Vec::new();
    let mut i: usize = 0;
    while i < n
        invariant
            i <= n,
            n == v@.len(),
            3 * n <= spec_max_len(),
            valid_utf8(out@),
            out@.len() <= 3 * i,
            spec_lossy(v@, 0) == out@ + spec_lossy(v@, i as int),
        decreases n - i,
    {
        // longest well-formed scalar starting here, at most four bytes
        let mut width: usize = 0;
        let hi: usize = if n - i < 4 {
            n - i
        } else {
            4
        };
        let mut w: usize = hi;
        while w > 0 && width == 0
            invariant
                w <= hi,
                hi as int == if n - i < 4 {
                    n - i
                } else {
                    4int
                },
                i + hi <= n,
                i < n,
                n == v@.len(),
                width == 0 ==> forall|w2: int|
                    w < w2 <= hi ==> !valid_utf8(#[trigger] v@.subrange(i as int, i + w2)),
                width > 0 ==> ({
                    &&& width == w
                    &&& 1 <= width <= hi
                    &&& valid_utf8(v@.subrange(i as int, i + width as int))
                    &&& forall|w2: int|
                        width < w2 <= hi ==> !valid_utf8(#[trigger] v@.subrange(i as int, i + w2))
                }),
            decreases w + (if width == 0 { 1int } else { 0int }),
        {
            let piece = vstd::slice::slice_subrange(v, i, i + w);
            if bytes_as_str(piece).is_some() {
                width = w;
            } else {
                w -= 1;
            }
        }
        if width > 0 {
            proof {
                assert(width as int == spec_lossy_width(v@, i as int));
            }
            let piece = vstd::slice::slice_subrange(v, i, i + width);
            proof {
                vstd::utf8::valid_utf8_concat(out@, piece@);
                assert(out@ + (piece@ + spec_lossy(v@, i + width as int)) =~= (out@ + piece@)
                    + spec_lossy(v@, i + width as int));
            }
            crate::shared::extend_bytes(&mut out, piece);
            i += width;
        } else {
            // no well-formed sequence starts at this byte: it becomes
            // one replacement character
            proof {
                assert(spec_lossy_width(v@, i as int) == 0);
            }
            let rep: [u8; 3] = [0xEF, 0xBF, 0xBD];
            proof {
                lemma_replacement_bytes();
                assert(rep@ =~= seq![0xEFu8, 0xBFu8, 0xBDu8]);
                vstd::utf8::valid_utf8_concat(out@, rep@);
                assert(out@ + (rep@ + spec_lossy(v@, i + 1)) =~= (out@ + rep@) + spec_lossy(
                    v@,
                    i + 1,
                ));
            }
            crate::shared::extend_bytes(&mut out, rep.as_slice());
            i += 1;
        }
    }
    proof {
        assert(spec_lossy(v@, n as int) =~= Seq::<u8>::empty());
        assert(out@ + Seq::<u8>::empty() =~= out@);
    }
    out
}

} // verus!
