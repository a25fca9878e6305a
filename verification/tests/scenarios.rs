//! End-to-end scenarios exercising the ownership-mode state machine:
//! round trips, mode selection, copy-on-write isolation, repeated
//! duplication, clearing, and capacity growth.

use mastring::MAByteString;
use mastring::MAByteStringBuilder;
use mastring::SHORT_CAP;
use mastring::MAString;
use mastring::bytes_debug;

#[test]
fn scenario_short_literal() {
    // a 4-byte payload from the static constructor: short mode, with
    // the full inline byte budget as its capacity
    let s = MAByteString::from_static(b"test");
    assert_eq!(s.get_mode(), "short");
    assert_eq!(s.capacity(), SHORT_CAP);
}

#[test]
fn scenario_static_then_reserve() {
    // a 45-byte static payload; reserving copies it to the heap with
    // an inline control block and capacity covering the length
    let lit: &[u8] = b"a static payload of forty-five bytes in size!";
    assert_eq!(lit.len(), 45);
    let mut s = MAByteString::from_static(lit);
    assert_eq!(s.get_mode(), "static");
    s.reserve(10);
    assert_eq!(s.get_mode(), "cbinline (unique)");
    assert!(s.capacity() >= s.len());
    assert_eq!(s.as_slice(), lit);
}

#[test]
fn scenario_exact_vec_duplication() {
    // a buffer built from a vector with no spare room starts unique;
    // duplicating installs a separate control block, visible through
    // both handles; dropping one leaves the other solely referenced
    // with its capacity intact
    let lit: &[u8] = b"a heap-owned payload of forty-five bytes long";
    assert_eq!(lit.len(), 45);
    let s = MAByteString::from_vec(lit.to_vec());
    assert_eq!(s.get_mode(), "unique");
    let cap = s.capacity();
    let s2 = s.clone();
    assert_eq!(s.get_mode(), "cbowned (shared)");
    assert_eq!(s2.get_mode(), "cbowned (shared)");
    drop(s2);
    assert_eq!(s.get_mode(), "cbowned (unique)");
    assert_eq!(s.capacity(), cap);
}

#[test]
fn scenario_spare_vec_inline_control_block() {
    // a vector with 100 bytes of spare capacity gets an inline
    // control block immediately, before any duplication
    let mut v = Vec::with_capacity(100);
    v.extend_from_slice(b"a heap-owned payload of forty-five bytes long");
    let s = MAByteString::from_vec(v);
    assert_eq!(s.get_mode(), "cbinline (unique)");
}

#[test]
fn scenario_append_growth() {
    // appending 3 bytes to a short buffer stays inline; appending
    // past the inline budget promotes to the heap with capacity
    // covering the new length
    let mut s = MAByteString::from_static(b"test");
    s.push_slice(b"foo");
    assert_eq!(s.get_mode(), "short");
    assert_eq!(s.as_slice(), b"testfoo" as &[u8]);
    s.push_slice(b"0123456789012345678901234567890123456789");
    assert_ne!(s.get_mode(), "short");
    assert!(s.capacity() >= s.len());
    assert_eq!(
        s.as_slice(),
        b"testfoo0123456789012345678901234567890123456789" as &[u8]
    );
}

#[test]
fn scenario_duplication_stress() {
    // duplicating a shared buffer many times and dropping all but one
    // handle leaves a solely referenced buffer with its bytes intact
    let lit: &[u8] = b"a heap-owned payload of forty-five bytes long";
    let s = MAByteString::from_vec(lit.to_vec());
    assert_eq!(s.get_mode(), "unique");
    let mut handles = Vec::new();
    for _i in 0..1000 {
        handles.push(s.clone());
    }
    assert_eq!(s.get_mode(), "cbowned (shared)");
    for h in &handles {
        assert_eq!(h.get_mode(), "cbowned (shared)");
        assert_eq!(h.as_slice(), lit);
    }
    drop(handles);
    assert_eq!(s.get_mode(), "cbowned (unique)");
    assert_eq!(s.as_slice(), lit);
}

#[test]
fn scenario_round_trip() {
    // into_vec(construct(s)) == s across all constructors
    let payloads: [&[u8]; 4] = [
        b"",
        b"short",
        b"exactly thirty-one bytes long!!",
        b"a payload too long to be stored inline by anyone",
    ];
    for p in payloads {
        assert_eq!(MAByteString::from_slice(p).into_vec().as_slice(), p);
        assert_eq!(MAByteString::from_vec(p.to_vec()).into_vec().as_slice(), p);
        assert_eq!(
            MAByteString::from_builder(MAByteStringBuilder::from_slice(p))
                .into_vec()
                .as_slice(),
            p
        );
        assert_eq!(
            MAByteStringBuilder::from_slice(p).into_vec().as_slice(),
            p
        );
    }
    assert_eq!(
        MAByteString::from_static(b"a payload too long to be stored inline by anyone")
            .into_vec()
            .as_slice(),
        b"a payload too long to be stored inline by anyone" as &[u8]
    );
}

#[test]
fn scenario_cow_isolation() {
    // mutating a duplicate never changes the original, and vice versa
    let a = MAByteString::from_slice(b"the quick brown fox jumped over the lazy dog");
    let mut b = a.clone();
    b.push_slice(b"!");
    assert_eq!(
        a.as_slice(),
        b"the quick brown fox jumped over the lazy dog" as &[u8]
    );
    assert_eq!(
        b.as_slice(),
        b"the quick brown fox jumped over the lazy dog!" as &[u8]
    );

    let mut a2 = a.clone();
    let b2 = a2.clone();
    a2.clear();
    assert_eq!(a2.as_slice(), b"" as &[u8]);
    assert_eq!(
        b2.as_slice(),
        b"the quick brown fox jumped over the lazy dog" as &[u8]
    );
}

#[test]
fn scenario_duplication_allocates_no_payload() {
    // after the first duplication installs the control block, further
    // duplicates merely reference it: every handle reports shared
    // mode against the same payload
    let s = MAByteString::from_slice(b"the quick brown fox jumped over the lazy dog");
    assert_eq!(s.get_mode(), "cbinline (unique)");
    let s2 = s.clone();
    let s3 = s2.clone();
    let s4 = s3.clone();
    for h in [&s, &s2, &s3, &s4] {
        assert_eq!(h.get_mode(), "cbinline (shared)");
        assert_eq!(
            h.as_slice(),
            b"the quick brown fox jumped over the lazy dog" as &[u8]
        );
    }
}

#[test]
fn scenario_reserve_monotonic() {
    // after reserve(n), capacity >= n, and the bytes are unchanged
    let samples: [usize; 5] = [0, 10, 31, 32, 200];
    for n in samples {
        let mut s = MAByteString::from_static(b"test");
        s.reserve(n);
        assert!(s.capacity() >= n);
        assert_eq!(s.as_slice(), b"test" as &[u8]);

        let mut b = MAByteStringBuilder::from_slice(b"test");
        b.reserve(n);
        assert!(b.capacity() >= n);
        assert_eq!(b.as_slice(), b"test" as &[u8]);
    }
}

#[test]
fn scenario_hex_escapes() {
    // one exact expected value for the escape formula
    assert_eq!(bytes_debug(b"\x00\x0a\x1f").as_slice(), br#"b"\x00\x0a\x1f""# as &[u8]);
    assert_eq!(bytes_debug(b"").as_slice(), br#"b"""# as &[u8]);
    assert_eq!(bytes_debug(b"~ ok").as_slice(), br#"b"~ ok""# as &[u8]);
}

#[test]
fn scenario_lossy_repair() {
    // a lone invalid byte becomes one replacement character
    let s = MAString::from_utf8_lossy(MAByteString::from_static(b"ok\xFFok"));
    assert_eq!(s.as_str(), "ok\u{FFFD}ok");
    // each byte of a truncated sequence that starts no well-formed
    // scalar becomes its own replacement character
    let s = MAString::from_utf8_lossy(MAByteString::from_static(b"\xE1\x80"));
    assert_eq!(s.as_str(), "\u{FFFD}\u{FFFD}");
    // well-formed multi-byte scalars survive untouched
    let s = MAString::from_utf8_lossy(MAByteString::from_static(
        "caf\u{E9} \u{1f980}".as_bytes(),
    ));
    assert_eq!(s.as_str(), "caf\u{E9} \u{1f980}");
}

#[test]
fn scenario_utf8_errors() {
    // an error returns exactly the rejected bytes
    let e = MAString::from_utf8(MAByteString::from_static(b"ab\x80")).unwrap_err();
    assert_eq!(e.as_bytes(), b"ab\x80" as &[u8]);
    assert_eq!(e.into_bytes().as_slice(), b"ab\x80" as &[u8]);
    // and success keeps the buffer as it was
    let s = MAString::from_utf8(MAByteString::from_static(
        b"the quick brown fox jumped over the lazy dog",
    ))
    .unwrap();
    assert_eq!(s.get_mode(), "static");
}

#[test]
fn scenario_join_edges() {
    let sep = MAByteStringBuilder::from_slice(b", ");
    let none: [&[u8]; 0] = [];
    assert_eq!(sep.join(&none).as_slice(), b"" as &[u8]);
    let one: [&[u8]; 1] = [b"solo"];
    assert_eq!(sep.join(&one).as_slice(), b"solo" as &[u8]);
    let two: [&[u8]; 2] = [b"a", b"b"];
    assert_eq!(sep.join(&two).as_slice(), b"a, b" as &[u8]);
    let strs = ["x", "y"];
    assert_eq!(
        MAByteStringBuilder::from_slice(b"-").join(&strs).as_slice(),
        b"x-y" as &[u8]
    );
}
