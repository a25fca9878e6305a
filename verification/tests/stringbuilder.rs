use mastring::MAByteStringBuilder;
use mastring::MAString;
use mastring::MAStringBuilder;
use mastring::SHORT_CAP;

#[test]
fn stringbuilder_test_new() {
    let s = MAStringBuilder::new();
    assert_eq!(s.as_str(), "");
    assert_eq!(s.get_mode(), "short");
}

#[test]
fn stringbuilder_test_from_slice() {
    let s = MAStringBuilder::from_slice("test");
    assert_eq!(s.as_str(), "test");
    assert_eq!(s.get_mode(), "short");

    let s = MAStringBuilder::from_slice("the quick brown fox jumped over the lazy dog");
    assert_eq!(s.as_str(), "the quick brown fox jumped over the lazy dog");
    assert_eq!(s.get_mode(), "unique");
}

#[test]
fn test_from_string() {
    let s = MAStringBuilder::from_string("test".to_string());
    assert_eq!(s.as_str(), "test");
    assert_eq!(s.get_mode(), "short");

    let s = MAStringBuilder::from_string("the quick brown fox jumped over the lazy dog".to_string());
    assert_eq!(s.as_str(), "the quick brown fox jumped over the lazy dog");
    assert_eq!(s.get_mode(), "unique");

    let mut v = String::with_capacity(100);
    v.push_str("the quick brown fox jumped over the lazy dog");
    let s = MAStringBuilder::from_string(v);
    assert_eq!(s.as_str(), "the quick brown fox jumped over the lazy dog");
    assert_eq!(s.get_mode(), "unique");
}

#[test]
fn test_from_mas() {
    let s = MAStringBuilder::from_mas(MAString::from_slice("test"));
    assert_eq!(s.as_str(), "test");
    assert_eq!(s.get_mode(), "short");

    let s = MAStringBuilder::from_mas(MAString::from_string(
        "the quick brown fox jumped over the lazy dog".to_string(),
    ));
    assert_eq!(s.as_str(), "the quick brown fox jumped over the lazy dog");
    assert_eq!(s.get_mode(), "unique");

    let s = MAStringBuilder::from_mas(MAString::from_slice(
        "the quick brown fox jumped over the lazy dog",
    ));
    assert_eq!(s.as_str(), "the quick brown fox jumped over the lazy dog");
    assert_eq!(s.get_mode(), "unique");
}

#[test]
fn stringbuilder_test_get_mode() {
    let s = MAStringBuilder::from_slice("test");
    assert_eq!(s.get_mode(), "short");

    let s = MAStringBuilder::from_string("the quick brown fox jumped over the lazy dog".to_string());
    assert_eq!(s.get_mode(), "unique");
}

#[test]
fn stringbuilder_test_reserve() {
    let mut s = MAStringBuilder::from_slice("test");
    assert_eq!(s.get_mode(), "short");
    s.reserve(10);
    assert_eq!(s.as_str(), "test");
    assert_eq!(s.get_mode(), "short");
    assert_eq!(s.capacity(), SHORT_CAP);
    s.reserve(100);
    assert_eq!(s.as_str(), "test");
    assert_eq!(s.get_mode(), "unique");
    assert!(s.capacity() >= 100);
    assert!(s.capacity() <= 150);
    s.reserve(10); //should do nothing
    assert!(s.capacity() >= 100);
    assert!(s.capacity() <= 150);
    s.reserve(200);
    assert_eq!(s.as_str(), "test");
    assert_eq!(s.get_mode(), "unique");
    assert!(s.capacity() >= 200);
    assert!(s.capacity() <= 250);
}

#[test]
fn stringbuilder_test_capacity() {
    let s = MAStringBuilder::from_slice("test");
    assert_eq!(s.capacity(), SHORT_CAP);
    let v = "the quick brown fox jumped over the lazy dog".to_string();
    let veccap = v.capacity();
    let s = MAStringBuilder::from_string(v);
    assert_eq!(s.get_mode(), "unique");
    assert_eq!(s.capacity(), veccap);
}

#[test]
fn stringbuilder_test_clear() {
    let mut s = MAStringBuilder::from_slice("test");
    assert_eq!(s.get_mode(), "short");
    s.clear();
    assert_eq!(s.get_mode(), "short");
    assert_eq!(s.as_str(), "");

    let v = "the quick brown fox jumped over the lazy dog".to_string();
    let veccap = v.capacity();
    let mut s = MAStringBuilder::from_string(v);
    assert_eq!(s.get_mode(), "unique");
    assert_eq!(s.capacity(), veccap);
    s.clear();
    assert_eq!(s.as_str(), "");
    assert_eq!(s.get_mode(), "unique");
    assert_eq!(s.capacity(), veccap);
}

#[test]
fn stringbuilder_test_into_vec() {
    let s = MAStringBuilder::from_slice("the quick brown fox jumped over the lazy dog");
    let capacity = s.capacity();
    let v = s.into_vec();
    assert_eq!(
        v.as_slice(),
        b"the quick brown fox jumped over the lazy dog" as &[u8]
    );
    assert_eq!(v.capacity(), capacity);

    let s = MAStringBuilder::from_slice("test");
    let v = s.into_vec();
    assert_eq!(v.as_slice(), b"test" as &[u8]);
}

#[test]
fn stringbuilder_test_into_string() {
    let s = MAStringBuilder::from_slice("the quick brown fox jumped over the lazy dog");
    let v = s.into_string();
    assert_eq!(v, "the quick brown fox jumped over the lazy dog");

    let s = MAStringBuilder::from_slice("test");
    let v = s.into_string();
    assert_eq!(v, "test");
}

#[test]
fn stringbuilder_test_clone_and_drop() {
    let s = MAStringBuilder::from_slice("test");
    assert_eq!(s.get_mode(), "short");
    let s2 = s.clone();
    assert_eq!(s.get_mode(), "short");
    assert_eq!(s2.get_mode(), "short");
    drop(s2);
    assert_eq!(s.get_mode(), "short");

    let s = MAStringBuilder::from_slice("the quick brown fox jumped over the lazy dog");
    assert_eq!(s.get_mode(), "unique");
    let s2 = s.clone();
    assert_eq!(s.get_mode(), "unique");
    assert_eq!(s2.get_mode(), "unique");
    drop(s2);
    assert_eq!(s.get_mode(), "unique");
}

#[test]
fn stringbuilder_test_deref() {
    let s = MAStringBuilder::from_slice("test");
    assert_eq!(s.get_mode(), "short");
    let r = s.as_str();
    assert_eq!(r, "test");
    assert_eq!(r.len(), 4);

    let s = MAStringBuilder::from_slice("the quick brown fox jumped over the lazy dog");
    assert_eq!(s.get_mode(), "unique");
    let r = s.as_str();
    assert_eq!(r, "the quick brown fox jumped over the lazy dog");
}

#[test]
fn stringbuilder_test_add_and_eq() {
    let mut s = MAStringBuilder::from_slice("test");
    s.push_str("foo");
    assert_eq!(s.get_mode(), "short");
    assert_eq!(s.as_str(), "testfoo");
    s.push_str("the quick brown fox jumped over the lazy dog");
    assert_eq!(s.get_mode(), "unique");
    assert_eq!(
        s.as_str(),
        "testfoothe quick brown fox jumped over the lazy dog"
    );
    assert_eq!(s, MAStringBuilder::from_slice(s.as_str()));
}

#[test]
fn stringbuilder_test_from_utf8() {
    let s = MAStringBuilder::from_utf8(MAByteStringBuilder::from_slice(b"test"));
    assert_eq!(s.unwrap(), MAStringBuilder::from_slice("test"));
    let s = MAStringBuilder::from_utf8(MAByteStringBuilder::from_slice(b"\xFF"));
    assert_eq!(s.unwrap_err().as_bytes(), b"\xFF" as &[u8]);
}

#[test]
fn stringbuilder_test_from_utf8_lossy() {
    let s = MAStringBuilder::from_utf8_lossy(MAByteStringBuilder::from_slice(b"test"));
    assert_eq!(s, MAStringBuilder::from_slice("test"));
    let s = MAStringBuilder::from_utf8_lossy(MAByteStringBuilder::from_slice(b"\xFF"));
    assert_eq!(s, MAStringBuilder::from_slice("\u{FFFD}"));
}

#[test]
fn stringbuilder_test_into_bytes() {
    let s = MAStringBuilder::from_slice("the quick brown fox jumped over the lazy dog");
    assert_eq!(
        s.into_bytes(),
        MAByteStringBuilder::from_slice(b"the quick brown fox jumped over the lazy dog")
    );
}

#[test]
fn stringbuilder_test_comparision() {
    assert!(MAStringBuilder::from_slice("A") < MAStringBuilder::from_slice("B"));
}

#[test]
fn stringbuilder_test_from_char_slice() {
    let s = MAStringBuilder::from_char_slice(&['1', '2', '3', '4']);
    assert_eq!(s.as_str(), "1234");
    assert_eq!(s.get_mode(), "short");

    let s = MAStringBuilder::from_char_slice(&[
        '1', '2', '3', '4', '5', '6', '7', '8', '9', '0', '1', '2', '3', '4', '5', '6', '7', '8',
        '9', '0', '1', '2', '3', '4', '5', '6', '7', '8', '9', '0', '1', '2', '\u{03A9}',
        '\u{2261}', '\u{1f980}',
    ]);
    assert_eq!(
        s.as_str(),
        "12345678901234567890123456789012\u{03A9}\u{2261}\u{1f980}"
    );
    assert_eq!(s.get_mode(), "unique");
}
