use mastring::MAByteString;
use mastring::MAString;
use mastring::MAStringBuilder;
use mastring::SHORT_CAP;
use mastring::chars_to_bytes;
use mastring::chars_utf8len;

#[test]
fn string_test_new() {
    let s = MAString::new();
    assert_eq!(s.as_str(), "");
    assert_eq!(s.get_mode(), "short");
}

#[test]
fn string_test_from_slice() {
    let s = MAString::from_slice("test");
    assert_eq!(s.as_str(), "test");
    assert_eq!(s.get_mode(), "short");

    let s = MAString::from_slice("the quick brown fox jumped over the lazy dog");
    assert_eq!(s.as_str(), "the quick brown fox jumped over the lazy dog");
    assert_eq!(s.get_mode(), "cbinline (unique)");
}

#[test]
fn test_from_str() {
    let s = MAString::from_string("test".to_string());
    assert_eq!(s.as_str(), "test");
    assert_eq!(s.get_mode(), "short");

    let s = MAString::from_string("the quick brown fox jumped over the lazy dog".to_string());
    assert_eq!(s.as_str(), "the quick brown fox jumped over the lazy dog");
    assert_eq!(s.get_mode(), "unique");

    let mut v = String::with_capacity(100);
    v.push_str("the quick brown fox jumped over the lazy dog");
    let s = MAString::from_string(v);
    assert_eq!(s.as_str(), "the quick brown fox jumped over the lazy dog");
    assert_eq!(s.get_mode(), "cbinline (unique)");
}

#[test]
fn string_test_from_static() {
    let s = MAString::from_static("test");
    assert_eq!(s.as_str(), "test");
    assert_eq!(s.get_mode(), "short");

    let s = MAString::from_static("the quick brown fox jumped over the lazy dog");
    assert_eq!(s.as_str(), "the quick brown fox jumped over the lazy dog");
    assert_eq!(s.get_mode(), "static");
}

#[test]
fn string_test_from_builder() {
    let s = MAString::from_builder(MAStringBuilder::from_slice("test"));
    assert_eq!(s.as_str(), "test");
    assert_eq!(s.get_mode(), "short");

    let s = MAString::from_builder(MAStringBuilder::from_string(
        "the quick brown fox jumped over the lazy dog".to_string(),
    ));
    assert_eq!(s.as_str(), "the quick brown fox jumped over the lazy dog");
    assert_eq!(s.get_mode(), "unique");

    let s = MAString::from_builder(MAStringBuilder::from_slice(
        "the quick brown fox jumped over the lazy dog",
    ));
    assert_eq!(s.as_str(), "the quick brown fox jumped over the lazy dog");
    assert_eq!(s.get_mode(), "cbinline (unique)");
}

#[test]
fn string_test_get_mode() {
    let s = MAString::from_static("test");
    assert_eq!(s.get_mode(), "short");

    let s = MAString::from_static("the quick brown fox jumped over the lazy dog");
    assert_eq!(s.get_mode(), "static");

    let s = MAString::from_string("the quick brown fox jumped over the lazy dog".to_string());
    assert_eq!(s.get_mode(), "unique");
    let s2 = s.clone();
    assert_eq!(s.get_mode(), "cbowned (shared)");
    drop(s2);
    assert_eq!(s.get_mode(), "cbowned (unique)");

    let s = MAString::from_slice("the quick brown fox jumped over the lazy dog");
    assert_eq!(s.get_mode(), "cbinline (unique)");
    let s2 = s.clone();
    assert_eq!(s.get_mode(), "cbinline (shared)");
    assert_eq!(s2.get_mode(), "cbinline (shared)");
}

#[test]
fn string_test_reserve() {
    let mut s = MAString::from_static("test");
    assert_eq!(s.get_mode(), "short");
    s.reserve(10);
    assert_eq!(s.as_str(), "test");
    assert_eq!(s.get_mode(), "short");
    assert_eq!(s.capacity(), SHORT_CAP);
    s.reserve(100);
    assert_eq!(s.as_str(), "test");
    assert_eq!(s.get_mode(), "cbinline (unique)");
    assert!(s.capacity() >= 100);
    assert!(s.capacity() <= 150);
    s.reserve(10); //should do nothing
    assert!(s.capacity() >= 100);
    assert!(s.capacity() <= 150);

    let mut s = MAString::from_static("the quick brown fox jumped over the lazy dog");
    assert_eq!(s.get_mode(), "static");
    s.reserve(10);
    assert_eq!(s.as_str(), "the quick brown fox jumped over the lazy dog");
    assert_eq!(s.get_mode(), "cbinline (unique)");
    assert!(s.capacity() >= "the quick brown fox jumped over the lazy dog".len());
    assert!(s.capacity() <= "the quick brown fox jumped over the lazy dog".len() + 50);

    let mut s = MAString::from_string("the quick brown fox jumped over the lazy dog".to_string());
    assert_eq!(s.get_mode(), "unique");
    let s2 = s.clone();
    assert_eq!(s.get_mode(), "cbowned (shared)");
    assert_eq!(s2.get_mode(), "cbowned (shared)");
    s.reserve(10); // shared, so the buffer must detach
    assert_eq!(s.get_mode(), "cbinline (unique)");
    assert_eq!(s2.get_mode(), "cbowned (unique)");
    assert_eq!(s.as_str(), "the quick brown fox jumped over the lazy dog");
    assert_eq!(s2.as_str(), "the quick brown fox jumped over the lazy dog");

    let mut s = MAString::from_static("the quick brown fox jumped over the lazy dog");
    s.reserve(200);
    assert_eq!(s.as_str(), "the quick brown fox jumped over the lazy dog");
    assert_eq!(s.get_mode(), "cbinline (unique)");
    assert!(s.capacity() >= 200);
    assert!(s.capacity() <= 250);
}

#[test]
fn string_test_capacity() {
    let s = MAString::from_static("test"); // short string
    assert_eq!(s.capacity(), SHORT_CAP);
    let s = MAString::from_static("the quick brown fox jumped over the lazy dog");
    assert_eq!(s.capacity(), 0);
    let v = "the quick brown fox jumped over the lazy dog".to_string();
    let veccap = v.capacity();
    let s = MAString::from_string(v);
    assert_eq!(s.get_mode(), "unique");
    assert_eq!(s.capacity(), veccap);
    let s2 = s.clone();
    assert_eq!(s.get_mode(), "cbowned (shared)");
    assert_eq!(s.capacity(), veccap);
    assert_eq!(s2.get_mode(), "cbowned (shared)");
    assert_eq!(s2.capacity(), veccap);
}

#[test]
fn string_test_clear() {
    let mut s = MAString::from_static("test");
    assert_eq!(s.get_mode(), "short");
    s.clear();
    assert_eq!(s.get_mode(), "short");
    assert_eq!(s.as_str(), "");

    let mut s = MAString::from_static("the quick brown fox jumped over the lazy dog");
    assert_eq!(s.get_mode(), "static");
    s.clear();
    assert_eq!(s.as_str(), "");
    assert_eq!(s.get_mode(), "short");

    let v = "the quick brown fox jumped over the lazy dog".to_string();
    let veccap = v.capacity();
    let mut s = MAString::from_string(v);
    assert_eq!(s.get_mode(), "unique");
    assert_eq!(s.capacity(), veccap);
    s.clear();
    assert_eq!(s.as_str(), "");
    assert_eq!(s.get_mode(), "unique");
    assert_eq!(s.capacity(), veccap);

    let mut s = MAString::from_slice("the quick brown fox jumped over the lazy dog");
    assert_eq!(s.get_mode(), "cbinline (unique)");
    let s2 = s.clone();
    assert_eq!(s.get_mode(), "cbinline (shared)");
    s.clear();
    assert_eq!(s.as_str(), "");
    assert_eq!(s.get_mode(), "short");
    assert_eq!(s.capacity(), SHORT_CAP);
    assert_eq!(s2.as_str(), "the quick brown fox jumped over the lazy dog");
    drop(s2);
}

#[test]
fn string_test_clone_and_drop() {
    let s = MAString::from_static("test");
    assert_eq!(s.get_mode(), "short");
    let s2 = s.clone();
    assert_eq!(s.get_mode(), "short");
    assert_eq!(s2.get_mode(), "short");
    drop(s2);
    assert_eq!(s.get_mode(), "short");

    let s = MAString::from_static("the quick brown fox jumped over the lazy dog");
    assert_eq!(s.get_mode(), "static");
    let s2 = s.clone();
    assert_eq!(s.get_mode(), "static");
    assert_eq!(s2.get_mode(), "static");
    drop(s2);
    assert_eq!(s.get_mode(), "static");

    let s = MAString::from_slice("the quick brown fox jumped over the lazy dog");
    assert_eq!(s.get_mode(), "cbinline (unique)");
    let s2 = s.clone();
    assert_eq!(s.get_mode(), "cbinline (shared)");
    assert_eq!(s2.get_mode(), "cbinline (shared)");
    drop(s2);
    assert_eq!(s.get_mode(), "cbinline (unique)");

    let s = MAString::from_string("the quick brown fox jumped over the lazy dog".to_string());
    assert_eq!(s.get_mode(), "unique");
    let s2 = s.clone();
    assert_eq!(s.get_mode(), "cbowned (shared)");
    assert_eq!(s2.get_mode(), "cbowned (shared)");
    drop(s2);
    assert_eq!(s.get_mode(), "cbowned (unique)");
}

#[test]
fn string_test_deref() {
    let s = MAString::from_static("test");
    assert_eq!(s.get_mode(), "short");
    let r = s.as_str();
    assert_eq!(r, "test");
    assert_eq!(r.len(), 4);

    let s = MAString::from_static("the quick brown fox jumped over the lazy dog");
    assert_eq!(s.get_mode(), "static");
    let r = s.as_str();
    assert_eq!(r, "the quick brown fox jumped over the lazy dog");
}

#[test]
fn string_test_add_and_eq() {
    let mut s = MAString::from_static("test");
    s.push_str("foo");
    assert_eq!(s.get_mode(), "short");
    assert_eq!(s.as_str(), "testfoo");
    s.push_str("the quick brown fox jumped over the lazy dog");
    assert_eq!(s.get_mode(), "cbinline (unique)");
    assert_eq!(
        s.as_str(),
        "testfoothe quick brown fox jumped over the lazy dog"
    );
    assert_eq!(s, MAString::from_slice(s.as_str()));
}

#[test]
fn string_test_into_vec() {
    let s = MAString::from_slice("the quick brown fox jumped over the lazy dog");
    let capacity = s.capacity();
    let v = s.into_vec();
    assert_eq!(
        v.as_slice(),
        b"the quick brown fox jumped over the lazy dog" as &[u8]
    );
    assert!(v.capacity() > capacity);

    let s = MAString::from_static("the quick brown fox jumped over the lazy dog");
    let v = s.into_vec();
    assert_eq!(
        v.as_slice(),
        b"the quick brown fox jumped over the lazy dog" as &[u8]
    );
}

#[test]
fn string_test_into_string() {
    let s = MAString::from_slice("the quick brown fox jumped over the lazy dog");
    let v = s.into_string();
    assert_eq!(v, "the quick brown fox jumped over the lazy dog");

    let s = MAString::from_static("the quick brown fox jumped over the lazy dog");
    let v = s.into_string();
    assert_eq!(v, "the quick brown fox jumped over the lazy dog");
}

#[test]
fn string_test_from_utf8() {
    let s = MAString::from_utf8(MAByteString::from_static(b"test"));
    assert_eq!(s.unwrap(), MAString::from_static("test"));
    let s = MAString::from_utf8(MAByteString::from_static(b"\xFF"));
    assert_eq!(s.unwrap_err().as_bytes(), b"\xFF" as &[u8]);
}

#[test]
fn string_test_from_utf8_lossy() {
    let s = MAString::from_utf8_lossy(MAByteString::from_static(b"test"));
    assert_eq!(s, MAString::from_static("test"));
    let s = MAString::from_utf8_lossy(MAByteString::from_static(b"\xFF"));
    assert_eq!(s, MAString::from_static("\u{FFFD}"));
}

#[test]
fn string_test_into_bytes() {
    let s = MAString::from_static("the quick brown fox jumped over the lazy dog");
    assert_eq!(
        s.into_bytes(),
        MAByteString::from_static(b"the quick brown fox jumped over the lazy dog")
    );
}

#[test]
fn string_test_comparision() {
    assert!(MAString::from_static("A") < MAString::from_static("B"));
}

#[test]
fn test_from_char_slice() {
    let s = MAString::from_char_slice(&['t', 'e', 's', 't']);
    assert_eq!(s.as_str(), "test");
    assert_eq!(s.get_mode(), "short");

    let s = MAString::from_char_slice(&['\u{03A9}', '\u{2261}', '\u{1f980}']);
    assert_eq!(s.as_str(), "\u{03A9}\u{2261}\u{1f980}");
}

#[test]
fn test_chars_helpers() {
    let chars = ['1', '2', '3', '4'];
    assert_eq!(chars_utf8len(&chars), 4);
    let bytes: [u8; 4] = chars_to_bytes(&chars);
    assert_eq!(bytes, *b"1234");

    let chars = ['\u{03A9}', '\u{2261}', '\u{1f980}'];
    assert_eq!(chars_utf8len(&chars), 9);
    let bytes: [u8; 9] = chars_to_bytes(&chars);
    assert_eq!(&bytes, "\u{03A9}\u{2261}\u{1f980}".as_bytes());

    // spare space past the encoding stays zeroed
    let bytes: [u8; 6] = chars_to_bytes(&['h', 'i']);
    assert_eq!(&bytes, b"hi\0\0\0\0");
}
