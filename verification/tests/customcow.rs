use mastring::CustomCow;
use mastring::MAByteString;
use mastring::MAString;

#[test]
fn test_into_owned() {
    let c: CustomCow<MAString> = CustomCow::Borrowed("hi");
    assert_eq!("hi", c.into_owned().as_str());
    let c = CustomCow::Owned(MAString::from_static("there"));
    assert_eq!("there", c.into_owned().as_str());
}

#[test]
fn test_to_mut() {
    let mut c: CustomCow<MAByteString> = CustomCow::Borrowed(b"hello" as &[u8]);
    c.to_mut();
    assert!(matches!(&c, CustomCow::Owned(_)));
    assert_eq!(c.into_owned().as_slice(), b"hello" as &[u8]);

    let mut c: CustomCow<MAByteString> = CustomCow::Owned(MAByteString::from_static(b"hello"));
    c.to_mut();
    assert!(matches!(&c, CustomCow::Owned(_)));
    assert_eq!(c.into_owned().as_slice(), b"hello" as &[u8]);
}

#[test]
fn test_to_owned() {
    let c: CustomCow<MAString> = CustomCow::Borrowed("hi");
    assert_eq!(c.to_owned().as_str(), "hi");
    // the cow itself is untouched
    assert!(matches!(&c, CustomCow::Borrowed(_)));

    let c = CustomCow::Owned(MAString::from_static("there"));
    assert_eq!(c.to_owned().as_str(), "there");
}

#[test]
fn test_cow_clone() {
    let c: CustomCow<MAString> = CustomCow::Borrowed("hi");
    let c2 = c.clone();
    assert!(matches!(&c2, CustomCow::Borrowed(_)));
    assert_eq!(c2.into_owned().as_str(), "hi");

    let c = CustomCow::Owned(MAString::from_static("there"));
    let c2 = c.clone();
    assert!(matches!(&c2, CustomCow::Owned(_)));
    assert_eq!(c2.into_owned().as_str(), "there");
}
