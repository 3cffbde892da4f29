use bindgen::clang::{to_str, CXCursor, CXCursor_eq, CXString};
use bindgen::text::{contains, int_str, same_text, uint_str};

#[test]
fn unsigned_numbers_in_decimal() {
    assert_eq!(uint_str(0), "0");
    assert_eq!(uint_str(9), "9");
    assert_eq!(uint_str(10), "10");
    assert_eq!(uint_str(1234567890), "1234567890");
    assert_eq!(uint_str(u64::MAX), "18446744073709551615");
}

#[test]
fn signed_numbers_in_decimal() {
    assert_eq!(int_str(0), "0");
    assert_eq!(int_str(-1), "-1");
    assert_eq!(int_str(42), "42");
    assert_eq!(int_str(i64::MAX), "9223372036854775807");
    assert_eq!(int_str(i64::MIN), "-9223372036854775808");
}

#[test]
fn search_in_texts() {
    assert!(contains("", ""));
    assert!(contains("stdio.h", ""));
    assert!(contains("/usr/include/stdio.h", "stdio"));
    assert!(contains("stdio.h", "stdio.h"));
    assert!(contains("aab", "ab"));
    assert!(!contains("stdio.h", "stdlib"));
    assert!(!contains("h", "stdio.h"));
    assert!(contains("grün.h", "ün"));
    assert!(!contains("grün.h", "un"));
}

#[test]
fn equality_of_texts() {
    assert!(same_text("-o", "-o"));
    assert!(!same_text("-o", "-O"));
    assert!(!same_text("-o", "-oo"));
    assert!(same_text("", ""));
}

#[test]
fn strings_are_decoded() {
    let s = CXString::new("straße €".as_bytes().to_vec()).unwrap();
    assert_eq!(to_str(&s), "straße €");
    let s = CXString::new(vec![0xf0, 0x9f, 0xa6, 0x80]).unwrap();
    assert_eq!(to_str(&s), "\u{1f980}");
    assert_eq!(to_str(&CXString::new(Vec::new()).unwrap()), "");
}

#[test]
fn strings_must_be_utf8() {
    assert!(CXString::new(vec![0xff]).is_none());
    assert!(CXString::new(vec![0xc0, 0x80]).is_none());
    assert!(CXString::new(vec![0xed, 0xa0, 0x80]).is_none());
    assert!(CXString::new(vec![0xe2, 0x82]).is_none());
    assert!(CXString::new(vec![0xf4, 0x90, 0x80, 0x80]).is_none());
}

#[test]
fn cursors_are_equal_by_number() {
    let (a, b) = (CXCursor { id: 1 }, CXCursor { id: 2 });
    assert!(CXCursor_eq(&a, &CXCursor { id: 1 }));
    assert!(!CXCursor_eq(&a, &b));
    assert!(!CXCursor_eq(&b, &a));
}
