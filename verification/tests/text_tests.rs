use kcore::array::GrowArray;
use kcore::numtext::{radix_text, ToText};
use kcore::text::Text;

fn as_string(t: &Text) -> String {
    String::from_utf8(t.as_bytes().to_vec()).unwrap()
}

#[test]
fn new_text_is_empty() {
    let t = Text::new();
    assert_eq!(t.len(), 0);
    assert!(t.is_empty());
    assert_eq!(t.as_bytes(), b"");
}

#[test]
fn push_and_insert_keep_both_arrays_in_lock_step() {
    let mut t = Text::new();
    t.push('b');
    assert_eq!(t.len(), t.as_bytes().len());
    t.push('d');
    assert_eq!(t.len(), t.as_bytes().len());
    t.insert(0, 'a');
    assert_eq!(t.len(), t.as_bytes().len());
    t.insert(2, 'c');
    assert_eq!(t.len(), t.as_bytes().len());
    assert_eq!(as_string(&t), "abcd");
}

#[test]
fn from_str_and_from_chars_rebuild_both_arrays() {
    let t = Text::from_str("hello");
    assert_eq!(t.len(), 5);
    assert_eq!(t.len(), t.as_bytes().len());
    assert_eq!(as_string(&t), "hello");

    let mut src: GrowArray<char> = GrowArray::new();
    for c in ['x', 'y', 'z'] {
        src.push(c);
    }
    let u = Text::from_chars(&src);
    assert_eq!(u.len(), u.as_bytes().len());
    assert_eq!(as_string(&u), "xyz");
}

#[test]
fn char_at_and_chars_iterate_in_order() {
    let t = Text::from_str("abc");
    assert_eq!(t.char_at(0), 'a');
    assert_eq!(t.char_at(2), 'c');
    let mut it = t.chars();
    assert_eq!(it.next(), Some(&'a'));
    assert_eq!(it.next(), Some(&'b'));
    assert_eq!(it.next(), Some(&'c'));
    assert_eq!(it.next(), None);
}

#[test]
fn concat_and_append_join_texts() {
    let a = Text::from_str("foo");
    let b = Text::from_str("bar");
    let c = a.concat(b);
    assert_eq!(as_string(&c), "foobar");
    assert_eq!(c.len(), c.as_bytes().len());

    let mut d = Text::from_str("ab");
    d.append(Text::from_str("cd"));
    assert_eq!(as_string(&d), "abcd");
    assert_eq!(d.len(), d.as_bytes().len());
}

#[test]
fn duplicate_copies_content() {
    let t = Text::from_str("copy me");
    let u = t.duplicate();
    assert_eq!(as_string(&t), as_string(&u));
}

#[test]
fn bytes_are_low_bytes_of_chars() {
    let mut t = Text::new();
    t.push('A');
    t.push('~');
    assert_eq!(t.as_bytes(), &[b'A', b'~']);
}

#[test]
fn decimal_rendering_of_unsigned_integers() {
    assert_eq!(as_string(&123u32.to_text()), "123");
    assert_eq!(as_string(&0u32.to_text()), "0");
    assert_eq!(as_string(&0u16.to_text()), "0");
    assert_eq!(as_string(&65535u16.to_text()), "65535");
    assert_eq!(as_string(&0usize.to_text()), "0");
    assert_eq!(as_string(&18446744073709551615u64.to_text()), "18446744073709551615");
    assert_eq!(as_string(&255u8.to_text()), "255");
}

#[test]
fn zero_u8_renders_as_empty_text() {
    // the narrowest integer renders zero as no digits at all
    assert_eq!(as_string(&0u8.to_text()), "");
    assert_eq!(as_string(&0u8.to_octal_text()), "");
    assert_eq!(as_string(&0u8.to_hex_text()), "");
}

#[test]
fn octal_and_hex_rendering() {
    assert_eq!(as_string(&8u32.to_octal_text()), "10");
    assert_eq!(as_string(&255u32.to_hex_text()), "ff");
    assert_eq!(as_string(&255u8.to_hex_text()), "ff");
    assert_eq!(as_string(&0xdeadbeefu32.to_hex_text()), "deadbeef");
    assert_eq!(as_string(&511u16.to_octal_text()), "777");
    assert_eq!(as_string(&0u128.to_hex_text()), "0");
}

#[test]
fn radix_text_renders_any_base() {
    assert_eq!(as_string(&radix_text(5, 2, true)), "101");
    assert_eq!(as_string(&radix_text(0, 2, true)), "0");
    assert_eq!(as_string(&radix_text(0, 2, false)), "");
    assert_eq!(as_string(&radix_text(340282366920938463463374607431768211455, 16, true)),
        "ffffffffffffffffffffffffffffffff");
}
