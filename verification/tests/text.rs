use usirun::text::{append, copy, join_from, same, slice_copy, space, spells, split};

#[test]
fn lines_are_split_at_white_space() {
    let empty: Vec<Vec<u8>> = Vec::new();
    assert_eq!(empty, split(b""));
    assert_eq!(empty, split(b" \t\r\n\x0b\x0c"));
    assert_eq!(vec![b"a".to_vec()], split(b"a"));
    assert_eq!(
        vec![b"go".to_vec(), b"btime".to_vec(), b"1".to_vec()],
        split(b"  go\tbtime \r\n 1\n")
    );
    assert_eq!(vec![b"a\xc2\xa0b".to_vec()], split(b"a\xc2\xa0b"));
    assert_eq!(vec![b"a\x00b".to_vec(), b"\x1f".to_vec()], split(b"a\x00b \x1f"));
}

#[test]
fn words_are_joined_with_single_spaces() {
    let words = vec![b"id".to_vec(), b"name".to_vec(), b"My".to_vec(), b"Engine".to_vec()];
    assert_eq!(b"id name My Engine".to_vec(), join_from(&words, 0));
    assert_eq!(b"My Engine".to_vec(), join_from(&words, 2));
    assert_eq!(b"Engine".to_vec(), join_from(&words, 3));
    assert_eq!(b"".to_vec(), join_from(&words, 4));
}

#[test]
fn splitting_and_joining_normalises_a_text() {
    let words = split(b"  position   sfen \t 9/9 b\n");
    assert_eq!(b"position sfen 9/9 b".to_vec(), join_from(&words, 0));
}

#[test]
fn bytes_are_compared_and_copied() {
    assert!(same(b"", b""));
    assert!(same(b"abc", b"abc"));
    assert!(!same(b"abc", b"abd"));
    assert!(!same(b"abc", b"ab"));
    assert!(spells(b"usiok", "usiok"));
    assert!(!spells(b"usiok", "usi"));
    assert!(!spells(b"Usiok", "usiok"));
    assert_eq!(b"abc".to_vec(), copy(b"abc"));
    assert_eq!(b"bc".to_vec(), slice_copy(b"abcd", 1, 3));
    assert_eq!(b"".to_vec(), slice_copy(b"abcd", 2, 2));
    let mut out = b"ab".to_vec();
    append(&mut out, b"cd");
    assert_eq!(b"abcd".to_vec(), out);
}

#[test]
fn the_ascii_white_space_separates_words() {
    for b in [b' ', b'\t', b'\n', 0x0b, 0x0c, b'\r'] {
        assert!(space(b), "{}", b);
    }
    for b in [0u8, 8, 14, 31, 33, b'a', 0x85, 0xa0, 255] {
        assert!(!space(b), "{}", b);
    }
}
