use autosway::text::{decimal_string, hex_string, join_strings, sort_strings, string_le};

fn strings(items: &[&str]) -> Vec<String> {
    items.iter().map(|item| String::from(*item)).collect()
}

#[test]
fn numbers_are_written_in_decimal() {
    assert_eq!("0", decimal_string(0));
    assert_eq!("7", decimal_string(7));
    assert_eq!("9", decimal_string(9));
    assert_eq!("10", decimal_string(10));
    assert_eq!("1080", decimal_string(1080));
    assert_eq!("1920", decimal_string(1920));
    assert_eq!("1000000", decimal_string(1000000));
    assert_eq!("4294967295", decimal_string(4294967295));
}

#[test]
fn decimal_agrees_with_the_standard_library() {
    let mut n: u32 = 1;
    for _ in 0..64 {
        assert_eq!(n.to_string(), decimal_string(n));
        n = n.wrapping_mul(2654435761).wrapping_add(12345);
    }
}

#[test]
fn bytes_are_written_in_lower_case_hexadecimal() {
    assert_eq!("", hex_string(&[]));
    assert_eq!("00", hex_string(&[0]));
    assert_eq!("0a141e", hex_string(&[10, 20, 30]));
    assert_eq!("00abff", hex_string(&[0x00, 0xab, 0xff]));
    assert_eq!("0123456789abcdef", hex_string(&[0x01, 0x23, 0x45, 0x67, 0x89, 0xab, 0xcd, 0xef]));
}

#[test]
fn strings_are_joined_with_the_separator_between_them() {
    assert_eq!("", join_strings(&strings(&[]), "+++"));
    assert_eq!("a", join_strings(&strings(&["a"]), "+++"));
    assert_eq!("a+++b", join_strings(&strings(&["a", "b"]), "+++"));
    assert_eq!("a+++b+++c", join_strings(&strings(&["a", "b", "c"]), "+++"));
    assert_eq!("+++", join_strings(&strings(&["", ""]), "+++"));
    assert_eq!("abc", join_strings(&strings(&["a", "b", "c"]), ""));
    assert_eq!("a\nb", join_strings(&strings(&["a", "b"]), "\n"));
}

#[test]
fn strings_are_ordered_byte_by_byte() {
    let le = |a: &str, b: &str| string_le(&String::from(a), &String::from(b));
    assert!(le("", ""));
    assert!(le("", "a"));
    assert!(!le("a", ""));
    assert!(le("a", "a"));
    assert!(le("a", "ab"));
    assert!(!le("ab", "a"));
    assert!(le("B", "a"));
    assert!(!le("a", "B"));
    assert!(le("ab", "b"));
    assert!(le("z", "é"));
    assert!(!le("é", "z"));
}

#[test]
fn sorting_gives_ascending_byte_order() {
    assert_eq!(
        strings(&["", "B", "a", "ab", "b", "é"]),
        sort_strings(&strings(&["b", "a", "B", "é", "", "ab"]))
    );
    assert_eq!(strings(&[]), sort_strings(&strings(&[])));
    assert_eq!(strings(&["a", "a", "b"]), sort_strings(&strings(&["a", "b", "a"])));
    assert_eq!(strings(&["1", "2", "3", "4"]), sort_strings(&strings(&["4", "3", "2", "1"])));
}

#[test]
fn sorting_agrees_with_the_standard_library() {
    let mut items = Vec::new();
    let mut n: u32 = 7;
    for _ in 0..50 {
        n = n.wrapping_mul(1103515245).wrapping_add(12345);
        items.push(format!("{}|{}", n % 13, n % 7));
    }
    let mut expected = items.clone();
    expected.sort();
    assert_eq!(expected, sort_strings(&items));
}
