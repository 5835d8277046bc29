//! Exact values for the verified string and hex helpers.

use buildcore::hash::{hash_hex, to_hex};
use buildcore::strutil::{concat2, concat3, fields, find_char, find_sep, first_line, join, split_on, str_eq, trim};

#[test]
fn hex_renders_sixteen_lowercase_digits() {
    assert_eq!(to_hex(0x0123456789abcdef), "0123456789abcdef");
    assert_eq!(to_hex(0), "0000000000000000");
    assert_eq!(to_hex(u64::MAX), "ffffffffffffffff");
}

#[test]
fn digest_hex_is_the_two_halves_in_order() {
    assert_eq!(hash_hex((0, 0)), "00000000000000000000000000000000");
    assert_eq!(
        hash_hex((0x0123456789abcdef, 0xfedcba9876543210)),
        "0123456789abcdeffedcba9876543210",
    );
}

#[test]
fn first_line_stops_at_the_newline() {
    assert_eq!(first_line("one\ntwo\nthree"), "one");
    assert_eq!(first_line("no newline"), "no newline");
    assert_eq!(first_line("\nrest"), "");
}

#[test]
fn separator_search_finds_the_first_colon_space() {
    assert_eq!(find_sep("out: a b"), Some(3));
    assert_eq!(find_sep("a:b c: d"), Some(5));
    assert_eq!(find_sep("no separator"), None);
    assert_eq!(find_char("abc", 'b'), Some(1));
    assert_eq!(find_char("abc", 'z'), None);
}

#[test]
fn fields_split_trim_and_drop_empties() {
    assert_eq!(fields(" a  b\tc "), vec!["a".to_string(), "b\tc".to_string()]);
    assert_eq!(
        fields("src/lib.rs src/util.rs"),
        vec!["src/lib.rs".to_string(), "src/util.rs".to_string()],
    );
    assert_eq!(fields("   "), Vec::<String>::new());
}

#[test]
fn split_keeps_empty_pieces_and_trim_removes_edges() {
    assert_eq!(split_on("a--b", '-'), vec!["a".to_string(), "".to_string(), "b".to_string()]);
    assert_eq!(trim("  x \r\n"), "x");
    assert_eq!(trim("\t"), "");
}

#[test]
fn concatenation_and_joining_are_plain() {
    assert_eq!(concat2("foo", ".rlib"), "foo.rlib");
    assert_eq!(concat3("lib", "foo", ".so"), "libfoo.so");
    assert_eq!(join("/t/root", "deps"), "/t/root/deps");
    assert!(str_eq("same", "same"));
    assert!(!str_eq("same", "sane"));
}
