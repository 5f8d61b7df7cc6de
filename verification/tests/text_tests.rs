use preco::text::{
    chars_of, join2, join3, contains_text, join_with, lower_hex, lower_hex_two, lowercase_from,
    starts_with, string_of, text_eq,
};
use preco::text_order::{order_of, TextOrder};

#[test]
fn characters_round_trip() {
    let chars = chars_of("héllo");
    assert_eq!(chars, vec!['h', 'é', 'l', 'l', 'o']);
    assert_eq!(string_of(&chars), "héllo");
    assert_eq!(string_of(&vec![]), "");
}

#[test]
fn concatenation_keeps_order() {
    assert_eq!(join2("ab", "cd"), "abcd");
    assert_eq!(join3("a", "", "c"), "ac");
}

#[test]
fn equality_and_prefix() {
    assert!(text_eq("abc", "abc"));
    assert!(!text_eq("abc", "abd"));
    assert!(!text_eq("abc", "ab"));
    assert!(starts_with("https://x", "https://"));
    assert!(!starts_with("http", "https://"));
    assert!(starts_with("anything", ""));
}

#[test]
fn substring_search() {
    assert!(contains_text("# preco-piispis-1\n", "preco-piispis-1"));
    assert!(contains_text("abc", ""));
    assert!(contains_text("abc", "c"));
    assert!(!contains_text("abc", "abcd"));
    assert!(!contains_text("preco-piispis-2", "preco-piispis-1"));
}

#[test]
fn joining_puts_the_separator_between_neighbours() {
    let parts = vec!["a".to_string(), "b".to_string(), "c".to_string()];
    assert_eq!(join_with(&parts, ", "), "a, b, c");
    assert_eq!(join_with(&vec!["only".to_string()], ", "), "only");
    assert_eq!(join_with(&vec![], ", "), "");
}

#[test]
fn hexadecimal_rendering() {
    assert_eq!(lower_hex(0), "0");
    assert_eq!(lower_hex(255), "ff");
    assert_eq!(lower_hex(0xdead_beef), "deadbeef");
    assert_eq!(lower_hex(u64::MAX), "ffffffffffffffff");
    assert_eq!(lower_hex_two(0), "00");
    assert_eq!(lower_hex_two(9), "09");
    assert_eq!(lower_hex_two(0x20), "20");
    assert_eq!(lower_hex_two(0x1f600), "1f600");
}

#[test]
fn lowercase_touches_ascii_capitals_only() {
    let chars = chars_of("a.PyÉ");
    assert_eq!(lowercase_from(&chars, 2), "pyÉ");
    assert_eq!(lowercase_from(&chars, 5), "");
}

#[test]
fn order_is_lexicographic_by_code_point() {
    assert_eq!(order_of("a", "b"), TextOrder::Before);
    assert_eq!(order_of("b", "a"), TextOrder::After);
    assert_eq!(order_of("a", "a"), TextOrder::Same);
    assert_eq!(order_of("a", "ab"), TextOrder::Before);
    assert_eq!(order_of("", "a"), TextOrder::Before);
    assert_eq!(order_of("a.b", "a/b"), TextOrder::Before);
    assert_eq!(order_of("z", "é"), TextOrder::Before);
    assert_eq!(order_of("src/b.py", "src/a.py"), TextOrder::After);
}

#[test]
fn order_agrees_with_the_order_of_strings() {
    let samples = ["", "a", "a/b", "a.b", "a-b/c", "b", "é", "zz", "z", "A"];
    for a in samples {
        for b in samples {
            let expected = if a < b {
                TextOrder::Before
            } else if a == b {
                TextOrder::Same
            } else {
                TextOrder::After
            };
            assert_eq!(order_of(a, b), expected);
        }
    }
}
