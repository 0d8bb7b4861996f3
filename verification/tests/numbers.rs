use pandora_toolchain::number::{decimal_chars, parse_u16, parse_u64, parse_u8};
use pandora_toolchain::text::{
    char_is_whitespace, chars_of, contains_char, find_char, join_chars, replace_all, split_chars, string_of,
    trim_chars, words,
};

fn c(s: &str) -> Vec<char> {
    s.chars().collect()
}

#[test]
fn numerals_are_written_without_leading_zeros() {
    assert_eq!(string_of(&decimal_chars(0)), "0");
    assert_eq!(string_of(&decimal_chars(7)), "7");
    assert_eq!(string_of(&decimal_chars(10)), "10");
    assert_eq!(string_of(&decimal_chars(1700000000)), "1700000000");
    assert_eq!(string_of(&decimal_chars(u64::MAX)), "18446744073709551615");
}

#[test]
fn numbers_are_read_as_an_optional_plus_and_digits() {
    assert_eq!(parse_u64(&c("0")), Some(0));
    assert_eq!(parse_u64(&c("007")), Some(7));
    assert_eq!(parse_u64(&c("+5")), Some(5));
    assert_eq!(parse_u64(&c("18446744073709551615")), Some(u64::MAX));
    assert_eq!(parse_u64(&c("18446744073709551616")), None);
    assert_eq!(parse_u64(&c("99999999999999999999999")), None);
    assert_eq!(parse_u64(&c("")), None);
    assert_eq!(parse_u64(&c("+")), None);
    assert_eq!(parse_u64(&c("++1")), None);
    assert_eq!(parse_u64(&c("-1")), None);
    assert_eq!(parse_u64(&c("1 ")), None);
    assert_eq!(parse_u64(&c("1_000")), None);
    assert_eq!(parse_u64(&c("١")), None);
    assert_eq!(parse_u16(&c("65535")), Some(65535));
    assert_eq!(parse_u16(&c("65536")), None);
    assert_eq!(parse_u8(&c("255")), Some(255));
    assert_eq!(parse_u8(&c("256")), None);
    for n in [0u64, 9, 10, 99, 12345, u64::MAX] {
        assert_eq!(parse_u64(&decimal_chars(n)), Some(n));
    }
}

#[test]
fn text_is_split_and_joined() {
    let parts: Vec<String> = split_chars(&c("a:b::c"), ':').iter().map(string_of).collect();
    assert_eq!(parts, vec!["a", "b", "", "c"]);
    let parts: Vec<String> = split_chars(&c(""), ':').iter().map(string_of).collect();
    assert_eq!(parts, vec![""]);
    let parts: Vec<String> = split_chars(&c(":"), ':').iter().map(string_of).collect();
    assert_eq!(parts, vec!["", ""]);
    assert_eq!(string_of(&join_chars(&vec![c("a"), c(""), c("b")], '/')), "a//b");
    assert_eq!(string_of(&join_chars(&vec![], '/')), "");
    assert_eq!(string_of(&join_chars(&vec![c("only")], '/')), "only");
    let pieces = vec![c("x"), c("yy"), c("")];
    assert_eq!(split_chars(&join_chars(&pieces, '%'), '%'), pieces);
    assert_eq!(find_char(&c("abc"), 'c'), 2);
    assert_eq!(find_char(&c("abc"), 'z'), 3);
    assert!(contains_char(&c("abc"), 'b'));
    assert!(!contains_char(&c(""), 'b'));
    assert_eq!(chars_of("héllo"), c("héllo"));
}

#[test]
fn occurrences_are_replaced_from_the_left() {
    assert_eq!(string_of(&replace_all(&c("aaa"), &c("aa"), &c("b"))), "ba");
    assert_eq!(string_of(&replace_all(&c("x?PNslash?y"), &c("?PNslash?"), &c("/"))), "x/y");
    assert_eq!(string_of(&replace_all(&c("abc"), &c(""), &c("z"))), "abc");
    assert_eq!(string_of(&replace_all(&c("abab"), &c("ab"), &c("abab"))), "abababab");
    assert_eq!(string_of(&replace_all(&c(""), &c("a"), &c("b"))), "");
}

#[test]
fn white_space_separates_words_and_is_trimmed() {
    let found: Vec<String> = words("  !auth \t 42\u{a0}\n").iter().map(string_of).collect();
    assert_eq!(found, vec!["!auth", "42"]);
    assert!(words("").is_empty());
    assert!(words(" \n").is_empty());
    let found: Vec<String> = words("one").iter().map(string_of).collect();
    assert_eq!(found, vec!["one"]);
    assert_eq!(string_of(&trim_chars(&c("  12 3\n"))), "12 3");
    assert_eq!(string_of(&trim_chars(&c(" \t"))), "");
    assert_eq!(string_of(&trim_chars(&c("x"))), "x");
}

#[test]
fn white_space_is_what_the_standard_library_calls_so() {
    let mut count = 0;
    for code in 0..=0x10FFFFu32 {
        if let Some(c) = char::from_u32(code) {
            assert_eq!(char_is_whitespace(c), c.is_whitespace(), "U+{:04X}", code);
            if char_is_whitespace(c) {
                count += 1;
            }
        }
    }
    assert_eq!(count, 25);
}
