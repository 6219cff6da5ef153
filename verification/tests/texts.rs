use beancount_statements::digits::{
    char_of_digit, is_ascii_digit, push_nat, push_zero_padded, value_of_digit,
};
use beancount_statements::text::{
    chars_of, copy_range, find_from, has_prefix, is_part_of, is_white_space, matches_at,
    split_at_first, split_lines, trimmed,
};

fn cs(text: &str) -> Vec<char> {
    text.chars().collect()
}

fn st(chars: &[char]) -> String {
    chars.iter().collect()
}

#[test]
fn chars_of_gives_the_characters() {
    assert_eq!(chars_of("héllo"), vec!['h', 'é', 'l', 'l', 'o']);
    assert_eq!(chars_of(""), Vec::<char>::new());
}

#[test]
fn copy_range_copies_a_part() {
    assert_eq!(st(&copy_range(&cs("hello"), 1, 3)), "el");
    assert_eq!(st(&copy_range(&cs("hello"), 0, 5)), "hello");
    assert_eq!(st(&copy_range(&cs("hello"), 5, 5)), "");
}

#[test]
fn matches_at_compares_in_place() {
    assert!(matches_at(&cs("hello"), &cs("ell"), 1));
    assert!(!matches_at(&cs("hello"), &cs("ell"), 0));
    assert!(!matches_at(&cs("hello"), &cs("llo!"), 2));
    assert!(matches_at(&cs("hello"), &cs(""), 5));
    assert!(!matches_at(&cs("hello"), &cs(""), 6));
    assert!(!matches_at(&cs("hi"), &cs("hello"), 0));
}

#[test]
fn is_part_of_agrees_with_std() {
    let hays = ["", "a", "ab", "aab", "abab", "I bought at amazon", "ééé"];
    let needles = ["", "a", "b", "ab", "ba", "aab", "amazon", "am", "é", "éé", "x"];
    for hay in hays {
        for needle in needles {
            assert_eq!(is_part_of(&cs(needle), &cs(hay)), hay.contains(needle), "{hay} {needle}");
        }
    }
}

#[test]
fn has_prefix_agrees_with_std() {
    for (text, prefix) in [("hello", "he"), ("hello", "hello"), ("hello", ""), ("he", "hello"),
        ("hello", "el"), ("", ""), ("", "a")]
    {
        assert_eq!(has_prefix(&cs(text), &cs(prefix)), text.starts_with(prefix));
    }
}

#[test]
fn white_space_agrees_with_std() {
    for code in 0..=0x10FFFFu32 {
        if let Some(c) = char::from_u32(code) {
            assert_eq!(is_white_space(c), c.is_whitespace(), "{:x}", code);
        }
    }
}

#[test]
fn trimmed_agrees_with_std() {
    for text in ["", " ", "  ", "a", " a", "a ", " a b ", "\t\r\n a\u{a0}", "\u{3000}x\u{2003}",
        " \u{feff} ", "a  b"]
    {
        assert_eq!(st(&trimmed(&cs(text))), text.trim(), "{:?}", text);
    }
}

#[test]
fn find_from_gives_the_first_index() {
    assert_eq!(find_from(&cs("a,b,c"), ',', 0), 1);
    assert_eq!(find_from(&cs("a,b,c"), ',', 1), 1);
    assert_eq!(find_from(&cs("a,b,c"), ',', 2), 3);
    assert_eq!(find_from(&cs("a,b,c"), ',', 4), 5);
    assert_eq!(find_from(&cs("a,b,c"), ',', 9), 5);
    assert_eq!(find_from(&cs(""), ',', 0), 0);
}

#[test]
fn split_at_first_agrees_with_std() {
    for text in ["", ",", "a,b", "a,b,c", "abc", ",a", "a,", ",,"] {
        let ours = split_at_first(&cs(text), ',').map(|(a, b)| (st(&a), st(&b)));
        let theirs = text.split_once(',').map(|(a, b)| (a.to_string(), b.to_string()));
        assert_eq!(ours, theirs, "{:?}", text);
    }
}

#[test]
fn split_lines_agrees_with_std() {
    for text in ["", "a", "a\n", "a\nb", "a\r\nb\r\n", "\n", "\n\n", "a\rb", "a\r", "a\r\n",
        "\r\n", "a\n\nb", "a\r\r\nb", "\ra\n", "last\nline\r"]
    {
        let ours: Vec<String> = split_lines(&cs(text)).iter().map(|l| st(l)).collect();
        let theirs: Vec<String> = text.lines().map(|l| l.to_string()).collect();
        assert_eq!(ours, theirs, "{:?}", text);
    }
}

#[test]
fn digits_are_the_ten_ascii_digits() {
    for code in 0..=0x10FFFFu32 {
        if let Some(c) = char::from_u32(code) {
            assert_eq!(is_ascii_digit(c), c.is_ascii_digit());
        }
    }
    for (d, c) in ('0'..='9').enumerate() {
        assert_eq!(value_of_digit(c), d as u64);
        assert_eq!(char_of_digit(d as u64), c);
    }
}

#[test]
fn push_nat_writes_base_ten() {
    for n in [0u64, 1, 9, 10, 11, 99, 100, 12345, u64::MAX] {
        let mut out = cs("n=");
        push_nat(&mut out, n);
        assert_eq!(st(&out), format!("n={}", n));
    }
}

#[test]
fn push_zero_padded_pads_in_front() {
    for (n, width, text) in [(5u64, 2usize, "05"), (12, 2, "12"), (123, 2, "123"), (0, 4, "0000"),
        (7, 0, "7"), (7, 1, "7"), (2024, 4, "2024"), (44, 4, "0044")]
    {
        let mut out = Vec::new();
        push_zero_padded(&mut out, n, width);
        assert_eq!(st(&out), text);
    }
}
