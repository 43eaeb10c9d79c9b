use crates_io::text::{
    chars_of, decimal_text, lines_of, parse_i32, same_text, split_text, starts_with, text_of,
    to_ascii_lowercase, trim, trim_quotes, Strip,
};

#[test]
fn white_space_is_that_of_std() {
    for code in 0..=0x10ffffu32 {
        if let Some(c) = char::from_u32(code) {
            assert_eq!(Strip::WhiteSpace.is_taken(c), c.is_whitespace(), "{:x}", code);
        }
    }
}

#[test]
fn trimming_is_that_of_std() {
    for s in ["", " ", " a ", "\t\u{3000}a b\u{a0}\r\n", "\u{e9} ", "\"a\"", " \"\" "] {
        assert_eq!(trim(s), s.trim());
        assert_eq!(trim_quotes(s), s.trim().trim_matches('"'));
    }
    assert_eq!(trim_quotes(" \"\" a\"b \" \"\" "), " a\"b \" ");
}

#[test]
fn splitting_is_that_of_std() {
    for s in ["", "\t", "a\tb", "\ta\t\tb\t", "\u{e9}\t\u{3000}"] {
        let expected: Vec<&str> = s.split('\t').collect();
        assert_eq!(split_text(s, '\t'), expected);
        assert_eq!(split_text(s, '\t').join("\t"), s);
    }
}

#[test]
fn lines_are_those_of_std() {
    for s in ["", "\n", "a", "a\n", "a\r\nb\r", "a\n\nb\n", "\r\n\n", "a\r\r\n"] {
        let expected: Vec<&str> = s.lines().collect();
        assert_eq!(lines_of(s), expected);
    }
}

#[test]
fn prefixes_are_those_of_std() {
    for (s, p) in [("abc", "ab"), ("abc", ""), ("", "a"), ("ab", "abc"), ("\u{e9}x", "\u{e9}")] {
        assert_eq!(starts_with(s, p), s.starts_with(p));
    }
}

#[test]
fn only_ascii_letters_are_lowered() {
    for s in ["", "ABCxyz_09", "\u{c9}Z@[`{"] {
        assert_eq!(to_ascii_lowercase(s), s.to_ascii_lowercase());
    }
}

#[test]
fn numbers_are_read_as_std_reads_them() {
    for s in [
        "", "+", "-", "0", "-0", "+7", "007", "12a", " 1", "--1", "2147483647", "2147483648",
        "-2147483648", "-2147483649", "99999999999999999999", "\u{661}",
    ] {
        assert_eq!(parse_i32(s), s.parse::<i32>().ok(), "{:?}", s);
    }
}

#[test]
fn decimals_are_written_as_std_writes_them() {
    for n in [0u64, 7, 10, 99, 1200, u64::MAX] {
        assert_eq!(decimal_text(n), n.to_string());
    }
}

#[test]
fn texts_are_taken_apart_and_put_together() {
    let chars = chars_of("a\u{e9}b");
    assert_eq!(chars, vec!['a', '\u{e9}', 'b']);
    assert_eq!(text_of(&chars, 1, 3), "\u{e9}b");
    assert!(same_text("ab", "ab"));
    assert!(!same_text("ab", "aB"));
}
