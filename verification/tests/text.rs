use hitomi_downloader::text::{
    chars_of, decimal, digits, find_char, join, last_segment, padded4, parse_i32, replace_char,
    same_text, slice_chars, trim, trim_end_dots, words, wrap_i32,
};

fn text_chars(s: &str) -> Vec<char> {
    s.chars().collect()
}

fn text_string(v: &[char]) -> String {
    v.iter().collect()
}

#[test]
fn chars_of_keeps_every_character() {
    assert_eq!(chars_of("a\u{ff1a}b"), vec!['a', '\u{ff1a}', 'b']);
    assert_eq!(chars_of(""), Vec::<char>::new());
}

#[test]
fn digits_of_numbers() {
    assert_eq!(text_string(&digits(0)), "0");
    assert_eq!(text_string(&digits(9)), "9");
    assert_eq!(text_string(&digits(10)), "10");
    assert_eq!(text_string(&digits(1963)), "1963");
    assert_eq!(text_string(&digits(u64::MAX)), "18446744073709551615");
}

#[test]
fn decimal_of_signed_numbers() {
    assert_eq!(text_string(&decimal(0)), "0");
    assert_eq!(text_string(&decimal(-1)), "-1");
    assert_eq!(text_string(&decimal(2147483647)), "2147483647");
    assert_eq!(text_string(&decimal(i64::MIN)), "-9223372036854775808");
    assert_eq!(text_string(&decimal(i64::MAX)), i64::MAX.to_string());
}

#[test]
fn padded4_pads_to_four_digits() {
    assert_eq!(text_string(&padded4(1)), "0001");
    assert_eq!(text_string(&padded4(42)), "0042");
    assert_eq!(text_string(&padded4(9999)), "9999");
    assert_eq!(text_string(&padded4(10000)), "10000");
    assert_eq!(text_string(&padded4(0)), format!("{:04}", 0));
}

#[test]
fn parse_i32_reads_hexadecimal() {
    assert_eq!(parse_i32(&text_chars("7ab"), 16), Some(1963));
    assert_eq!(parse_i32(&text_chars("7AB"), 16), Some(1963));
    assert_eq!(parse_i32(&text_chars("fff"), 16), Some(4095));
    assert_eq!(parse_i32(&text_chars("000"), 16), Some(0));
    assert_eq!(parse_i32(&text_chars("7fffffff"), 16), Some(i32::MAX));
    assert_eq!(parse_i32(&text_chars("80000000"), 16), None);
    assert_eq!(parse_i32(&text_chars("-80000000"), 16), Some(i32::MIN));
    assert_eq!(parse_i32(&text_chars("-80000001"), 16), None);
    assert_eq!(parse_i32(&text_chars("xyz"), 16), None);
    assert_eq!(parse_i32(&text_chars("g"), 16), None);
}

#[test]
fn parse_i32_reads_decimal_as_std_does() {
    for text in [
        "0", "7", "-7", "+7", "007", "2147483647", "2147483648", "-2147483648", "-2147483649",
        "", "-", "+", "1a", " 1", "1 ", "1_000", "99999999999999999999", "--1", "+-1", "a",
    ] {
        assert_eq!(parse_i32(&text_chars(text), 10), text.parse::<i32>().ok(), "{}", text);
        assert_eq!(
            parse_i32(&text_chars(text), 16),
            i32::from_str_radix(text, 16).ok(),
            "{}",
            text
        );
    }
}

#[test]
fn trim_removes_white_space_at_both_ends() {
    assert_eq!(text_string(&trim(&text_chars("  a b \t\n"))), "a b");
    assert_eq!(text_string(&trim(&text_chars("\u{3000}x\u{a0}"))), "x");
    assert_eq!(text_string(&trim(&text_chars("   "))), "");
    assert_eq!(text_string(&trim(&text_chars(""))), "");
    assert_eq!(text_string(&trim(&text_chars("abc"))), "abc");
}

#[test]
fn trim_end_dots_removes_only_trailing_dots() {
    assert_eq!(text_string(&trim_end_dots(&text_chars("a.b..."))), "a.b");
    assert_eq!(text_string(&trim_end_dots(&text_chars("..."))), "");
    assert_eq!(text_string(&trim_end_dots(&text_chars(".a"))), ".a");
    assert_eq!(text_string(&trim_end_dots(&text_chars("a. "))), "a. ");
}

#[test]
fn words_splits_at_white_space() {
    let out = words(&text_chars("  language:english\t-yaoi \n artist_a  "));
    let out: Vec<String> = out.iter().map(|w| text_string(w)).collect();
    assert_eq!(out, vec!["language:english", "-yaoi", "artist_a"]);
    assert!(words(&text_chars("   ")).is_empty());
    assert!(words(&text_chars("")).is_empty());
    let one = words(&text_chars("one"));
    assert_eq!(one.len(), 1);
    assert_eq!(text_string(&one[0]), "one");
}

#[test]
fn words_agree_with_split_whitespace() {
    for text in ["a b", " a  b ", "\u{2003}x\u{2003}y", "a\u{85}b", "tab\tsep", "x"] {
        let mine: Vec<String> = words(&text_chars(text)).iter().map(|w| text_string(w)).collect();
        let std: Vec<String> = text.split_whitespace().map(String::from).collect();
        assert_eq!(mine, std);
    }
}

#[test]
fn replace_char_replaces_every_occurrence() {
    assert_eq!(text_string(&replace_char(&text_chars("a_b__c"), '_', ' ')), "a b  c");
    assert_eq!(text_string(&replace_char(&text_chars("abc"), '_', ' ')), "abc");
}

#[test]
fn find_char_gives_the_first_position() {
    assert_eq!(find_char(&text_chars("a:b:c"), ':'), Some(1));
    assert_eq!(find_char(&text_chars(":"), ':'), Some(0));
    assert_eq!(find_char(&text_chars("abc"), ':'), None);
    assert_eq!(find_char(&text_chars(""), ':'), None);
}

#[test]
fn join_puts_the_separator_between() {
    let names = vec!["a".to_string(), "b".to_string(), "c".to_string()];
    assert_eq!(text_string(&join(&names, ", ")), "a, b, c");
    assert_eq!(text_string(&join(&names[..1], ", ")), "a");
    assert_eq!(text_string(&join(&[], ", ")), "");
    let with_empty = vec!["".to_string(), "x".to_string()];
    assert_eq!(text_string(&join(&with_empty, ", ")), ", x");
}

#[test]
fn last_segment_is_what_follows_the_last_dot() {
    assert_eq!(text_string(&last_segment(&text_chars("001.jpg"))), "jpg");
    assert_eq!(text_string(&last_segment(&text_chars("a.b.webp"))), "webp");
    assert_eq!(text_string(&last_segment(&text_chars("noext"))), "noext");
    assert_eq!(text_string(&last_segment(&text_chars("dot."))), "");
    assert_eq!(text_string(&last_segment(&text_chars(""))), "");
    for name in ["001.jpg", "a.b.webp", "noext", "dot.", ""] {
        assert_eq!(
            text_string(&last_segment(&text_chars(name))),
            name.rsplit('.').next().unwrap_or("")
        );
    }
}

#[test]
fn same_text_compares_characters() {
    assert!(same_text("webp", "webp"));
    assert!(!same_text("webp", "avif"));
    assert!(!same_text("webp", "webpx"));
    assert!(same_text("", ""));
}

#[test]
fn slice_chars_copies_a_range() {
    assert_eq!(text_string(&slice_chars(&text_chars("abcdef"), 2, 4)), "cd");
    assert_eq!(text_string(&slice_chars(&text_chars("abcdef"), 3, 3)), "");
}

#[test]
fn wrap_i32_keeps_the_low_bits() {
    assert_eq!(wrap_i32(0), 0);
    assert_eq!(wrap_i32(-1), -1);
    assert_eq!(wrap_i32(2147483647), 2147483647);
    assert_eq!(wrap_i32(2147483648), -2147483648);
    assert_eq!(wrap_i32(4294967296), 0);
    assert_eq!(wrap_i32(4294967297), 1);
    assert_eq!(wrap_i32(i64::MAX), -1);
    assert_eq!(wrap_i32(i64::MIN), 0);
    for v in [5_000_000_000i64, -5_000_000_000, 123456789012345, -2147483649] {
        assert_eq!(wrap_i32(v), v as i32);
    }
}
