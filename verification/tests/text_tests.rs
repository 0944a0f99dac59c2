use casino_bot::text::{
    chars_of, join, parse_i32, parse_i64, parse_usize, replace, same, show_i64, show_u64, split,
    strip_prefix, words,
};

#[test]
fn numbers_are_shown_in_decimal() {
    assert_eq!(show_i64(0), "0");
    assert_eq!(show_i64(-7), "-7");
    assert_eq!(show_i64(1000000), "1000000");
    assert_eq!(show_i64(i64::MIN), "-9223372036854775808");
    assert_eq!(show_i64(i64::MAX), "9223372036854775807");
    assert_eq!(show_u64(u64::MAX), "18446744073709551615");
}

#[test]
fn numbers_are_read_as_the_standard_library_reads_them() {
    let samples = [
        "", "0", "7", "-7", "+7", "-", "+", "007", "1 ", " 1", "1_000", "2147483647", "2147483648",
        "-2147483648", "-2147483649", "9223372036854775807", "9223372036854775808",
        "-9223372036854775808", "-9223372036854775809", "18446744073709551615",
        "18446744073709551616", "99999999999999999999999999", "٣", "--1", "+-1", "1e3", "-0",
    ];
    for s in samples {
        assert_eq!(parse_i32(s), s.parse::<i32>().ok(), "{}", s);
        assert_eq!(parse_i64(s), s.parse::<i64>().ok(), "{}", s);
        assert_eq!(parse_usize(s), s.parse::<usize>().ok(), "{}", s);
    }
}

#[test]
fn shown_numbers_read_back() {
    for n in [i64::MIN, -1, 0, 1, 9, 10, 99, 100, i64::MAX] {
        assert_eq!(parse_i64(&show_i64(n)), Some(n));
    }
    for n in [i32::MIN, -50, 0, 50000, i32::MAX] {
        assert_eq!(parse_i32(&show_i64(n as i64)), Some(n));
    }
}

#[test]
fn every_white_space_character_separates_words() {
    for code in 0..=0x10FFFFu32 {
        if let Some(c) = char::from_u32(code) {
            let text = format!("a{}b", c);
            let expected: Vec<String> = text.split_whitespace().map(str::to_owned).collect();
            assert_eq!(words(&text), expected, "U+{:04X}", code);
        }
    }
}

#[test]
fn words_leave_out_the_space_around_them() {
    assert_eq!(words("  /spin   100\t"), vec!["/spin", "100"]);
    assert!(words("").is_empty());
    assert!(words(" \n ").is_empty());
    assert_eq!(words("/flip"), vec!["/flip"]);
}

#[test]
fn fields_are_split_at_every_separator() {
    assert_eq!(split("h_10_42", '_'), vec!["h", "10", "42"]);
    assert_eq!(split("", '_'), vec![""]);
    assert_eq!(split("_", '_'), vec!["", ""]);
    assert_eq!(split("a__b", '_'), vec!["a", "", "b"]);
}

#[test]
fn a_prefix_is_taken_off() {
    assert_eq!(strip_prefix("bj_hit", "bj_"), Some("hit".to_string()));
    assert_eq!(strip_prefix("bj", "bj_"), None);
    assert_eq!(strip_prefix("p_draw", "bj_"), None);
    assert_eq!(strip_prefix("bj_", "bj_"), Some(String::new()));
}

#[test]
fn slots_are_replaced_wherever_they_occur() {
    for (text, from, to) in [
        ("{bet} and {bet}", "{bet}", "10"),
        ("aaa", "aa", "b"),
        ("nothing", "{bet}", "10"),
        ("", "{bet}", "10"),
        ("{bet", "{bet}", "10"),
        ("💰{tokens}💰", "{tokens}", "🥮"),
    ] {
        assert_eq!(replace(text, from, to), text.replace(from, to));
    }
}

#[test]
fn parts_are_joined() {
    let parts = vec!["a".to_string(), "b".to_string(), "c".to_string()];
    assert_eq!(join(&parts, " "), "a b c");
    assert_eq!(join(&vec!["a".to_string()], " "), "a");
    assert_eq!(join(&Vec::new(), " "), "");
}

#[test]
fn texts_are_compared_by_their_characters() {
    assert!(same("/daily", "/daily"));
    assert!(!same("/daily", "/dail"));
    assert!(!same("h", "t"));
    assert!(same("", ""));
}

#[test]
fn characters_come_out_in_order() {
    assert_eq!(chars_of("a♠️b"), vec!['a', '♠', '\u{fe0f}', 'b']);
}
