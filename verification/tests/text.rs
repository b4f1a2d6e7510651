use lalafell_bot::text::{
    chars_of, join_strings, parse_i32_text, parse_u64_text, push_i64, push_u64, replace_text, same_text,
    same_text_ignoring_case, split_on, split_words, string_of,
};

fn strings(v: &[&str]) -> Vec<String> {
    v.iter().map(|s| s.to_string()).collect()
}

#[test]
fn split_on_keeps_empty_pieces() {
    assert_eq!(split_on("a\nb\n", '\n'), strings(&["a", "b", ""]));
    assert_eq!(split_on("", '\n'), strings(&[""]));
    assert_eq!(split_on("\n\n", '\n'), strings(&["", "", ""]));
    assert_eq!(split_on("no separator", '\n'), strings(&["no separator"]));
}

#[test]
fn split_words_skips_all_unicode_whitespace() {
    assert_eq!(split_words("  !poll  What\tis\u{3000}it "), strings(&["!poll", "What", "is", "it"]));
    assert_eq!(split_words(""), Vec::<String>::new());
    assert_eq!(split_words(" \u{85}\u{a0} "), Vec::<String>::new());
    assert_eq!(split_words("one"), strings(&["one"]));
}

#[test]
fn join_puts_separator_between_neighbours() {
    assert_eq!(join_strings(&strings(&["a", "b", "c"]), ", "), "a, b, c");
    assert_eq!(join_strings(&strings(&["only"]), ", "), "only");
    assert_eq!(join_strings(&Vec::new(), ", "), "");
}

#[test]
fn chars_and_strings_round_trip() {
    let cs = chars_of("héllo ⃣");
    assert_eq!(cs, vec!['h', 'é', 'l', 'l', 'o', ' ', '\u{20e3}']);
    assert_eq!(string_of(&cs), "héllo ⃣");
}

#[test]
fn parse_i32_accepts_what_std_accepts() {
    let cases = [
        "42", "-7", "+5", "", "-", "+", "12a", "2147483647", "2147483648", "-2147483648",
        "-2147483649", "99999999999999999999", "007", "-0", " 1", "1 ", "٣",
    ];
    for c in cases.iter() {
        assert_eq!(parse_i32_text(c), c.parse::<i32>().ok(), "input {:?}", c);
    }
    assert_eq!(parse_i32_text("2147483647"), Some(i32::MAX));
    assert_eq!(parse_i32_text("-2147483648"), Some(i32::MIN));
    assert_eq!(parse_i32_text("2147483648"), None);
}

#[test]
fn decimal_text_matches_display() {
    for v in [0i64, 5, -5, 10, 123, -2147483648, i64::MIN, i64::MAX].iter() {
        let mut s = String::from("x");
        push_i64(&mut s, *v);
        assert_eq!(s, format!("x{}", v));
    }
    let mut s = String::new();
    push_u64(&mut s, u64::MAX);
    assert_eq!(s, u64::MAX.to_string());
}

#[test]
fn i32_text_reads_back() {
    for v in [0i32, 1, -1, 9, 10, 4096, i32::MAX, i32::MIN].iter() {
        let mut s = String::new();
        push_i64(&mut s, *v as i64);
        assert_eq!(parse_i32_text(&s), Some(*v));
    }
}

#[test]
fn replace_replaces_every_occurrence_left_to_right() {
    assert_eq!(replace_text("hi {mention}, {mention}!", "{mention}", "<@1>"), "hi <@1>, <@1>!");
    assert_eq!(replace_text("aaa", "aa", "b"), "ba");
    assert_eq!(replace_text("{mention", "{mention}", "x"), "{mention");
    assert_eq!(replace_text("", "{mention}", "x"), "");
}

#[test]
fn text_comparisons() {
    assert!(same_text("abc", "abc"));
    assert!(!same_text("abc", "abd"));
    assert!(same_text_ignoring_case("ÄBC Éclair", "äbc éCLAIR"));
    assert!(!same_text_ignoring_case("abc", "abcd"));
}

#[test]
fn parse_u64_accepts_what_std_accepts() {
    let cases = ["0", "+7", "-7", "", "+", "18446744073709551615", "18446744073709551616", "99999999999999999999999", "12x", "٣"];
    for c in cases.iter() {
        assert_eq!(parse_u64_text(c), c.parse::<u64>().ok(), "input {:?}", c);
    }
}
