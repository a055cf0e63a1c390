use rtc::utils::{clamp, split_long_lines, wrap_words};

#[test]
fn clamp_int() {
    assert_eq!(5, clamp(5, 0, 10));
    assert_eq!(1, clamp(5, 0, 1));
    assert_eq!(0, clamp(-5, 0, 1));
}

#[test]
fn clamp_keeps_the_bounds() {
    assert_eq!(0, clamp(0, 0, 10));
    assert_eq!(10, clamp(10, 0, 10));
    assert_eq!(0.0, clamp(-0.5, 0.0, 1.0));
    assert_eq!(1.0, clamp(10.0, 0.0, 1.0));
    assert_eq!(0.25, clamp(0.25, 0.0, 1.0));
}

#[test]
fn utils_line_wrap() {
    let s = "123456789 123456789 123456789 123456789 123456789 123456789 123456789 abc defg 123456789 123456789 123456789 123456789 123456789 123456789 123456789 abc defg".to_string();
    assert_eq!(
        split_long_lines(70, &s),
        vec!(
            "123456789 123456789 123456789 123456789 123456789 123456789 123456789",
            "abc defg 123456789 123456789 123456789 123456789 123456789 123456789",
            "123456789 abc defg"
        )
    );
}

#[test]
fn canvas_line_wrap() {
    let s = "123456789 123456789 123456789 123456789 123456789 123456789 123456789 abc defg 123456789 123456789 123456789 123456789 123456789 123456789 123456789 abc defg".to_string();
    assert_eq!(
        split_long_lines(70, &s),
        vec!(
            "123456789 123456789 123456789 123456789 123456789 123456789 123456789",
            "abc defg 123456789 123456789 123456789 123456789 123456789 123456789",
            "123456789 abc defg"
        )
    );
}

#[test]
fn line_wrap_short_text_is_one_line() {
    assert_eq!(split_long_lines(70, "a  b\tc\n"), vec!["a b c"]);
    assert_eq!(split_long_lines(70, ""), vec![""]);
}

#[test]
fn line_wrap_counts_the_space_only_within_a_line() {
    // "ab" counts 3, so "cd" (3 + 2 = 5) no longer fits below 5
    assert_eq!(split_long_lines(5, "ab cd"), vec!["ab", "cd"]);
    assert_eq!(split_long_lines(6, "ab cd"), vec!["ab cd"]);
    // after a break the count starts at the word's own length
    assert_eq!(split_long_lines(5, "ab cd ef"), vec!["ab", "cd ef"]);
}

#[test]
fn line_wrap_closes_an_empty_line_before_a_long_first_word() {
    assert_eq!(split_long_lines(3, "abcdef g"), vec!["", "abcdef", "g"]);
}

#[test]
fn wrap_words_joins_with_one_space() {
    let words = vec!["x".to_string(), "yz".to_string(), "w".to_string()];
    assert_eq!(wrap_words(70, &words), vec!["x yz w"]);
    assert_eq!(wrap_words(0, &words), vec!["", "x", "yz", "w"]);
}
