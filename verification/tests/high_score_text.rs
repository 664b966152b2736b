use snake_game::high_score::{high_score_text, is_whitespace, load_high_score, parse_high_score};
use snake_game::HighScore;

#[test]
fn missing_store_gives_zero() {
    assert_eq!(load_high_score(None), 0);
}

#[test]
fn store_with_a_number_gives_that_number() {
    assert_eq!(load_high_score(Some("17")), 17);
    assert_eq!(load_high_score(Some("17\n")), 17);
    assert_eq!(load_high_score(Some("0")), 0);
}

#[test]
fn store_without_a_number_gives_zero() {
    assert_eq!(load_high_score(Some("")), 0);
    assert_eq!(load_high_score(Some("seventeen")), 0);
    assert_eq!(load_high_score(Some("17 points")), 0);
}

#[test]
fn parse_reads_decimal_integers() {
    assert_eq!(parse_high_score("42"), 42);
    assert_eq!(parse_high_score("007"), 7);
    assert_eq!(parse_high_score("+7"), 7);
    assert_eq!(parse_high_score("-5"), -5);
    assert_eq!(parse_high_score("-0"), 0);
    assert_eq!(parse_high_score("2147483647"), i32::MAX);
    assert_eq!(parse_high_score("-2147483648"), i32::MIN);
    assert_eq!(parse_high_score("0000000000000000000012"), 12);
}

#[test]
fn parse_sets_white_space_around_the_number_aside() {
    assert_eq!(parse_high_score("  42"), 42);
    assert_eq!(parse_high_score("42  "), 42);
    assert_eq!(parse_high_score("\t\r\n 42 \n"), 42);
    assert_eq!(parse_high_score("\u{3000}9\u{a0}"), 9);
    assert_eq!(parse_high_score("\u{2003}-3\u{85}\u{2028}"), -3);
}

#[test]
fn parse_gives_zero_for_anything_else() {
    for text in [
        "", " ", "\n", "-", "+", "+-5", "--5", "5-", "1 2", "12a", "a12", "1.5", "0x10", "1e3",
        "१२", "2147483648", "-2147483649", "99999999999999999999999999", "-99999999999999999999",
        "4\u{200b}2", "+ 5", "５",
    ] {
        assert_eq!(parse_high_score(text), 0, "{:?}", text);
    }
}

#[test]
fn parse_agrees_with_trimming_and_parsing() {
    let mut texts: Vec<String> = Vec::new();
    for number in [0i64, 1, 9, 10, 99, 100, 12345, 2147483646, 2147483647, 2147483648, 4294967296] {
        for sign in ["", "+", "-", "- ", "++"] {
            for (before, after) in [("", ""), (" ", ""), ("", "\n"), ("\t", "\r\n"), ("\u{feff}", ""), ("\u{1680}", "\u{205f}"), ("x", ""), ("", "x")] {
                texts.push(format!("{}{}{}{}", before, sign, number, after));
            }
        }
    }
    for text in texts {
        let expected: i32 = text.trim().parse().unwrap_or(0);
        assert_eq!(parse_high_score(&text), expected, "{:?}", text);
    }
}

#[test]
fn white_space_is_what_the_characters_say_of_themselves() {
    for code in 0..0x11_0000u32 {
        if let Some(c) = char::from_u32(code) {
            assert_eq!(is_whitespace(c), c.is_whitespace(), "{:?}", c);
        }
    }
}

#[test]
fn record_keeps_the_greater_score() {
    let mut high_score = HighScore::new(5);
    assert_eq!(high_score.value(), 5);
    assert_eq!(high_score.record(3), None);
    assert_eq!(high_score.value(), 5);
    assert_eq!(high_score.record(5), None);
    assert_eq!(high_score.value(), 5);
    assert_eq!(high_score.record(6), Some(6));
    assert_eq!(high_score.value(), 6);
    assert_eq!(high_score.record(0), None);
    assert_eq!(high_score.value(), 6);
}

#[test]
fn record_never_lowers_the_high_score() {
    for before in [-3, 0, 1, 7, 99] {
        for score in 0..100 {
            let mut high_score = HighScore::new(before);
            let stored = high_score.record(score);
            assert_eq!(high_score.value(), before.max(score));
            assert_eq!(stored, if score > before { Some(score) } else { None });
        }
    }
}

#[test]
fn text_of_a_high_score_is_its_decimal_form() {
    assert_eq!(high_score_text(0), "0");
    assert_eq!(high_score_text(7), "7");
    assert_eq!(high_score_text(10), "10");
    assert_eq!(high_score_text(99), "99");
    assert_eq!(high_score_text(1203), "1203");
    assert_eq!(high_score_text(-5), "-5");
    assert_eq!(high_score_text(i32::MAX), "2147483647");
    assert_eq!(high_score_text(i32::MIN), "-2147483648");
}

#[test]
fn text_of_a_high_score_is_what_the_number_prints() {
    for value in (-1000..1000).chain([i32::MIN, i32::MIN + 1, i32::MAX - 1, i32::MAX, 1_000_000, -1_000_000_000]) {
        assert_eq!(high_score_text(value), value.to_string());
    }
}

#[test]
fn stored_text_loads_as_the_same_high_score() {
    for value in (-200..200).chain([i32::MIN, i32::MAX, 123_456_789]) {
        let text = high_score_text(value);
        assert_eq!(parse_high_score(&text), value);
        assert_eq!(load_high_score(Some(text.as_str())), value);
    }
}
