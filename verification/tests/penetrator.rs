use webserver::decimal::{parse_bounded, to_decimal};
use webserver::penetrator::{generate_result, Summary};
use webserver::text::{replace, split_char, split_lines, split_whitespace};

#[test]
fn summary_of_a_mixed_round() {
    let summary = generate_result(&vec![
        Some((200, 30)),
        None,
        Some((404, 5)),
        Some((204, 10)),
        Some((299, 21)),
        Some((300, 1)),
    ]);
    assert_eq!(
        summary,
        Summary {
            requests: 6,
            successes: 3,
            errors: 3,
            percent: 0,
            slowest: Some(30),
            fastest: Some(10),
            time: 61,
            average: Some(20),
        }
    );
}

#[test]
fn summary_of_a_round_without_success() {
    let summary = generate_result(&vec![None, Some((500, 3))]);
    assert_eq!(
        summary,
        Summary {
            requests: 2,
            successes: 0,
            errors: 2,
            percent: 0,
            slowest: None,
            fastest: None,
            time: 0,
            average: None,
        }
    );
}

#[test]
fn summary_of_a_round_of_successes() {
    let summary = generate_result(&vec![Some((200, 7)), Some((200, 8))]);
    assert_eq!(summary.percent, 100);
    assert_eq!(summary.average, Some(7));
    assert_eq!(summary.errors, 0);
    assert_eq!(summary.slowest, Some(8));
    assert_eq!(summary.fastest, Some(7));
}

#[test]
fn decimal_writes_and_reads() {
    assert_eq!(to_decimal(0), "0");
    assert_eq!(to_decimal(9), "9");
    assert_eq!(to_decimal(10), "10");
    assert_eq!(to_decimal(1234567890), "1234567890");
    assert_eq!(to_decimal(u128::MAX), "340282366920938463463374607431768211455");
    assert_eq!(parse_bounded("0", 255), Some(0));
    assert_eq!(parse_bounded("255", 255), Some(255));
    assert_eq!(parse_bounded("256", 255), None);
    assert_eq!(parse_bounded("+7", 255), Some(7));
    assert_eq!(parse_bounded("0000000000000000000000255", 255), Some(255));
    assert_eq!(parse_bounded("18446744073709551615", u64::MAX), Some(u64::MAX));
    assert_eq!(parse_bounded("18446744073709551616", u64::MAX), None);
    assert_eq!(parse_bounded("", 255), None);
    assert_eq!(parse_bounded("+", 255), None);
    assert_eq!(parse_bounded("-1", 255), None);
    assert_eq!(parse_bounded("1 ", 255), None);
    assert_eq!(parse_bounded("++1", 255), None);
    assert_eq!(parse_bounded("\u{663}", 255), None);
}

#[test]
fn text_is_split_as_std_splits_it() {
    for text in ["", "a", "a\r\nb", "\r\n", "a\r\n", "\r\n\r\n", "a\rb\nc\r\r\n\nd", "\r\r\n"] {
        assert_eq!(split_lines(text), text.split("\r\n").collect::<Vec<&str>>());
    }
    for text in ["", " ", "a", " a  b\tc\r\n", "\u{a0}x\u{2003}y\u{3000}", "a\u{200b}b", "\u{85}"] {
        assert_eq!(split_whitespace(text), text.split_whitespace().collect::<Vec<&str>>());
    }
    for text in ["", ".", "a.b", "..a..", "1.2.3.4"] {
        assert_eq!(split_char(text, '.'), text.split('.').collect::<Vec<&str>>());
    }
}

#[test]
fn text_is_replaced_as_std_replaces_it() {
    let cases = [
        ("", "a", "b"),
        ("aaa", "a", "bb"),
        ("aaa", "aa", "b"),
        ("abcabc", "bc", ""),
        ("abc", "abcd", "x"),
        ("abc", "", "-"),
        ("", "", "-"),
        ("{{a}} and {{a}}{{b}}", "{{a}}", "{{b}}"),
        ("gr\u{fc}n", "\u{fc}", "ue"),
    ];
    for (text, pattern, with) in cases {
        assert_eq!(replace(text, pattern, with), text.replace(pattern, with));
    }
}
