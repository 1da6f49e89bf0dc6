use inc_version::decimal::{i32_text, parse_i32, push_i32};

fn chars(s: &str) -> Vec<char> {
    s.chars().collect()
}

fn read(s: &str) -> Option<i32> {
    parse_i32(&chars(s))
}

#[test]
fn parse_plain_numbers() {
    assert_eq!(read("0"), Some(0));
    assert_eq!(read("7"), Some(7));
    assert_eq!(read("10"), Some(10));
    assert_eq!(read("1234567890"), Some(1234567890));
}

#[test]
fn parse_signs() {
    assert_eq!(read("+5"), Some(5));
    assert_eq!(read("-5"), Some(-5));
    assert_eq!(read("-0"), Some(0));
    assert_eq!(read("+0"), Some(0));
    assert_eq!(read("+"), None);
    assert_eq!(read("-"), None);
    assert_eq!(read("--1"), None);
    assert_eq!(read("+-1"), None);
    assert_eq!(read("1-"), None);
}

#[test]
fn parse_leading_zeros() {
    assert_eq!(read("007"), Some(7));
    assert_eq!(read("-00012"), Some(-12));
    assert_eq!(read("00000000000000000000001"), Some(1));
}

#[test]
fn parse_limits() {
    assert_eq!(read("2147483647"), Some(i32::MAX));
    assert_eq!(read("2147483648"), None);
    assert_eq!(read("-2147483648"), Some(i32::MIN));
    assert_eq!(read("-2147483649"), None);
    assert_eq!(read("99999999999999999999999999"), None);
    assert_eq!(read("-99999999999999999999999999"), None);
}

#[test]
fn parse_rejects_other_text() {
    assert_eq!(read(""), None);
    assert_eq!(read(" 1"), None);
    assert_eq!(read("1 "), None);
    assert_eq!(read("1\n"), None);
    assert_eq!(read("x"), None);
    assert_eq!(read("1_000"), None);
    assert_eq!(read("12a"), None);
    assert_eq!(read("0x10"), None);
    assert_eq!(read("\u{663}"), None);
    assert_eq!(read("1.5"), None);
}

#[test]
fn parse_agrees_with_std() {
    let samples = [
        "", "+", "-", "0", "-0", "+0", "1", "-1", "+1", "09", "2147483647", "2147483648",
        "-2147483648", "-2147483649", "4294967296", "12345678901234567890", " 3", "3 ", "a",
        "1a", "++1", "1+1", "1e3", "\u{ff11}", "/", ":", "0000000000000",
    ];
    for s in samples {
        assert_eq!(read(s), s.parse::<i32>().ok(), "on `{}`", s);
    }
    let mut n: i64 = -5000;
    while n <= 5000 {
        let s = format!("{}", n);
        assert_eq!(read(&s), Some(n as i32));
        n += 1;
    }
}

#[test]
fn text_of_numbers() {
    assert_eq!(i32_text(0), "0");
    assert_eq!(i32_text(9), "9");
    assert_eq!(i32_text(10), "10");
    assert_eq!(i32_text(-1), "-1");
    assert_eq!(i32_text(1000), "1000");
    assert_eq!(i32_text(i32::MAX), "2147483647");
    assert_eq!(i32_text(i32::MIN), "-2147483648");
}

#[test]
fn text_agrees_with_std() {
    let mut values: Vec<i32> = vec![i32::MIN, i32::MIN + 1, -1000000000, i32::MAX - 1, i32::MAX];
    let mut n: i32 = -3000;
    while n <= 3000 {
        values.push(n);
        n += 1;
    }
    for v in values {
        assert_eq!(i32_text(v), format!("{}", v));
    }
}

#[test]
fn push_keeps_what_was_there() {
    let mut out = String::from("build ");
    push_i32(&mut out, 42);
    assert_eq!(out, "build 42");
    push_i32(&mut out, -7);
    assert_eq!(out, "build 42-7");
}

#[test]
fn text_then_parse_gives_the_number_back() {
    for v in [i32::MIN, -2147483647, -10, -1, 0, 1, 9, 10, 99, 100, 2147483646, i32::MAX] {
        let text = i32_text(v);
        assert_eq!(read(&text), Some(v));
    }
}
