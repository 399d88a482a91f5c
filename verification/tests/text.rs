use guardian_cli::text::{
    chars_of, find_in, holds, push_decimal, split_lines, split_on, string_of, trimmed, white_space,
};

fn chars(s: &str) -> Vec<char> {
    s.chars().collect()
}

fn lines_of(s: &str) -> Vec<String> {
    split_lines(&chars(s)).iter().map(|l| l.iter().collect()).collect()
}

#[test]
fn white_space_is_the_unicode_property() {
    for code in 0u32..=0x10FFFF {
        if let Some(c) = char::from_u32(code) {
            assert_eq!(white_space(c), c.is_whitespace(), "U+{:04X}", code);
        }
    }
}

#[test]
fn chars_and_strings_round_trip() {
    let s = "héllo wörld ✓";
    assert_eq!(chars_of(s), chars(s));
    assert_eq!(string_of(&chars(s)), s);
}

#[test]
fn lines_agree_with_std() {
    let cases = [
        "",
        "\n",
        "a",
        "a\n",
        "a\nb",
        "a\r\nb\r\n",
        "a\rb\n",
        "a\r",
        "\r\n",
        "\n\n",
        "x\n\ny\n",
        "one\r\n\r\ntwo",
        "a\n\r",
    ];
    for case in cases {
        let expected: Vec<String> = case.lines().map(|l| l.to_string()).collect();
        assert_eq!(lines_of(case), expected, "{:?}", case);
    }
}

#[test]
fn trim_agrees_with_std() {
    let cases = ["", " ", "a", "  a  ", "\t a b \r\n", "\u{a0}x\u{3000}", "   ", "a  b"];
    for case in cases {
        let got: String = trimmed(&chars(case)).iter().collect();
        assert_eq!(got, case.trim(), "{:?}", case);
    }
}

#[test]
fn find_agrees_with_std() {
    let cases = [("hello", "l"), ("hello", "lo"), ("hello", "x"), ("", "a"), ("aaa", "aa"), ("abc", "")];
    for (s, p) in cases {
        let expected = s.find(p);
        assert_eq!(find_in(&chars(s), &chars(p), 0), expected, "{:?} {:?}", s, p);
        assert_eq!(holds(&chars(s), p), s.contains(p));
    }
    assert_eq!(find_in(&chars("abcabc"), &chars("bc"), 2), Some(4));
    assert_eq!(find_in(&chars("abcabc"), &chars("bc"), 5), None);
}

#[test]
fn split_agrees_with_std() {
    let cases = ["", "a", "a,b", ",", "a,,b,", " x , y "];
    for case in cases {
        let expected: Vec<String> = case.split(',').map(|p| p.to_string()).collect();
        let got: Vec<String> = split_on(&chars(case), ',').iter().map(|p| p.iter().collect()).collect();
        assert_eq!(got, expected, "{:?}", case);
    }
}

#[test]
fn decimal_agrees_with_std() {
    for n in [0u64, 1, 9, 10, 11, 99, 100, 350, 500, 4_000_000_000, u64::MAX] {
        let mut s = String::from("n=");
        push_decimal(&mut s, n);
        assert_eq!(s, format!("n={}", n));
    }
}
