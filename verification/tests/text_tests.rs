use weather_bot::service::json_path::json_path_is_safe;
use weather_bot::text::{
    char_is_whitespace, chars_of, join_strings, owned, push_decimal, split_chars, str_equals,
    trim_bounds,
};

#[test]
fn decimal_notation() {
    for n in [0u64, 7, 10, 42, 1000, u64::MAX] {
        let mut s = "n=".to_string();
        push_decimal(&mut s, n);
        assert_eq!(s, format!("n={}", n));
    }
}

#[test]
fn split_like_std() {
    for text in ["", ",", "a,b", ",a,,b,", "abc"] {
        let got: Vec<String> = split_chars(&chars_of(text), ',')
            .into_iter()
            .map(|v| v.into_iter().collect())
            .collect();
        let want: Vec<String> = text.split(',').map(|p| p.to_string()).collect();
        assert_eq!(got, want);
    }
}

#[test]
fn trim_like_std() {
    for text in ["", "  ", " a ", "\u{2003}b\u{3000}", "a b", "\tx\n"] {
        let chars = chars_of(text);
        let (a, b) = trim_bounds(&chars);
        let got: String = chars[a..b].iter().collect();
        assert_eq!(got, text.trim());
    }
    for c in ['\u{85}', '\u{a0}', ' ', '\u{1680}', '\u{200b}', 'x'] {
        assert_eq!(char_is_whitespace(c), c.is_whitespace());
    }
}

#[test]
fn equality_and_join() {
    assert!(str_equals("абв", "абв"));
    assert!(!str_equals("абв", "абг"));
    assert!(!str_equals("ab", "abc"));
    assert_eq!(owned("x"), "x".to_string());
    let lines = vec!["a".to_string(), "".to_string(), "c".to_string()];
    assert_eq!(join_strings(&lines, "\n"), lines.join("\n"));
    assert_eq!(join_strings(&vec![], "\n"), "");
}

#[test]
fn json_path_forms_that_would_panic_are_refused() {
    for ok in [
        "$.current.temp",
        "$.hourly[0].temp",
        "$.daily[ 2 ].temp.day",
        "$.a[0,1]",
        "$.a[-0,1]",
        "$.a[1:3]",
        "$.a[-2:]",
        "$.a[0:5:2]",
        "$.a[?(@.t > -1.5)]",
        "$['x'].y",
        "$.a[922337203685477580]",
    ] {
        assert!(json_path_is_safe(ok), "{}", ok);
    }
    for bad in [
        "$.a[-1,0]",
        "$.a[1.5,2]",
        "$.a[1e2,2]",
        "$.a[99999999999999999999]",
        "$.a[0:5:0]",
        "$.a[ :5: 0 ]",
        "$.x[?(@.a[-2,3])]",
        "$.k1234567890123456789",
    ] {
        assert!(!json_path_is_safe(bad), "{}", bad);
    }
}
