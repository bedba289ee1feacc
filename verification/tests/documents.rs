use tt_toplike::document::{is_number_chars, parse_json, Json};
use tt_toplike::maps::TextMap;
use tt_toplike::text::{
    chars_of, decimal_text, find_first, find_last, find_pair, is_float_literal, parse_signed,
    parse_unsigned, trim,
};

#[test]
fn texts_are_parsed_into_trees() {
    let doc = parse_json(r#"{"b":[1,-2.5,null],"a":{"t":true,"s":"x\"y"}}"#).unwrap();
    assert_eq!(doc.get("a").and_then(|a| a.get("t")), Some(&Json::Bool(true)));
    assert_eq!(
        doc.get("a").and_then(|a| a.get("s")),
        Some(&Json::Text("x\"y".to_string()))
    );
    assert_eq!(
        doc.get("b"),
        Some(&Json::Array(vec![
            Json::Number("1".to_string()),
            Json::Number("-2.5".to_string()),
            Json::Null,
        ]))
    );
    assert_eq!(doc.get("c"), None);
    assert_eq!(doc.dup(), doc);
}

#[test]
fn malformed_texts_bring_the_message_of_the_parser() {
    let expected = serde_json::from_str::<serde_json::Value>("{").unwrap_err().to_string();
    assert_eq!(parse_json("{").unwrap_err(), expected);
    // So deep a text is refused, and one level less is not.
    let deep = |n: usize| format!("{}{}", "[".repeat(n), "]".repeat(n));
    assert!(parse_json(&deep(127)).is_ok());
    assert!(parse_json(&deep(128)).is_err());
}

#[test]
fn numbers_are_told_from_words() {
    let is = |s: &str| is_number_chars(chars_of(s).as_slice());
    for s in ["0", "-0", "10", "3.25", "-0.5"] {
        assert!(is(s), "{s}");
    }
    for s in ["", "-", "01", "1.", ".5", "1e3", "+1", "NaN", "1 "] {
        assert!(!is(s), "{s}");
    }
}

#[test]
fn float_literals_are_those_of_the_standard_library() {
    for s in [
        "1", "-1", "+1", "1.", ".5", "1.5e-3", "1E5", "inf", "-INF", "Infinity", "nan", "NaN", "",
        ".", "e5", "1e", "1e+", "0x10", "1_0", " 1", "infinit", "--1",
    ] {
        assert_eq!(
            is_float_literal(chars_of(s).as_slice()),
            s.parse::<f32>().is_ok(),
            "{s}"
        );
    }
}

#[test]
fn integers_are_those_of_the_standard_library() {
    for s in [
        "0", "7", "+7", "-7", "18446744073709551615", "18446744073709551616", "", "+", "-", "1a",
        "9223372036854775807", "-9223372036854775808", "-9223372036854775809",
    ] {
        let chars = chars_of(s);
        assert_eq!(
            parse_unsigned(chars.as_slice(), 10, u64::MAX),
            s.parse::<u64>().ok(),
            "{s}"
        );
        assert_eq!(parse_signed(chars.as_slice()), s.parse::<i64>().ok(), "{s}");
    }
    for n in [0, 9, 10, 99, 1_000_000, u64::MAX] {
        assert_eq!(decimal_text(n), n.to_string());
        assert_eq!(parse_unsigned(chars_of(&decimal_text(n)).as_slice(), 10, u64::MAX), Some(n));
    }
}

#[test]
fn trimming_is_that_of_the_standard_library() {
    for s in ["", " ", " a b ", "\t\nx\u{a0}\u{3000}", "\u{2003}y\u{200b}", "\u{85}z\u{feff}"] {
        assert_eq!(trim(s), s.trim(), "{s:?}");
    }
}

#[test]
fn characters_are_found() {
    let s = chars_of("a:b::c");
    assert_eq!(find_first(s.as_slice(), ':'), Some(1));
    assert_eq!(find_last(s.as_slice(), ':'), Some(4));
    assert_eq!(find_pair(s.as_slice(), ':', ':'), Some(3));
    assert_eq!(find_first(s.as_slice(), 'x'), None);
}

#[test]
fn text_maps_keep_the_last_value() {
    let mut m: TextMap<u32> = TextMap::new();
    assert!(m.is_empty());
    m.insert("a".to_string(), 1);
    m.insert("b".to_string(), 2);
    m.insert("a".to_string(), 3);
    assert_eq!((m.get("a"), m.get("b"), m.get("c")), (Some(&3), Some(&2), None));
    assert_eq!(m.len(), 2);
}
