use opendev::json::{Json, JsonNumber};
use opendev::parse::{from_value, parse};
use opendev::sorting::sort;
use opendev::strmap::StrMap;
use opendev::text::{
    concat3, is_white_space, join, number_text, parse_size, str_precedes, strip_prefix, trim,
    NumberFault,
};

#[test]
fn white_space_is_that_of_unicode() {
    for code in 0..=0x10ffffu32 {
        if let Some(c) = char::from_u32(code) {
            assert_eq!(is_white_space(c), c.is_whitespace(), "{code:#x}");
        }
    }
}

#[test]
fn trimmed_text_has_no_outer_space() {
    for text in ["", " ", "a", " a b\t", "\u{3000}x\u{85}", "\u{200b}y "] {
        assert_eq!(trim(text), text.trim());
    }
}

#[test]
fn sizes_are_read_as_decimal_numbers() {
    assert!(matches!(parse_size("42"), Ok(42)));
    assert!(matches!(parse_size("+7"), Ok(7)));
    assert!(matches!(parse_size("007"), Ok(7)));
    assert!(matches!(parse_size(""), Err(NumberFault::Empty)));
    for text in ["-1", "+", "-", "1 ", "0x1", "\u{663}"] {
        assert!(matches!(parse_size(text), Err(NumberFault::InvalidDigit)));
    }
    let largest = format!("{}", usize::MAX);
    assert!(matches!(parse_size(&largest), Ok(n) if n == usize::MAX));
    assert!(matches!(
        parse_size(&format!("{}0", usize::MAX)),
        Err(NumberFault::TooLarge)
    ));
    for text in ["0", "10", "99999999999999999999999", "12a", "a", "+ 1"] {
        assert_eq!(parse_size(text).ok(), text.parse::<usize>().ok());
    }
}

#[test]
fn numbers_are_written_and_read_back() {
    for n in [0u64, 9, 10, 12345, u64::MAX] {
        assert_eq!(number_text(n), n.to_string());
    }
    assert!(matches!(parse_size(&number_text(12345)), Ok(12345)));
}

#[test]
fn texts_are_put_together_and_taken_apart() {
    assert_eq!(concat3("a", "\u{fc}", "c"), "a\u{fc}c");
    let parts = vec!["a".to_string(), "b".to_string(), "c".to_string()];
    assert_eq!(join(&parts, ", "), "a, b, c");
    assert_eq!(join(&Vec::new(), ", "), "");
    assert_eq!(strip_prefix("Length: 1", "Length:"), Some(" 1"));
    assert_eq!(strip_prefix("Len", "Length:"), None);
}

#[test]
fn texts_are_ordered_by_their_characters() {
    let texts = ["", "a", "ab", "b", "B", "\u{e4}", "\u{10000}", "\u{ffff}"];
    for a in texts {
        for b in texts {
            assert_eq!(str_precedes(a, b), a < b);
        }
    }
    let mut names: Vec<String> = texts.iter().map(|t| t.to_string()).collect();
    names.push("a".to_string());
    let mut expected = names.clone();
    expected.sort();
    assert_eq!(sort(names), expected);
}

#[test]
fn maps_keep_the_order_of_insertion() {
    let mut map: StrMap<u32> = StrMap::new();
    assert!(map.is_empty());
    map.insert("b", 1);
    map.insert("a", 2);
    map.insert("b", 3);
    assert_eq!(map.len(), 2);
    assert_eq!(map.pair(0), (&"b".to_string(), &3));
    assert_eq!(map.pair(1), (&"a".to_string(), &2));
    assert_eq!(map.remove("b"), Some(3));
    assert_eq!(map.remove("b"), None);
    assert!(!map.contains_key("b"));
    assert_eq!(map.get("a"), Some(&2));
}

#[test]
fn json_text_is_read() {
    assert!(parse("").is_none());
    assert!(parse("{\"a\":}").is_none());
    assert!(parse("[1] x").is_none());
    let value = parse(r#" {"a": [null, true, -3, 1.5, 18446744073709551615, "x\n"], "a": {}} "#);
    assert!(value.unwrap().get("a").unwrap().as_object().unwrap().is_empty());

    let list = parse(r#"[null, true, -3, 1.5, 18446744073709551615, "x\n", {"k": []}]"#).unwrap();
    let items = list.as_array().unwrap();
    assert_eq!(items.len(), 7);
    assert!(matches!(items[0], Json::Null));
    assert_eq!(items[1].as_bool(), Some(true));
    assert!(matches!(items[2], Json::Number(JsonNumber::NegInt(-3))));
    assert!(matches!(
        items[3],
        Json::Number(JsonNumber::Float(bits)) if bits == 1.5f64.to_bits()
    ));
    assert_eq!(items[4].as_u64(), Some(u64::MAX));
    assert_eq!(items[5].as_str(), Some("x\n"));
    assert!(items[6].get("k").unwrap().as_array().unwrap().is_empty());
}

#[test]
fn values_are_taken_over() {
    let mut members = serde_json::Map::new();
    members.insert("n".to_string(), serde_json::Value::from(7));
    members.insert("s".to_string(), serde_json::Value::from("t"));
    let value = from_value(serde_json::Value::Object(members));
    assert_eq!(value.get("n").unwrap().as_u64(), Some(7));
    assert_eq!(value.get_str("s"), Some("t"));
    let copy = value.copied();
    assert_eq!(copy.get_str("s"), Some("t"));
    assert_eq!(copy.as_object().unwrap().len(), 2);
}

#[test]
fn maps_keep_the_places_of_their_keys() {
    let mut map: StrMap<u32> = StrMap::new();
    for (i, key) in ["a", "b", "c", "d"].into_iter().enumerate() {
        map.insert(key, i as u32);
    }
    map.insert("b", 9);
    assert_eq!(map.remove("c"), Some(2));
    assert_eq!(format!("{:?}", map), r#"{"a": 0, "b": 9, "d": 3}"#);
    assert_eq!(
        map.into_pairs(),
        vec![("a".to_string(), 0), ("b".to_string(), 9), ("d".to_string(), 3)]
    );
}

#[test]
fn nested_json_is_taken_over() {
    let text = format!("[{}1{}]", "[".repeat(50), "]".repeat(50));
    let mut value = &parse(&text).unwrap();
    let mut depth = 0;
    while let Some(items) = value.as_array() {
        depth += 1;
        value = &items[0];
    }
    assert_eq!(depth, 51);
    let wide = format!("[{}0]", "1,".repeat(20_000));
    assert_eq!(parse(&wide).unwrap().as_array().unwrap().len(), 20_001);
}
