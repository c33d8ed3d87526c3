//! Text, maps, JSON and time.

use homeassistant_tui::json::{Json, Number};
use homeassistant_tui::strmap::{tallied, StrMap};
use homeassistant_tui::text;
use homeassistant_tui::time::{Timestamp, FIRST_SECOND, LAST_SECOND};
use serde_json::Value;

/// A JSON value out of its text.
fn json(text: &str) -> Json {
    lift(&serde_json::from_str(text).unwrap())
}

fn lift(v: &Value) -> Json {
    match v {
        Value::Null => Json::Null,
        Value::Bool(b) => Json::Bool(*b),
        Value::Number(n) => Json::Number(number(n)),
        Value::String(s) => Json::Text(s.clone()),
        Value::Array(a) => Json::List(a.iter().map(lift).collect()),
        Value::Object(o) => Json::Object(fields(o)),
    }
}

fn fields(o: &serde_json::Map<String, Value>) -> StrMap<Json> {
    let mut r = StrMap::new();
    for (k, v) in o {
        r.insert(k.clone(), lift(v));
    }
    r
}

fn number(n: &serde_json::Number) -> Number {
    Number { uint: n.as_u64(), text: n.to_string(), micros: (n.as_f64().unwrap() * 1_000_000.0) as i64 }
}

/// Every character there is.
fn every_char() -> impl Iterator<Item = char> {
    (0..=0x10ffffu32).filter_map(char::from_u32)
}

#[test]
fn white_space_is_that_of_the_standard_library() {
    for c in every_char() {
        assert_eq!(text::is_white(c), c.is_whitespace(), "{:x}", c as u32);
    }
}

#[test]
fn text_is_trimmed_and_cut() {
    for s in ["", " ", " a ", "\u{a0}\u{2003}x y\u{3000}", "no", "\t\n"] {
        assert_eq!(text::trim(s), s.trim());
    }
    assert_eq!(text::trim_end("a//b//", '/'), "a//b");
    assert_eq!(text::trim_end("//", '/'), "");
    assert_eq!(text::split_before("a.b.c", '.'), "a");
    assert_eq!(text::split_before("abc", '.'), "abc");
    assert_eq!(text::strip_prefix("https://x", "https://"), Some("x"));
    assert_eq!(text::strip_prefix("http://x", "https://"), None);
    assert!(text::starts_with("añb", "añ") && !text::starts_with("a", "añ"));
    assert!(text::ends_with("añb", "ñb") && !text::ends_with("b", "ñb"));
    assert_eq!(text::replace("a_b_", '_', ' '), "a b ");
}

#[test]
fn text_is_put_together() {
    assert_eq!(text::cat2("a", "b"), "ab");
    assert_eq!(text::cat3("a", "", "c"), "ac");
    assert_eq!(text::cat5("a", "b", "c", "d", "é"), "abcdé");
    assert_eq!(text::spaces(3), "   ");
    assert_eq!(text::pad_left("7", 4), format!("{:>4}", "7"));
    assert_eq!(text::pad_left("é", 2), format!("{:>2}", "é"));
    assert_eq!(text::pad_right("State", 9), format!("{:<9}", "State"));
    assert_eq!(text::pad_right("too long", 3), "too long");
    for n in [0, 9, 10, 99, 100, 1_000_000, u64::MAX] {
        assert_eq!(text::decimal_text(n), n.to_string());
    }
}

#[test]
fn text_is_ordered_as_strings_are() {
    let all = ["", "a", "ab", "b", "B", "é", "z", "\u{ffff}", "\u{10000}"];
    for a in all {
        for b in all {
            let expected = if a < b {
                text::Rel::Before
            } else if a == b {
                text::Rel::Same
            } else {
                text::Rel::After
            };
            assert_eq!(text::order(a, b), expected, "{a:?} {b:?}");
            assert_eq!(text::same(a, b), a == b);
        }
    }
}

#[test]
fn maps_hold_the_last_value_in_the_order_of_the_keys() {
    let mut m = StrMap::new();
    for (k, v) in [("b", 1), ("a", 2), ("c", 3), ("b", 4)] {
        m.insert(k.to_string(), v);
    }
    assert_eq!(m.len(), 3);
    let entries: Vec<(&str, i32)> = (0..m.len()).map(|i| (m.key_at(i), *m.value_at(i))).collect();
    assert_eq!(entries, vec![("a", 2), ("b", 4), ("c", 3)]);
    m.remove("b");
    m.remove("zzz");
    assert_eq!(m.get("b"), None);
    assert_eq!(m.get("c"), Some(&3));
    let t = tallied(vec!["x".to_string(), "y".to_string(), "x".to_string()]);
    assert_eq!((t.get("x"), t.get("y"), t.get("z")), (Some(&2), Some(&1), None));
}

#[test]
fn json_is_written_as_serde_json_writes_it() {
    for t in [
        "null",
        "true",
        "[]",
        "{}",
        "[1,-2,3.5,1e300,18446744073709551615,-0.0]",
        r#"{"b":[{"x":null}],"a":"é\u0001\"\\\/\b\f\n\r\t\u001f\u007f"}"#,
    ] {
        let v: Value = serde_json::from_str(t).unwrap();
        assert_eq!(lift(&v).to_text(), v.to_string());
    }
}

#[test]
fn json_strings_are_escaped_as_serde_json_escapes_them() {
    let all: String = every_char().collect();
    assert_eq!(Json::text(all.clone()).to_text(), Value::String(all).to_string());
    assert_eq!(Json::text("a\"\u{1}".to_string()).to_text(), "\"a\\\"\\u0001\"");
}

#[test]
fn json_values_are_read() {
    let v = json(r#"{"a": {"b": [1, "x", true]}, "n": -1.5, "s": "t"}"#);
    let b = v.get("a").unwrap().get("b").unwrap();
    let items = b.as_array().unwrap();
    assert_eq!((items[0].as_u64(), items[1].as_str(), items[2].as_bool()), (Some(1), Some("x"), Some(true)));
    assert_eq!(items[0].as_str(), None);
    assert_eq!(v.get("n").unwrap().as_u64(), None);
    assert_eq!(v.get("n").unwrap().as_number().unwrap().micros, -1_500_000);
    assert_eq!((v.text_at("s"), v.text_at("n"), v.text_at("zzz")), (Some("t"), None, None));
    assert!(v.get("zzz").is_none() && b.get("a").is_none());
    assert!(Json::Null.is_null() && !b.is_null());
    assert_eq!(json("[1]").into_array().unwrap().len(), 1);
    assert_eq!(json("7").into_array(), Err(json("7")));
}

#[test]
fn json_numbers_are_made() {
    for n in [0, 10, -10, i32::MAX, i32::MIN] {
        assert_eq!(Json::signed(n), lift(&Value::from(n)));
    }
    for n in [0, 7, 9_000_000_000] {
        assert_eq!(Json::count(n), lift(&Value::from(n)));
    }
    assert_eq!(Json::count(u64::MAX).as_number().unwrap().micros, i64::MAX);
    assert_eq!(Json::list(vec![Json::flag(false)]).to_text(), "[false]");
}

#[test]
fn times_are_read_and_written() {
    let t = Timestamp::parse("2026-09-19T08:00:00.123456+02:00").unwrap();
    assert_eq!((t.secs(), t.nanos()), (1_789_797_600, 123_456_000));
    assert_eq!(t.to_rfc3339(), "2026-09-19T06:00:00.123456+00:00");
    assert_eq!(Timestamp::parse("2026-09-19T06:00:00.123456Z"), Some(t));
    assert_eq!(Timestamp::parse("2026-09-19"), None);
    assert_eq!(Timestamp::parse("unknown"), None);
}

#[test]
fn microseconds_give_dates_within_range() {
    let t = Timestamp::from_micros(-1).unwrap();
    assert_eq!((t.secs(), t.nanos()), (-1, 999_999_000));
    let t = Timestamp::from_micros(1_500_000).unwrap();
    assert_eq!((t.secs(), t.nanos()), (1, 500_000_000));
    assert!(Timestamp::from_micros(LAST_SECOND * 1_000_000 + 999_999).is_some());
    assert!(Timestamp::from_micros((LAST_SECOND + 1) * 1_000_000).is_none());
    assert!(Timestamp::from_micros(FIRST_SECOND * 1_000_000).is_some());
    assert!(Timestamp::from_micros(FIRST_SECOND * 1_000_000 - 1).is_none());
    assert!(Timestamp::from_micros(i64::MAX).is_none());
    assert!(Timestamp::from_micros(i64::MIN).is_none());
}

#[test]
fn dates_are_those_that_chrono_can_hold() {
    assert_eq!(FIRST_SECOND, chrono::DateTime::<chrono::Utc>::MIN_UTC.timestamp());
    assert_eq!(LAST_SECOND, chrono::DateTime::<chrono::Utc>::MAX_UTC.timestamp());
    for (s, n) in [(FIRST_SECOND, 0), (LAST_SECOND, 999_999_999), (0, 1_999_999_999), (59, 1_999_999_999), (0, 1_000_000_000), (0, 2_000_000_000), (LAST_SECOND + 1, 0)] {
        let theirs = chrono::DateTime::<chrono::Utc>::from_timestamp(s, n);
        assert_eq!(Timestamp::new(s, n).is_some(), theirs.is_some(), "{s} {n}");
    }
}

#[test]
fn seconds_between_times_are_cut_toward_zero() {
    let t = |s: i64, n: u32| Timestamp::new(s, n).unwrap();
    assert_eq!(t(10, 0).seconds_since(&t(3, 500_000_000)), 6);
    assert_eq!(t(3, 500_000_000).seconds_since(&t(10, 0)), -6);
    assert_eq!(t(10, 0).seconds_since(&t(10, 1)), 0);
    assert_eq!(t(LAST_SECOND, 0).seconds_since(&t(FIRST_SECOND, 0)), LAST_SECOND - FIRST_SECOND);
    // A leap second counts where the other time is beyond it in the day.
    assert_eq!(t(120, 0).seconds_since(&t(59, 1_500_000_000)), 60);
    assert_eq!(t(86_400, 0).seconds_since(&t(86_399, 1_500_000_000)), 0);
    assert_eq!(t(59, 1_500_000_000).seconds_since(&t(120, 0)), -60);
    for (a, b) in [(0, 59), (59, 59), (59, 86_400), (59, 86_460), (-1, 59), (86_399, -86_341)] {
        for (m, n) in [(0, 0), (0, 1_700_000_000), (1_200_000_000, 0), (1_200_000_000, 1_700_000_000)] {
            if let (Some(x), Some(y)) = (Timestamp::new(a, m), Timestamp::new(b, n)) {
                let theirs = |t: Timestamp| chrono::DateTime::<chrono::Utc>::from_timestamp(t.secs(), t.nanos()).unwrap();
                assert_eq!(y.seconds_since(&x), (theirs(y) - theirs(x)).num_seconds());
            }
        }
    }
}

#[test]
fn times_are_moved_and_ordered() {
    let t = Timestamp::new(100_000, 5).unwrap();
    assert_eq!(t.earlier(24), Timestamp::new(13_600, 5).unwrap());
    assert_eq!(t.later(60), Timestamp::new(100_060, 5).unwrap());
    assert!(t.earlier(1).before(&t) && !t.before(&t) && t.before(&Timestamp::new(100_000, 6).unwrap()));
    assert_eq!(Timestamp::new(FIRST_SECOND, 0).unwrap().earlier(1).secs(), FIRST_SECOND);
    assert_eq!(Timestamp::new(0, 0).unwrap().later(u64::MAX).secs(), LAST_SECOND);
}
