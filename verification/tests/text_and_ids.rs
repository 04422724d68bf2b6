use linear_board::ids::Uuid;
use linear_board::json::{parse_json, Json};
use linear_board::string_map::StringMap;
use linear_board::text;
use linear_board::time::Timestamp;

#[test]
fn uuids_are_rendered_and_read_back() {
    let u = Uuid::from_u128(0x0123_4567_89ab_cdef_0011_2233_4455_6677);
    assert_eq!(u.to_string(), "01234567-89ab-cdef-0011-223344556677");
    assert_eq!(Uuid::parse_str(&u.to_string()), Some(u));
    assert_eq!(
        Uuid::parse_str("0123456789ABCDEF0011223344556677"),
        Some(u)
    );
    assert_eq!(
        Uuid::parse_str("{01234567-89ab-CDEF-0011-223344556677}"),
        Some(u)
    );
    assert_eq!(
        Uuid::parse_str("URN:uuid:01234567-89ab-cdef-0011-223344556677"),
        Some(u)
    );
}

#[test]
fn what_is_no_uuid_is_rejected() {
    for s in [
        "",
        "not-a-uuid",
        "0123456789abcdef001122334455667",
        "01234567-89ab-cdef-0011-22334455667g",
        "0123456789ab-cdef-0011-2233-44556677",
        "{0123456789abcdef0011223344556677}",
        " 01234567-89ab-cdef-0011-223344556677",
    ] {
        assert_eq!(Uuid::parse_str(s), None, "{s}");
    }
}

#[test]
fn random_uuids_have_version_and_variant() {
    let a = Uuid::new_v4();
    let b = Uuid::new_v4();
    assert_ne!(a, b);
    let s = a.to_string();
    assert_eq!(s.as_bytes()[14], b'4');
    assert!(matches!(s.as_bytes()[19], b'8' | b'9' | b'a' | b'b'));
}

#[test]
fn timestamps_are_ordered_by_seconds_then_nanoseconds() {
    let t = |secs, nanos| Timestamp { secs, nanos };
    assert!(t(1, 5).order_key() < t(1, 6).order_key());
    assert!(t(-1, 999_999_999).order_key() < t(0, 0).order_key());
    assert!(t(2, 0).order_key() > t(1, 999_999_999).order_key());
}

#[test]
fn numbers_are_written_and_read() {
    assert_eq!(text::decimal_of(0), "0");
    assert_eq!(text::decimal_of(u64::MAX), "18446744073709551615");
    assert_eq!(text::decimal_of_int(-42), "-42");
    assert_eq!(text::decimal_of_int(i64::MIN), "-9223372036854775808");
    assert_eq!(text::parse_u64("18446744073709551615"), Some(u64::MAX));
    assert_eq!(text::parse_u64("18446744073709551616"), None);
    assert_eq!(text::parse_u64("+7"), Some(7));
    assert_eq!(text::parse_u64("007"), Some(7));
    assert_eq!(text::parse_u64("+"), None);
    assert_eq!(text::parse_u64("-1"), None);
    assert_eq!(text::parse_u64(""), None);
}

#[test]
fn texts_are_trimmed_split_and_ordered() {
    assert_eq!(text::trim("\u{2003} a b\t\n"), "a b");
    assert_eq!(text::split_words(" a\u{a0}bc \n d"), vec!["a", "bc", "d"]);
    assert!(text::comes_before("a", "b"));
    assert!(text::comes_before("a", "ab"));
    assert!(!text::comes_before("b", "ab"));
    assert!(!text::comes_before("a", "a"));
    assert!(text::comes_before("Z", "a"));
    assert!(text::comes_before("z", "é"));
    assert_eq!(text::to_lower("ÀbC"), "Àbc");
    assert_eq!(text::to_upper("àbC"), "àBC");
}

#[test]
fn json_is_read_as_a_tree() {
    let j = parse_json(r#"{"b": [1, -2, 1.5, "x\n", null, true], "a": {}}"#).unwrap();
    let list = j.get("b").unwrap().as_array().unwrap();
    assert_eq!(list[0], Json::Number("1".to_string()));
    assert_eq!(list[1], Json::Number("-2".to_string()));
    assert_eq!(list[2], Json::Number("1.5".to_string()));
    assert_eq!(list[3].as_str(), Some("x\n"));
    assert!(list[4].is_null());
    assert_eq!(list[5].as_bool(), Some(true));
    assert_eq!(j.get("a"), Some(&Json::Object(Vec::new())));
    assert_eq!(j.at(&["b", "3"]).and_then(|x| x.as_str()), Some("x\n"));
    assert_eq!(j.at(&["b", "03"]), None);
    assert_eq!(j.at(&["b", "+3"]), None);
    assert_eq!(j.at(&["b", "6"]), None);
    assert_eq!(j.at(&["c"]), None);
    assert_eq!(j.copy(), j);
    assert!(parse_json("{").unwrap_err().contains("EOF"));
}

#[test]
fn string_maps_hold_one_value_per_key() {
    let mut m: StringMap<String> = StringMap::new();
    assert_eq!(m.insert("b".to_string(), "1".to_string()), None);
    assert_eq!(m.insert("a".to_string(), "2".to_string()), None);
    assert_eq!(
        m.insert("b".to_string(), "3".to_string()),
        Some("1".to_string())
    );
    assert_eq!(m.len(), 2);
    assert_eq!(m.get("b"), Some(&"3".to_string()));
    assert_eq!(m.order_by_key(), vec![1, 0]);
    let copy = m.duplicate();
    assert_eq!(m.remove("b"), Some("3".to_string()));
    assert_eq!(m.remove("b"), None);
    assert!(!m.contains_key("b"));
    assert!(copy.contains_key("b"));
    assert_eq!(m.entry(0).0, "a");
}
