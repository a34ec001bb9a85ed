use api_proxy::json::{member, record_of, set_member, Json};
use api_proxy::text::{
    insert_ascending, parse_unsigned, same_text, signed_text, text_before, trim_end_slashes,
    unsigned_text,
};

fn value(text: &str) -> serde_json::Value {
    serde_json::from_str(text).unwrap()
}

const SAMPLE: &str = r#"{"b": [null, true, -7, 1.5, "x\u0000é"], "a": {"z": {}, "y": []}}"#;

#[test]
fn values_convert_both_ways() {
    let v = value(SAMPLE);
    let plain = Json::from_value(v.clone());
    assert_eq!(plain, Json::from_text(SAMPLE).unwrap());
    assert_eq!(plain, Json::from_slice(SAMPLE.as_bytes()).unwrap());
    assert_eq!(plain.into_value(), v);
}

#[test]
fn written_values_read_back() {
    let bytes = Json::from_text(SAMPLE).unwrap().into_bytes();
    assert_eq!(bytes, serde_json::to_vec(&value(SAMPLE)).unwrap());
    assert_eq!(Json::from_slice(&bytes), Json::from_slice(SAMPLE.as_bytes()));
    let text = Json::from_text(SAMPLE).unwrap().into_text();
    assert_eq!(text, value(SAMPLE).to_string());
    assert_eq!(Json::from_text(&text), Json::from_text(SAMPLE));
}

#[test]
fn what_is_no_json_is_not_read() {
    assert_eq!(Json::from_slice(b"{"), None);
    assert_eq!(Json::from_slice(b"\xff"), None);
    assert_eq!(
        Json::from_text("nul"),
        Err(serde_json::from_str::<serde_json::Value>("nul").unwrap_err().to_string())
    );
}

#[test]
fn marked_text_is_read_with_a_limit_of_its_own() {
    let nested = format!("{}{}", "[".repeat(127), "]".repeat(127));
    let text = format!(r#"[{{"$serde_json::private::RawValue": "{}"}}]"#, nested);
    let written = Json::from_text(&text).unwrap().into_bytes();
    assert_eq!(written, format!("[{}]", nested).into_bytes());
    assert_eq!(Json::from_slice(&written), None);
    assert_eq!(Json::from_text(&nested).unwrap().into_text(), nested);
}

#[test]
fn numbers_are_read_as_integers() {
    let int = |text: &str| Json::from_text(text).unwrap().as_i64();
    assert_eq!(int("9223372036854775807"), Some(i64::MAX));
    assert_eq!(int("-9223372036854775808"), Some(i64::MIN));
    assert_eq!(int("9223372036854775808"), None);
    assert_eq!(int("1.0"), None);
    assert_eq!(int("true"), None);
    assert_eq!(Json::number(5).as_i64(), Some(5));
    assert_eq!(Json::number(u64::MAX).as_i64(), None);
    assert_eq!(Json::number(u64::MAX).into_text(), "18446744073709551615");
}

#[test]
fn members_are_found() {
    let v = Json::from_text(r#"{"s": "t", "b": true, "a": [1], "o": {"k": null}}"#).unwrap();
    assert_eq!(v.get("s").unwrap().as_str(), Some("t"));
    assert_eq!(v.get("b").unwrap().as_bool(), Some(true));
    assert_eq!(v.get("a").unwrap().as_array().unwrap().len(), 1);
    assert_eq!(v.get("o").unwrap().as_object().unwrap()[0], member("k", Json::Null));
    assert_eq!(v.get("x"), None);
    assert_eq!(v.get("a").unwrap().get("0"), None);
    assert_eq!(v.as_str(), None);
    assert_eq!(v.as_bool(), None);
    assert_eq!(v.as_array(), None);
    assert_eq!(v.get("s").unwrap().as_object(), None);
}

#[test]
fn records_are_kept_in_order() {
    let r = record_of(vec![
        member("b", Json::Bool(true)),
        member("a", Json::Null),
        member("b", Json::string("last")),
    ]);
    assert_eq!(r.into_text(), r#"{"a":null,"b":"last"}"#);
    let members = set_member(vec![member("a", Json::Null), member("c", Json::Null)], "b", Json::Null);
    assert_eq!(
        members,
        vec![member("a", Json::Null), member("b", Json::Null), member("c", Json::Null)]
    );
}

#[test]
fn decimal_numbers() {
    assert_eq!(unsigned_text(0), "0");
    assert_eq!(unsigned_text(u64::MAX), u64::MAX.to_string());
    assert_eq!(signed_text(i64::MIN), i64::MIN.to_string());
    assert_eq!(signed_text(-1), "-1");
    for n in [0, 9, 10, 99, 12345, u64::MAX] {
        assert_eq!(parse_unsigned(&unsigned_text(n)), Some(n));
    }
    for text in ["", "+", "-0", "0x1", "1 ", "٣", "++1", "18446744073709551616", "007", "+12"] {
        assert_eq!(parse_unsigned(text), text.parse::<u64>().ok());
    }
}

#[test]
fn texts_are_ordered_as_strings_are() {
    for a in ["", "a", "ab", "b", "é", "\u{10000}", "\u{ffff}"] {
        for b in ["", "a", "ab", "b", "é", "\u{10000}", "\u{ffff}"] {
            assert_eq!(text_before(a, b), a < b);
            assert_eq!(same_text(a, b), a == b);
        }
    }
    assert_eq!(trim_end_slashes("a/b///"), "a/b");
    assert_eq!(trim_end_slashes("///"), "");
    let mut list = Vec::new();
    for s in ["m", "a", "z", "m"] {
        insert_ascending(&mut list, s.to_string());
    }
    assert_eq!(list, vec!["a".to_string(), "m".to_string(), "z".to_string()]);
}
