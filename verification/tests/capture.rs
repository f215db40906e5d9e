use chatgpt_oauth::calendar::{date_at, date_of_day, date_utc, today_utc, Date};
use chatgpt_oauth::capture::{device_code_request, probe_capture, probe_needs_body, snapshot};
use chatgpt_oauth::json::{Number, Object, Value};
use chatgpt_oauth::text::{
    decimal, join, parse_unsigned, replace, strip_ascii_prefix, strip_suffix, to_ascii_lower,
};
use chatgpt_oauth::time::Duration;

#[test]
fn dates() {
    let cases = [
        (0, "1970-01-01"),
        (86_399, "1970-01-01"),
        (86_400, "1970-01-02"),
        (68_169_600, "1972-02-29"),
        (951_782_400, "2000-02-29"),
        (951_868_800, "2000-03-01"),
        (1_445_412_480, "2015-10-21"),
        (1_780_034_186, "2026-05-29"),
        (4_107_542_400, "2100-03-01"),
        (253_402_300_799, "9999-12-31"),
        (253_402_300_800, "10000-01-01"),
    ];
    for (secs, date) in cases {
        assert_eq!(date_utc(secs), date);
    }
}

#[test]
fn dates_by_the_clock() {
    assert_eq!(date_at(None), "1970-01-01");
    assert_eq!(date_at(Some(Duration::from_secs(0))), "1970-01-01");
    assert_eq!(date_at(Some(Duration::from_secs(951_782_400))), "2000-02-29");
    assert_eq!(date_at(Some(Duration::from_parts(951_868_799, 999_999_999))), "2000-02-29");
    assert_eq!(date_at(Some(Duration::from_secs(951_868_800))), "2000-03-01");
}

#[test]
fn days_follow_one_another() {
    let mut last = date_of_day(0);
    assert_eq!(last, Date { year: 1970, month: 1, day: 1 });
    for days in 1..200_000 {
        let date = date_of_day(days);
        let follows = if date.day > 1 {
            date.year == last.year && date.month == last.month && date.day == last.day + 1
        } else if date.month > 1 {
            date.year == last.year && date.month == last.month + 1 && last.day >= 28
        } else {
            date.year == last.year + 1 && last.month == 12 && last.day == 31
        };
        assert!(follows, "{last:?} {date:?}");
        last = date;
    }
}

#[test]
fn today_is_a_date() {
    let secs =
        || std::time::SystemTime::now().duration_since(std::time::UNIX_EPOCH).unwrap().as_secs();
    let before = date_utc(secs());
    let today = today_utc();
    let after = date_utc(secs());
    assert!(today == before || today == after);
    assert_eq!(today.len(), 10);
}

#[test]
fn captures() {
    let json = snapshot("GET", "http://h/models", 200, "{\"a\": 1}".into());
    assert_eq!(json.method, "GET");
    assert_eq!(json.endpoint, "http://h/models");
    assert_eq!(json.status, 200);
    assert_eq!(json.body, "{\"a\": 1}");
    assert_eq!(json.body_json.unwrap().render(), "{\"a\":1}");
    let html = snapshot("GET", "http://h/models", 502, "<html>".into());
    assert_eq!(html.body, "<html>");
    assert!(html.body_json.is_none());
}

#[test]
fn probes() {
    assert!(!probe_needs_body(200));
    assert!(probe_needs_body(201));
    let accepted = probe_capture("http://h/responses", 200, "{}".into());
    assert_eq!(accepted.method, "POST");
    assert_eq!(accepted.body, "(accepted — 200, SSE body not captured)");
    assert!(accepted.body_json.is_none());
    let refused = probe_capture("http://h/responses", 400, "{\"detail\":\"no\"}".into());
    assert_eq!(refused.status, 400);
    assert_eq!(refused.body, "{\"detail\":\"no\"}");
    assert_eq!(refused.body_json.unwrap().get_str("detail"), Some("no"));
}

#[test]
fn device_code() {
    assert_eq!(device_code_request("app").render(), "{\"client_id\":\"app\"}");
}

#[test]
fn documents_survive_reading_and_writing() {
    let texts = [
        "null",
        "true",
        "0",
        "18446744073709551615",
        "-9223372036854775808",
        "1.5",
        "-0.25",
        "1e+300",
        "\"\\\"\\n안\"",
        "[1,[],{}]",
        "{\"a\":{\"b\":[false,null]},\"c\":\"\"}",
    ];
    for text in texts {
        let value = Value::parse(text).unwrap();
        let again = Value::parse(&value.render()).unwrap();
        assert_eq!(value.render(), again.render());
        assert_eq!(value.clone().render(), value.render());
    }
    assert_eq!(Value::parse(" {\"b\": 1, \"a\": 2} ").unwrap().render(), "{\"a\":2,\"b\":1}");
    assert_eq!(Value::parse("{\"a\":1,\"a\":2}").unwrap().render(), "{\"a\":2}");
    assert_eq!(Value::number(Number::NegInt(-3)).render(), "-3");
    assert_eq!(Value::number(Number::PosInt(7)).as_u64(), Some(7));
    match Value::parse("1.50").unwrap() {
        Value::Number(Number::Float(decimal)) => assert_eq!(decimal.as_str(), "1.5"),
        other => panic!("expected a decimal, got {other:?}"),
    }
    assert_eq!(
        Value::parse("{").unwrap_err(),
        "EOF while parsing an object at line 1 column 1"
    );
}

#[test]
fn objects() {
    let mut object = Object::new().with("a", Value::boolean(true));
    object.insert("b", Value::null());
    object.insert("a", Value::string("x"));
    assert_eq!(object.get("a").unwrap().as_str(), Some("x"));
    assert!(object.get("b").unwrap().is_null());
    assert!(object.get("c").is_none());
    let value = Value::object(object).with_member("b", Value::array(Vec::new()));
    assert_eq!(value.render(), "{\"a\":\"x\",\"b\":[]}");
}

#[test]
fn texts() {
    assert_eq!(decimal(0), "0");
    assert_eq!(decimal(u64::MAX), "18446744073709551615");
    assert_eq!(parse_unsigned("007"), Some(7));
    assert_eq!(parse_unsigned("+"), None);
    assert_eq!(parse_unsigned(" 7"), None);
    assert_eq!(parse_unsigned("18446744073709551615"), Some(u64::MAX));
    assert_eq!(parse_unsigned("٣"), None);
    assert_eq!(join(&vec!["a".into(), "".into(), "b".into()], "-"), "a--b");
    assert_eq!(replace("aaaa", "aa", "b"), "bb");
    assert_eq!(replace("한a한", "한", ""), "a");
    assert_eq!(strip_suffix("x/codex", "/codex").as_deref(), Some("x"));
    assert_eq!(strip_suffix("codex", "/codex"), None);
    assert_eq!(strip_ascii_prefix("data: 한", "data:"), Some(" 한"));
    assert_eq!(strip_ascii_prefix("dat", "data:"), None);
    assert_eq!(to_ascii_lower("ÄbC"), "Äbc");
}

#[test]
fn durations() {
    let d = Duration::from_millis(1_234);
    assert_eq!(d.as_secs(), 1);
    assert_eq!(d.subsec_nanos(), 234_000_000);
    assert_eq!(d.as_millis(), 1_234);
    assert_eq!(d.min(Duration::from_secs(1)), Duration::from_secs(1));
    assert_eq!(d.min(Duration::from_parts(1, 234_000_001)), d);
    assert_eq!(Duration::from_secs(u64::MAX).as_millis(), u64::MAX as u128 * 1000);
}
