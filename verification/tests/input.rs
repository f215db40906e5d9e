use chatgpt_oauth::input::{InputItem, Tool};
use chatgpt_oauth::json::Value;

fn parse(text: &str) -> Value {
    Value::parse(text).unwrap()
}

#[test]
fn tool_builders_shape() {
    assert_eq!(Tool::web_search().get_str("type"), Some("web_search"));
    assert_eq!(Tool::image_generation().get_str("type"), Some("image_generation"));
    let f = Tool::function("get_weather", parse(r#"{"type":"object"}"#));
    assert_eq!(f.get_str("type"), Some("function"));
    assert_eq!(f.get_str("name"), Some("get_weather"));
    let fd = Tool::function_described("x", "desc", parse("{}"));
    assert_eq!(fd.get_str("description"), Some("desc"));
}

#[test]
fn input_item_shape() {
    let u = InputItem::user("안녕");
    assert_eq!(u.get_str("role"), Some("user"));
    assert_eq!(u.get_array("content").unwrap()[0].get_str("text"), Some("안녕"));
    let o = InputItem::function_output("c1", "{\"temp\":21}");
    assert_eq!(o.get_str("type"), Some("function_call_output"));
    assert_eq!(o.get_str("call_id"), Some("c1"));
    assert_eq!(o.get_str("output"), Some("{\"temp\":21}"));
}

#[test]
fn builders_are_exact() {
    assert_eq!(Tool::web_search().render(), r#"{"type":"web_search"}"#);
    assert_eq!(
        Tool::function_described("x", "d", parse(r#"{"type":"object"}"#)).render(),
        r#"{"description":"d","name":"x","parameters":{"type":"object"},"type":"function"}"#
    );
    assert_eq!(
        Tool::function("x", parse("{}")).render(),
        r#"{"name":"x","parameters":{},"type":"function"}"#
    );
    assert_eq!(
        InputItem::user("a").render(),
        r#"{"content":[{"text":"a","type":"input_text"}],"role":"user"}"#
    );
}
