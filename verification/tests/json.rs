use cc_switch::json::{Json, JsonNumber};
use cc_switch::sse::{chat_sse_data, data_lines_value};

fn json(text: &str) -> Json {
    data_lines_value(&vec![text.to_string()], false).expect("test JSON")
}

fn to_json_text(v: &Json) -> String {
    let framed = chat_sse_data(v);
    framed["data: ".len()..framed.len() - 2].to_string()
}

#[test]
fn json_reads_back_what_was_set() {
    let o = Json::object().set("a", Json::from_u64(1)).set("b", Json::from_str("x")).set("a", Json::from_i64(-2));
    assert_eq!(o.get("a").unwrap().as_i64(), Some(-2));
    assert_eq!(o.get_str("b"), Some("x"));
    assert_eq!(to_json_text(&o), "{\"a\":-2,\"b\":\"x\"}");
    assert!(o.get("c").is_none());
    let o = o.set("c", Json::Null);
    assert!(o.get("c").unwrap().is_null());
    assert_eq!(o.get("a").unwrap().as_i64(), Some(-2));
}

#[test]
fn json_round_trips_through_text() {
    let text = r#"{"a":[1,-2,0.5,"s",null,true],"b":{"c":{}}}"#;
    let v = json(text);
    assert_eq!(to_json_text(&v), text);
    assert!(matches!(v.get("a").unwrap().as_array().unwrap()[2], Json::Number(JsonNumber::Float(_))));
    assert!(data_lines_value(&vec!["{oops".to_string()], false).is_none());
    assert_eq!(v.get2("b", "c").map(to_json_text), Some("{}".to_string()));
    assert_eq!(v.u64_or_zero("missing"), 0);
    assert_eq!(to_json_text(&v.deep_clone()), text);
    assert_eq!(v.get("a").unwrap().as_array().unwrap()[1].as_u64(), None);
    assert_eq!(v.get("a").unwrap().as_array().unwrap()[0].as_u64(), Some(1));
    assert_eq!(json("18446744073709551615").as_i64(), None);
    assert_eq!(json("\"s\"").as_str(), Some("s"));
    assert_eq!(json("false").as_bool(), Some(false));
}
