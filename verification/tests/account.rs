use cc_switch::account::{
    account_answer, account_from_reply, account_headers, account_query_error, account_rejected, number_text_of, parse_i64,
    parse_string, pricing_from_reply, rejection_from,
};
use cc_switch::sse::{chat_sse_data, data_lines_value};
use cc_switch::json::{Json, JsonNumber};

fn json(text: &str) -> Json {
    data_lines_value(&vec![text.to_string()], false).expect("test JSON")
}

#[test]
fn parses_integer_fields() {
    let v = json(r#"{"a": 5, "b": -3, "c": "42", "d": 2.9, "e": -2.9, "f": "x", "g": true, "h": 18446744073709551615, "i": 1e30}"#);
    assert_eq!(parse_i64(v.get("a")), Some(5));
    assert_eq!(parse_i64(v.get("b")), Some(-3));
    assert_eq!(parse_i64(v.get("c")), Some(42));
    assert_eq!(parse_i64(v.get("d")), Some(2));
    assert_eq!(parse_i64(v.get("e")), Some(-2));
    assert_eq!(parse_i64(v.get("f")), None);
    assert_eq!(parse_i64(v.get("g")), None);
    assert_eq!(parse_i64(v.get("h")), Some(i64::MAX));
    assert_eq!(parse_i64(v.get("i")), Some(i64::MAX));
    assert_eq!(parse_i64(v.get("missing")), None);
    assert_eq!(parse_i64(None), None);
}

#[test]
fn parses_text_fields() {
    let v = json(r#"{"a": "  alice ", "b": "   ", "c": 3}"#);
    assert_eq!(parse_string(v.get("a")).as_deref(), Some("alice"));
    assert_eq!(parse_string(v.get("b")), None);
    assert_eq!(parse_string(v.get("c")), None);
    assert_eq!(parse_string(None), None);
}

#[test]
fn builds_account_headers() {
    let (auth, user) = account_headers(Some("  tok "), Some(" 17 "));
    assert_eq!(auth.as_deref(), Some("Bearer tok"));
    assert_eq!(user.as_deref(), Some("17"));
    let (auth, user) = account_headers(Some("BEARER abc"), Some("  "));
    assert_eq!(auth.as_deref(), Some("BEARER abc"));
    assert_eq!(user, None);
    let (auth, user) = account_headers(None, None);
    assert!(auth.is_none() && user.is_none());
}

#[test]
fn reads_a_signed_in_account() {
    let body = json(
        r#"{"success": true, "data": {"id": 7, "username": " bob ", "display_name": "", "email": "b@x.io",
            "group": "vip", "quota": "1000", "used_quota": 250.7, "request_count": 3}}"#,
    );
    let r = account_from_reply(&body);
    assert!(r.logged_in);
    assert!(r.message.is_none());
    let a = r.account.expect("account");
    assert_eq!(a.id, Some(7));
    assert_eq!(a.username.as_deref(), Some("bob"));
    assert_eq!(a.display_name, None);
    assert_eq!(a.email.as_deref(), Some("b@x.io"));
    assert_eq!(a.group.as_deref(), Some("vip"));
    assert_eq!(a.quota, 1000);
    assert_eq!(a.used_quota, 250);
    assert_eq!(a.request_count, Some(3));
    assert_eq!(a.quota_per_usd, 500_000);
}

#[test]
fn account_without_data_reads_the_reply_itself() {
    let r = account_from_reply(&json(r#"{"success": true, "id": 9}"#));
    let a = r.account.expect("account");
    assert_eq!(a.id, Some(9));
    assert_eq!(a.quota, 0);
    assert_eq!(a.used_quota, 0);
    assert_eq!(a.request_count, None);
}

#[test]
fn unsuccessful_account_reply_is_signed_out() {
    let r = account_from_reply(&json(r#"{"success": false, "message": "please log in"}"#));
    assert!(!r.logged_in);
    assert!(r.account.is_none());
    assert_eq!(r.message.as_deref(), Some("please log in"));
    let r = account_from_reply(&json(r#"{"data": {}}"#));
    assert_eq!(r.message.as_deref(), Some("BistroCode account is not logged in"));
}

#[test]
fn refusals_explain_themselves() {
    let r = account_rejected(r#"{"message": "token expired"}"#);
    assert!(!r.logged_in);
    assert_eq!(r.message.as_deref(), Some("token expired"));
    let r = account_rejected("   ");
    assert_eq!(r.message.as_deref(), Some("BistroCode account is not logged in"));
    let r = account_rejected("forbidden");
    assert_eq!(r.message.as_deref(), Some("forbidden"));
    let r = rejection_from(None, "plain");
    assert_eq!(r.message.as_deref(), Some("plain"));
    assert_eq!(
        account_query_error(502, "bad gateway"),
        "BistroCode account query failed (HTTP 502 Bad Gateway): bad gateway"
    );
}

#[test]
fn reads_a_price_list() {
    let body = json(
        r#"{"success": true, "group_ratio": {"default": 0.2, "vip": 1, "bad": "x"},
            "data": [
              {"model_name": "gpt-4o", "quota_type": 0, "model_ratio": 1.25, "completion_ratio": 4,
               "cache_ratio": 0.5, "enable_groups": ["default", 3, "vip"]},
              {"quota_type": 1, "model_price": 0.02}
            ]}"#,
    );
    let r = pricing_from_reply(&body);
    assert!(r.success);
    assert!(r.message.is_none());
    assert_eq!(r.default_group_ratio, "0.2");
    assert_eq!(
        r.group_ratio,
        vec![("default".to_string(), "0.2".to_string()), ("vip".to_string(), "1".to_string())]
    );
    assert_eq!(r.models.len(), 2);
    let m = &r.models[0];
    assert_eq!(m.model_name, "gpt-4o");
    assert_eq!(m.quota_type, 0);
    assert_eq!(m.model_ratio, "1.25");
    assert_eq!(m.model_price, "0");
    assert_eq!(m.completion_ratio, "4");
    assert_eq!(m.cache_ratio.as_deref(), Some("0.5"));
    assert_eq!(m.create_cache_ratio, None);
    assert_eq!(m.enable_groups, vec!["default".to_string(), "vip".to_string()]);
    let m = &r.models[1];
    assert_eq!(m.model_name, "");
    assert_eq!(m.quota_type, 1);
    assert_eq!(m.model_price, "0.02");
    assert_eq!(m.completion_ratio, "0");
    assert!(m.enable_groups.is_empty());
}

#[test]
fn failed_price_list_has_defaults() {
    let r = pricing_from_reply(&json(r#"{"success": false}"#));
    assert!(!r.success);
    assert!(r.models.is_empty());
    assert!(r.group_ratio.is_empty());
    assert_eq!(r.default_group_ratio, "0.2");
    assert_eq!(r.message.as_deref(), Some("BistroCode pricing query failed"));
    let r = pricing_from_reply(&json(r#"{"success": true}"#));
    assert_eq!(r.default_group_ratio, "0.2");
    assert!(r.models.is_empty());
}

#[test]
fn writes_number_texts() {
    assert_eq!(number_text_of(Some(&Json::Number(JsonNumber::PosInt(120)))).as_deref(), Some("120"));
    assert_eq!(number_text_of(Some(&Json::Number(JsonNumber::NegInt(-5)))).as_deref(), Some("-5"));
    assert_eq!(number_text_of(Some(&Json::Number(JsonNumber::Float("0.75".to_string())))).as_deref(), Some("0.75"));
    assert_eq!(number_text_of(Some(&Json::Null)), None);
}

#[test]
fn ratios_read_as_the_client_writes_them() {
    let body = json(r#"{"success": true, "group_ratio": {"default": 1e-7}, "data": [{"model_ratio": 1.0, "model_price": 2.5e3}]}"#);
    let r = pricing_from_reply(&body);
    assert_eq!(r.default_group_ratio, "0.0000001");
    assert_eq!(r.models[0].model_ratio, "1");
    assert_eq!(r.models[0].model_price, "2500");
}

#[test]
fn answers_account_statuses() {
    let r = account_answer(401, r#"{"message": "expired"}"#).unwrap().ok().unwrap();
    assert!(!r.logged_in);
    assert_eq!(r.message.as_deref(), Some("expired"));
    let r = account_answer(403, "").unwrap().ok().unwrap();
    assert_eq!(r.message.as_deref(), Some("BistroCode account is not logged in"));
    let e = account_answer(500, "down").unwrap().err().unwrap();
    assert_eq!(e, "BistroCode account query failed (HTTP 500 Internal Server Error): down");
    assert!(account_answer(200, "{}").is_none());
}
