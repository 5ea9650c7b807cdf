use cc_switch::balance::{
    deepseek_report, new_api_report, single_balance_report, Amount, UNLIMITED_AMOUNT_BITS,
    answer_http_status, balance_precheck, balance_query_url, bearer_header, deepseek_reading, detect_provider,
    make_auth_error, make_error, new_api_usage_endpoint, new_api_usage_from_value, normalize_base_url,
    normalize_new_api_site_url, siliconflow_reading, BalanceProvider,
};
use cc_switch::sse::{chat_sse_data, data_lines_value};
use cc_switch::json::Json;

fn json(text: &str) -> Json {
    data_lines_value(&vec![text.to_string()], false).expect("test JSON")
}

fn to_json_text(v: &Json) -> String {
    let framed = chat_sse_data(v);
    framed["data: ".len()..framed.len() - 2].to_string()
}

#[test]
fn detects_bistrocode_as_new_api_provider() {
    assert!(matches!(
        detect_provider("https://bistrocode.online/v1"),
        Some(BalanceProvider::NewApi)
    ));
}

#[test]
fn strips_openai_compat_suffix_for_new_api_usage_endpoint() {
    assert_eq!(
        normalize_new_api_site_url("https://bistrocode.online/v1"),
        "https://bistrocode.online"
    );
    assert_eq!(
        normalize_new_api_site_url("https://example.com/api/v1/"),
        "https://example.com"
    );
    assert_eq!(
        normalize_new_api_site_url("https://example.com/compatible-mode/v1"),
        "https://example.com"
    );
}

#[test]
fn parses_new_api_quota_response_as_usd_usage() {
    let body = json(
        r#"{"code": true, "data": {"name": "BistroCode Pro", "total_granted": 1500000, "total_used": "500000",
            "total_available": 1000000, "unlimited_quota": false, "expires_at": 1893456000}}"#,
    );
    let usage = new_api_usage_from_value(&body).ok().expect("success");
    assert_eq!(usage.plan_name, "BistroCode Pro");
    assert!(!usage.unlimited);
    assert_eq!(usage.extra.as_deref(), Some("Expires 2030-01-01"));
    assert_eq!(to_json_text(usage.total_granted.as_ref().unwrap()), "1500000");
    assert_eq!(to_json_text(usage.total_used.as_ref().unwrap()), "\"500000\"");
    assert_eq!(to_json_text(usage.total_available.as_ref().unwrap()), "1000000");

    let result = new_api_report(usage, Some(amt(2.0)), Some(amt(3.0)), Some(amt(1.0)), true);
    assert!(result.success);
    let row = result.data.as_ref().unwrap().first().unwrap();
    assert_eq!(row.plan_name.as_deref(), Some("BistroCode Pro"));
    assert_eq!(val(row.total), Some(3.0));
    assert_eq!(val(row.used), Some(1.0));
    assert_eq!(val(row.remaining), Some(2.0));
    assert_eq!(row.unit.as_deref(), Some("USD"));
    assert_eq!(row.is_valid, Some(true));
    assert_eq!(row.extra.as_deref(), Some("Expires 2030-01-01"));
}

#[test]
fn parses_new_api_unlimited_quota() {
    let body = json(r#"{"success": true, "data": {"name": "Unlimited", "total_used": 250000, "unlimited_quota": true}}"#);
    let usage = new_api_usage_from_value(&body).ok().expect("success");
    assert!(usage.unlimited);
    assert_eq!(usage.plan_name, "Unlimited");
    assert_eq!(usage.extra, None);
    assert!(usage.total_available.is_none());
    assert!(usage.total_granted.is_none());
    assert_eq!(to_json_text(usage.total_used.as_ref().unwrap()), "250000");

    let result = new_api_report(usage, None, None, Some(amt(0.5)), false);
    let row = result.data.as_ref().unwrap().first().unwrap();
    assert_eq!(val(row.remaining), Some(-1.0));
    assert_eq!(val(row.total), Some(-1.0));
    assert_eq!(val(row.used), Some(0.5));
    assert_eq!(row.unit.as_deref(), Some("USD"));
    assert_eq!(row.is_valid, Some(true));
    assert_eq!(row.invalid_message, None);
}

#[test]
fn new_api_failure_reply_gives_its_message() {
    let body = json(r#"{"code": false, "message": "token expired"}"#);
    let err = new_api_usage_from_value(&body).err().expect("failure");
    assert!(!err.success);
    assert!(err.data.is_none());
    assert_eq!(err.error.as_deref(), Some("token expired"));

    let body = json(r#"{"success": false}"#);
    let err = new_api_usage_from_value(&body).err().expect("failure");
    assert_eq!(err.error.as_deref(), Some("New API usage query failed"));
}

#[test]
fn new_api_reply_without_data_reads_the_body_and_defaults_the_name() {
    let body = json(r#"{"name": "  ", "expires_at": "0", "total_used": 1}"#);
    let usage = new_api_usage_from_value(&body).ok().expect("success");
    assert_eq!(usage.plan_name, "BistroCode");
    assert_eq!(usage.extra, None);
    assert_eq!(to_json_text(usage.total_used.as_ref().unwrap()), "1");
}

#[test]
fn new_api_expiry_given_as_text() {
    let body = json(r#"{"data": {"expires_at": "1893456000"}}"#);
    let usage = new_api_usage_from_value(&body).ok().expect("success");
    assert_eq!(usage.extra.as_deref(), Some("Expires 2030-01-01"));
}

#[test]
fn detects_each_provider() {
    assert_eq!(detect_provider("https://API.DeepSeek.com"), Some(BalanceProvider::DeepSeek));
    assert_eq!(detect_provider("https://api.stepfun.ai/v1"), Some(BalanceProvider::StepFun));
    assert_eq!(detect_provider("https://api.stepfun.com"), Some(BalanceProvider::StepFun));
    assert_eq!(detect_provider("https://api.siliconflow.cn/v1"), Some(BalanceProvider::SiliconFlow));
    assert_eq!(detect_provider("https://api.siliconflow.com/v1"), Some(BalanceProvider::SiliconFlowEn));
    assert_eq!(detect_provider("https://openrouter.ai/api/v1"), Some(BalanceProvider::OpenRouter));
    assert_eq!(detect_provider("https://api.novita.ai/v3"), Some(BalanceProvider::NovitaAI));
    assert_eq!(detect_provider("https://my-new-api.example"), Some(BalanceProvider::NewApi));
    assert_eq!(detect_provider("https://example.com"), None);
}

#[test]
fn normalizes_base_urls() {
    assert_eq!(normalize_base_url("  https://a.example///  "), "https://a.example");
    assert_eq!(normalize_new_api_site_url("https://a.example/openai/v1"), "https://a.example");
    assert_eq!(normalize_new_api_site_url("https://a.example//v1"), "https://a.example");
    assert_eq!(normalize_new_api_site_url("https://a.example/v2/"), "https://a.example/v2");
    assert_eq!(new_api_usage_endpoint("https://bistrocode.online/v1").as_deref(), Some("https://bistrocode.online/api/usage/token/"));
    assert_eq!(new_api_usage_endpoint("  /v1/ "), None);
}

#[test]
fn site_urls_never_end_with_a_slash() {
    for url in ["https://a/", "https://a/v1//", "https://a//api/v1", "/", "https://a/compatible-mode/v1/"] {
        let site = normalize_new_api_site_url(url);
        assert!(!site.ends_with('/'), "{url} -> {site}");
        assert!(!normalize_base_url(url).ends_with('/'));
    }
}

#[test]
fn builds_query_urls_and_headers() {
    assert_eq!(bearer_header("sk-1"), "Bearer sk-1");
    assert_eq!(
        balance_query_url(BalanceProvider::NewApi, "https://x.example/v1").ok().as_deref(),
        Some("https://x.example/api/usage/token/")
    );
    let err = balance_query_url(BalanceProvider::NewApi, "   ").err().expect("empty");
    assert_eq!(err.error.as_deref(), Some("Base URL is empty"));
    assert_eq!(
        balance_query_url(BalanceProvider::SiliconFlowEn, "").ok().as_deref(),
        Some("https://api.siliconflow.com/v1/user/info")
    );
    assert_eq!(
        balance_query_url(BalanceProvider::DeepSeek, "").ok().as_deref(),
        Some("https://api.deepseek.com/user/balance")
    );
}

#[test]
fn answers_http_statuses() {
    let auth = make_auth_error(401);
    assert!(!auth.success);
    assert_eq!(auth.error.as_deref(), Some("Authentication failed (HTTP 401 Unauthorized)"));
    let line = &auth.data.as_ref().unwrap()[0];
    assert_eq!(line.is_valid, Some(false));
    assert_eq!(line.invalid_message.as_deref(), Some("Authentication failed (HTTP 401 Unauthorized)"));

    let forbidden = answer_http_status(403, "nope").expect("answered");
    assert_eq!(forbidden.error.as_deref(), Some("Authentication failed (HTTP 403 Forbidden)"));

    let failed = answer_http_status(500, "boom").expect("answered");
    assert_eq!(failed.error.as_deref(), Some("API error (HTTP 500 Internal Server Error): boom"));
    assert!(failed.data.is_none());

    assert!(answer_http_status(200, "{}").is_none());
    assert!(answer_http_status(204, "").is_none());
}

#[test]
fn prechecks_key_and_provider() {
    let e = balance_precheck("https://api.deepseek.com", "  ").err().expect("empty key");
    assert_eq!(e.error.as_deref(), Some("API key is empty"));
    let e = balance_precheck("https://example.com", "sk").err().expect("unknown");
    assert_eq!(e.error.as_deref(), Some("Unknown balance provider"));
    assert_eq!(balance_precheck("https://openrouter.ai", "sk").ok(), Some(BalanceProvider::OpenRouter));
    let e = make_error("x".to_string());
    assert_eq!(e.error.as_deref(), Some("x"));
}

#[test]
fn parses_integer_texts_as_std_does() {
    let parse = |t: &str| cc_switch::account::parse_i64(Some(&Json::from_str(t)));
    assert_eq!(parse("42"), Some(42));
    assert_eq!(parse("+7"), Some(7));
    assert_eq!(parse("-9223372036854775808"), Some(i64::MIN));
    assert_eq!(parse("9223372036854775808"), None);
    assert_eq!(parse(" 1"), None);
    assert_eq!(parse("-"), None);
    assert_eq!(parse(""), None);
    assert_eq!(parse("12a"), None);
}

#[test]
fn reads_deepseek_and_siliconflow_replies() {
    let body = json(
        r#"{"is_available": false, "balance_infos": [{"currency": "USD", "total_balance": "1.5"}, {"total_balance": 3}]}"#,
    );
    let (available, lines) = deepseek_reading(&body);
    assert!(!available);
    assert_eq!(lines.len(), 2);
    assert_eq!(lines[0].currency, "USD");
    assert_eq!(to_json_text(lines[0].total_balance.as_ref().unwrap()), "\"1.5\"");
    assert_eq!(lines[1].currency, "CNY");
    let (available, lines) = deepseek_reading(&json("{}"));
    assert!(available);
    assert!(lines.is_empty());

    let total = siliconflow_reading(&json(r#"{"data": {"totalBalance": "12.5"}}"#)).ok().expect("data");
    assert_eq!(to_json_text(total.as_ref().unwrap()), "\"12.5\"");
    let e = siliconflow_reading(&json(r#"{"code": 0}"#)).err().expect("missing");
    assert_eq!(e.error.as_deref(), Some("Missing 'data' field in response"));
}

fn amt(v: f64) -> Amount {
    Amount { bits: v.to_bits() }
}

fn val(a: Option<Amount>) -> Option<f64> {
    a.map(|a| f64::from_bits(a.bits))
}

#[test]
fn reports_new_api_usage() {
    let body = json(
        r#"{"code": true, "data": {"name": "BistroCode Pro", "total_granted": 1500000, "total_used": "500000",
            "total_available": 1000000, "unlimited_quota": false, "expires_at": 1893456000}}"#,
    );
    let usage = new_api_usage_from_value(&body).ok().expect("success");
    let r = new_api_report(usage, Some(amt(2.0)), Some(amt(3.0)), Some(amt(1.0)), true);
    assert!(r.success);
    let row = &r.data.as_ref().unwrap()[0];
    assert_eq!(row.plan_name.as_deref(), Some("BistroCode Pro"));
    assert_eq!(val(row.total), Some(3.0));
    assert_eq!(val(row.used), Some(1.0));
    assert_eq!(val(row.remaining), Some(2.0));
    assert_eq!(row.unit.as_deref(), Some("USD"));
    assert_eq!(row.is_valid, Some(true));
    assert_eq!(row.extra.as_deref(), Some("Expires 2030-01-01"));

    let body = json(r#"{"success": true, "data": {"name": "Unlimited", "total_used": 250000, "unlimited_quota": true}}"#);
    let usage = new_api_usage_from_value(&body).ok().expect("success");
    let r = new_api_report(usage, None, None, Some(amt(0.5)), false);
    let row = &r.data.as_ref().unwrap()[0];
    assert_eq!(val(row.remaining), Some(-1.0));
    assert_eq!(val(row.total), Some(-1.0));
    assert_eq!(val(row.used), Some(0.5));
    assert_eq!(row.is_valid, Some(true));
    assert_eq!(row.invalid_message, None);
    assert_eq!(f64::from_bits(UNLIMITED_AMOUNT_BITS), -1.0);

    let usage = new_api_usage_from_value(&json(r#"{"data": {}}"#)).ok().expect("success");
    let r = new_api_report(usage, Some(amt(0.0)), None, None, false);
    let row = &r.data.as_ref().unwrap()[0];
    assert_eq!(row.is_valid, Some(false));
    assert_eq!(row.invalid_message.as_deref(), Some("No credits remaining"));
    assert_eq!(row.plan_name.as_deref(), Some("BistroCode"));
}

#[test]
fn reports_deepseek_balances() {
    let r = deepseek_report(true, Vec::new());
    assert!(r.success && r.data.is_none() && r.error.is_none());
    let r = deepseek_report(false, vec![("USD".to_string(), Some(amt(1.5))), ("CNY".to_string(), None)]);
    let rows = r.data.unwrap();
    assert_eq!(rows.len(), 2);
    assert_eq!(rows[0].plan_name.as_deref(), Some("USD"));
    assert_eq!(rows[0].unit.as_deref(), Some("USD"));
    assert_eq!(val(rows[0].remaining), Some(1.5));
    assert_eq!(rows[0].is_valid, Some(false));
    assert_eq!(rows[0].invalid_message.as_deref(), Some("Insufficient balance"));
    assert_eq!(rows[1].remaining, None);
}

#[test]
fn reports_single_balances() {
    let r = single_balance_report(BalanceProvider::StepFun, amt(-3.0), None, None, false);
    let row = &r.data.as_ref().unwrap()[0];
    assert_eq!(row.plan_name.as_deref(), Some("StepFun"));
    assert_eq!(row.unit.as_deref(), Some("CNY"));
    assert_eq!(row.is_valid, Some(true));
    assert_eq!(row.invalid_message, None);
    let r = single_balance_report(BalanceProvider::SiliconFlowEn, amt(7.0), None, None, true);
    let row = &r.data.as_ref().unwrap()[0];
    assert_eq!(row.plan_name.as_deref(), Some("SiliconFlow (EN)"));
    assert_eq!(row.unit.as_deref(), Some("USD"));
    let r = single_balance_report(BalanceProvider::SiliconFlow, amt(7.0), None, None, true);
    assert_eq!(r.data.as_ref().unwrap()[0].unit.as_deref(), Some("CNY"));
    let r = single_balance_report(BalanceProvider::OpenRouter, amt(0.0), Some(amt(5.0)), Some(amt(5.0)), false);
    let row = &r.data.as_ref().unwrap()[0];
    assert_eq!(row.plan_name.as_deref(), Some("OpenRouter"));
    assert_eq!(val(row.total), Some(5.0));
    assert_eq!(row.is_valid, Some(false));
    assert_eq!(row.invalid_message.as_deref(), Some("No credits remaining"));
    let r = single_balance_report(BalanceProvider::NovitaAI, amt(0.25), None, None, true);
    let row = &r.data.as_ref().unwrap()[0];
    assert_eq!(row.plan_name.as_deref(), Some("Novita AI"));
    assert_eq!(row.is_valid, Some(true));
    assert_eq!(row.invalid_message, None);
    let r = single_balance_report(BalanceProvider::NovitaAI, amt(0.0), None, None, false);
    assert_eq!(r.data.as_ref().unwrap()[0].invalid_message.as_deref(), Some("No balance remaining"));
}
