use cc_switch::auth::{
    bistrocode_authorization_header, connected_account, dashboard_failure_message, dashboard_outcome,
    dashboard_query, default_tokens_failure_message, default_tokens_outcome, exchange_failure_message,
    exchange_outcome, i64_to_text, u64_to_text, BistroCodeAuthExchangeResponse, BistroCodeDesktopTokenConfig,
    BistroCodeDesktopTokensData, BistroCodeDesktopTokensResponse, BistroCodeQuotaDataItem, BistroCodeQuotaDataResponse,
    BISTROCODE_AUTH_BASE_URL,
};

#[test]
fn builds_authorization_headers() {
    assert_eq!(bistrocode_authorization_header("abc"), "Bearer abc");
    assert_eq!(bistrocode_authorization_header("Bearer abc"), "Bearer abc");
    assert_eq!(bistrocode_authorization_header("bEaReR abc"), "bEaReR abc");
    assert_eq!(bistrocode_authorization_header("Bearerabc"), "Bearer Bearerabc");
    assert_eq!(BISTROCODE_AUTH_BASE_URL, "https://bistrocode.online");
}

#[test]
fn writes_integers() {
    assert_eq!(i64_to_text(0), "0");
    assert_eq!(i64_to_text(-1700000000), "-1700000000");
    assert_eq!(i64_to_text(i64::MIN), "-9223372036854775808");
    assert_eq!(u64_to_text(u64::MAX), "18446744073709551615");
}

#[test]
fn builds_the_dashboard_query() {
    let q = dashboard_query(1, 1700000000);
    assert_eq!(
        q,
        vec![
            ("start_timestamp".to_string(), "1".to_string()),
            ("end_timestamp".to_string(), "1700000000".to_string()),
            ("default_time".to_string(), "hour".to_string()),
        ]
    );
}

#[test]
fn requires_a_connected_account() {
    assert_eq!(connected_account(" tok ", " 7 "), Ok(("tok".to_string(), "7".to_string())));
    assert_eq!(connected_account("", "7"), Err("BistroCode account is not connected".to_string()));
    assert_eq!(connected_account("tok", "  "), Err("BistroCode account is not connected".to_string()));
}

#[test]
fn explains_failed_exchanges() {
    assert_eq!(
        exchange_failure_message(400, r#"{"message": "code expired"}"#),
        "Failed to exchange BistroCode auth code (HTTP 400 Bad Request): code expired"
    );
    assert_eq!(
        exchange_failure_message(400, r#"{"message": "  "}"#),
        "Failed to exchange BistroCode auth code (HTTP 400 Bad Request): {\"message\": \"  \"}"
    );
    assert_eq!(
        exchange_failure_message(502, "oops"),
        "Failed to exchange BistroCode auth code (HTTP 502 Bad Gateway): oops"
    );
    let refused = BistroCodeAuthExchangeResponse { success: false, message: None, data: None };
    assert_eq!(exchange_outcome(refused).err().as_deref(), Some("BistroCode authorization failed"));
    let refused = BistroCodeAuthExchangeResponse { success: false, message: Some("bad state".to_string()), data: None };
    assert_eq!(exchange_outcome(refused).err().as_deref(), Some("bad state"));
    let ok = BistroCodeAuthExchangeResponse { success: true, message: None, data: None };
    assert!(exchange_outcome(ok).is_ok());
}

#[test]
fn judges_dashboard_replies() {
    assert_eq!(dashboard_failure_message(500, "x"), "查询 BistroCode 云端看板失败 (HTTP 500 Internal Server Error): x");
    let item = BistroCodeQuotaDataItem {
        id: Some(1),
        user_id: None,
        username: None,
        model_name: Some("m".to_string()),
        created_at: 5,
        token_used: Some(10),
        count: Some(1),
        quota: Some(3),
    };
    let rows = dashboard_outcome(BistroCodeQuotaDataResponse { success: true, message: None, data: Some(vec![item]) }).ok().unwrap();
    assert_eq!(rows.len(), 1);
    assert_eq!(rows[0].created_at, 5);
    let rows = dashboard_outcome(BistroCodeQuotaDataResponse { success: true, message: None, data: None }).ok().unwrap();
    assert!(rows.is_empty());
    let err = dashboard_outcome(BistroCodeQuotaDataResponse { success: false, message: None, data: None }).err().unwrap();
    assert_eq!(err, "BistroCode 云端看板返回失败");
}

#[test]
fn judges_default_key_replies() {
    assert_eq!(default_tokens_failure_message(404, "none"), "创建 BistroCode 默认 API Key 失败 (HTTP 404 Not Found): none");
    let config = BistroCodeDesktopTokenConfig {
        id: 1,
        name: "desktop".to_string(),
        key: "sk-1".to_string(),
        group: "default".to_string(),
        purpose: "chat".to_string(),
        model_match: "*".to_string(),
        base_url: "https://bistrocode.online".to_string(),
        created_time: 0,
    };
    let data = BistroCodeDesktopTokensData { configs: vec![config], groups: None };
    let keys = default_tokens_outcome(BistroCodeDesktopTokensResponse { success: true, message: None, data: Some(data) }).ok().unwrap();
    assert_eq!(keys[0].key, "sk-1");
    let err = default_tokens_outcome(BistroCodeDesktopTokensResponse { success: false, message: Some("quota".to_string()), data: None })
        .err()
        .unwrap();
    assert_eq!(err, "quota");
    let err = default_tokens_outcome(BistroCodeDesktopTokensResponse { success: false, message: None, data: None }).err().unwrap();
    assert_eq!(err, "BistroCode 默认 API Key 返回失败");
}
