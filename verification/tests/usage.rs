use cc_switch::decimal::Dec;
use cc_switch::usage::{
    bistrocode_usage_estimate, estimate_bistrocode_quota, find_bistrocode_pricing, normalize_model_id,
    validate_model_pricing, BistroCodePricingModel, TokenUsage, UsageLogEntry, BISTROCODE_QUOTA_PER_USD,
};

fn model(name: &str, quota_type: i64, ratio: &str, price: &str, completion: &str, cache: Option<&str>) -> BistroCodePricingModel {
    BistroCodePricingModel {
        model_name: name.to_string(),
        quota_type,
        model_ratio: ratio.to_string(),
        model_price: price.to_string(),
        completion_ratio: completion.to_string(),
        cache_ratio: cache.map(|c| c.to_string()),
        create_cache_ratio: None,
        enable_groups: vec!["default".to_string()],
    }
}

fn tokens(input: u64, output: u64, cache_read: u64, cache_creation: u64) -> TokenUsage {
    TokenUsage { input_tokens: input, output_tokens: output, cache_read_tokens: cache_read, cache_creation_tokens: cache_creation }
}

fn dec(mantissa: i128, scale: u32) -> Dec {
    Dec { mantissa, scale }
}

#[test]
fn normalizes_model_ids() {
    assert_eq!(normalize_model_id("  \"OpenAI/GPT-4o\" "), "gpt-4o");
    assert_eq!(normalize_model_id("anthropic/sonnet-3-5-sonnet"), "sonnet-3-5-sonnet");
    assert_eq!(normalize_model_id("google/Gemini-2.5-Pro"), "gemini-2.5-pro");
    assert_eq!(normalize_model_id("deepseek-chat"), "deepseek-chat");
}

#[test]
fn exact_match_wins_over_prefix_match() {
    let models = vec![model("gpt-4", 0, "1", "0", "1", None), model("GPT-4o", 0, "2", "0", "1", None)];
    let found = find_bistrocode_pricing(&models, "openai/gpt-4o").expect("match");
    assert_eq!(found.model_name, "GPT-4o");
    let found = find_bistrocode_pricing(&models, "gpt-4o-mini").expect("prefix match");
    assert_eq!(found.model_name, "gpt-4");
    assert!(find_bistrocode_pricing(&models, "opencode").is_none());
    let blank = vec![model("  ", 0, "1", "0", "1", None)];
    assert!(find_bistrocode_pricing(&blank, "anything").is_none());
}

#[test]
fn estimates_token_priced_quota() {
    let m = model("opencode", 0, "1.5", "0", "4", Some("0.1"));
    let usage = tokens(1000, 200, 100, 50);
    assert_eq!(estimate_bistrocode_quota("opencode", &usage, &m, dec(2, 1)), Some(558));
    assert_eq!(estimate_bistrocode_quota("codex", &usage, &m, dec(2, 1)), Some(513));
    assert_eq!(estimate_bistrocode_quota("gemini", &tokens(10, 0, 100, 0), &m, dec(1, 0)), Some(15));
}

#[test]
fn tiny_positive_quota_costs_one_unit() {
    let m = model("x", 0, "0.5", "0", "1", None);
    assert_eq!(estimate_bistrocode_quota("opencode", &tokens(1, 0, 0, 0), &m, dec(2, 1)), Some(1));
    assert_eq!(estimate_bistrocode_quota("opencode", &tokens(0, 0, 0, 0), &m, dec(2, 1)), Some(0));
}

#[test]
fn estimates_request_priced_quota() {
    let m = model("img", 1, "0", "0.02", "1", None);
    assert_eq!(estimate_bistrocode_quota("opencode", &tokens(5, 5, 5, 5), &m, dec(2, 1)), Some(2000));
    let unreadable = model("x", 0, "abc", "0", "1", None);
    assert_eq!(estimate_bistrocode_quota("opencode", &tokens(5, 5, 0, 0), &unreadable, dec(1, 0)), Some(0));
    assert_eq!(BISTROCODE_QUOTA_PER_USD, 500_000);
}

#[test]
fn sums_the_estimate_over_the_log() {
    let models = vec![model("anthropic/sonnet-3-5", 0, "1.5", "0", "4", Some("0.1"))];
    let logs = vec![
        UsageLogEntry {
            app_type: "opencode".to_string(),
            model: "sonnet-3-5-sonnet".to_string(),
            usage: tokens(1000, 200, 100, 50),
            official_cost: Some(dec(5, 1)),
        },
        UsageLogEntry {
            app_type: "opencode".to_string(),
            model: "unknown".to_string(),
            usage: tokens(1, 1, 0, 0),
            official_cost: Some(dec(25, 2)),
        },
        UsageLogEntry {
            app_type: "codex".to_string(),
            model: "sonnet-3-5".to_string(),
            usage: tokens(1, 1, 0, 0),
            official_cost: None,
        },
    ];
    let e = bistrocode_usage_estimate(&logs, &models, "0.2", 7, 9000).expect("in range");
    assert_eq!(e.official_cost_usd, "0.750000");
    assert_eq!(e.bistrocode_cost_usd, "0.001116");
    assert_eq!(e.estimated_savings_usd, "0.748884");
    assert_eq!(e.bistrocode_quota_used, 558);
    assert_eq!(e.priced_requests, 1);
    assert_eq!(e.unpriced_requests, 2);
    assert_eq!(e.total_requests, 7);
    assert_eq!(e.official_total_tokens, 9000);
    assert_eq!(e.bistrocode_total_tokens, 9000);
}

#[test]
fn savings_never_go_below_zero_and_bad_group_ratio_defaults() {
    let models = vec![model("m", 1, "0", "1", "1", None)];
    let logs = vec![UsageLogEntry {
        app_type: "opencode".to_string(),
        model: "m".to_string(),
        usage: tokens(0, 0, 0, 0),
        official_cost: Some(dec(1, 2)),
    }];
    let e = bistrocode_usage_estimate(&logs, &models, "not a number", 1, 0).expect("in range");
    assert_eq!(e.bistrocode_quota_used, 100_000);
    assert_eq!(e.bistrocode_cost_usd, "0.200000");
    assert_eq!(e.official_cost_usd, "0.010000");
    assert_eq!(e.estimated_savings_usd, "0.000000");
    let empty = bistrocode_usage_estimate(&[], &models, "0.2", 0, 0).expect("in range");
    assert_eq!(empty.priced_requests + empty.unpriced_requests, 0);
    assert_eq!(empty.official_cost_usd, "0.000000");
}

#[test]
fn rejects_blank_model_pricing_fields() {
    let e = validate_model_pricing("  ", "Name", "1", "1", "1", "1").err().expect("blank id");
    assert_eq!(e.key, "usage.modelIdRequired");
    assert_eq!(e.zh, "模型 ID 不能为空");
    assert_eq!(e.en, "Model ID is required");
    let e = validate_model_pricing("m", "\t", "1", "1", "1", "1").err().expect("blank name");
    assert_eq!(e.key, "usage.displayNameRequired");
    assert_eq!(e.zh, "显示名称不能为空");
    assert_eq!(e.en, "Display name is required");
}

#[test]
fn rejects_bad_prices() {
    let e = validate_model_pricing("m", "M", "abc", "1", "1", "1").err().expect("not a number");
    assert_eq!(e.key, "usage.invalidPrice");
    assert!(e.en.starts_with("input_cost price is invalid: abc - "), "{}", e.en);
    assert!(e.zh.starts_with("input_cost 价格无效: abc - "), "{}", e.zh);
    let e = validate_model_pricing("m", "M", "1", " -2.5 ", "1", "1").err().expect("negative");
    assert_eq!(e.key, "usage.invalidPrice");
    assert_eq!(e.en, "output_cost price must be non-negative:  -2.5 ");
    assert_eq!(e.zh, "output_cost 价格必须为非负数:  -2.5 ");
    let e = validate_model_pricing("m", "M", "1", "2", "1", "x").err().expect("last field");
    assert!(e.en.starts_with("cache_creation_cost price is invalid: x - "));
}

#[test]
fn accepts_and_trims_a_valid_price() {
    let p = validate_model_pricing(" gpt-4o ", " GPT 4o ", " 2.5 ", "10", "0", "0.00").ok().expect("valid");
    assert_eq!(p.model_id, "gpt-4o");
    assert_eq!(p.display_name, "GPT 4o");
    assert_eq!(p.input_cost_per_million, "2.5");
    assert_eq!(p.output_cost_per_million, "10");
    assert_eq!(p.cache_read_cost_per_million, "0");
    assert_eq!(p.cache_creation_cost_per_million, "0.00");
}

#[test]
fn rounds_request_quota_half_to_even_and_never_below_zero() {
    let half_down = model("a", 1, "0", "0.000025", "1", None);
    assert_eq!(estimate_bistrocode_quota("opencode", &tokens(0, 0, 0, 0), &half_down, dec(1, 0)), Some(12));
    let half_up = model("b", 1, "0", "0.000035", "1", None);
    assert_eq!(estimate_bistrocode_quota("opencode", &tokens(0, 0, 0, 0), &half_up, dec(1, 0)), Some(18));
    let negative = model("c", 1, "0", "-1", "1", None);
    assert_eq!(estimate_bistrocode_quota("opencode", &tokens(0, 0, 0, 0), &negative, dec(1, 0)), Some(0));
    let tokens_half = model("d", 0, "0.5", "0", "1", None);
    assert_eq!(estimate_bistrocode_quota("opencode", &tokens(5, 0, 0, 0), &tokens_half, dec(1, 0)), Some(2));
}

#[test]
fn estimate_refuses_sums_too_long_to_write() {
    let models = vec![model("m", 1, "0", "0", "1", None)];
    let entry = |cost: Dec| UsageLogEntry {
        app_type: "opencode".to_string(),
        model: "other".to_string(),
        usage: tokens(0, 0, 0, 0),
        official_cost: Some(cost),
    };
    let widest = 10i128.pow(25) - 1;
    let e = bistrocode_usage_estimate(&[entry(dec(widest, 0))], &models, "0.2", 1, 0).expect("fits");
    assert_eq!(e.official_cost_usd, "9999999999999999999999999.000000");
    assert_eq!(e.estimated_savings_usd, "9999999999999999999999999.000000");
    assert!(bistrocode_usage_estimate(&[entry(dec(10i128.pow(25), 0))], &models, "0.2", 1, 0).is_none());
    let e = bistrocode_usage_estimate(&[entry(dec(-1234567891, 9))], &models, "0.2", 1, 0).expect("fits");
    assert_eq!(e.official_cost_usd, "-1.234567");
    assert_eq!(e.estimated_savings_usd, "0.000000");
}
