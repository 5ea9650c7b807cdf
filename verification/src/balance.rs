//! Balance queries against model providers: which provider a base URL
//! belongs to, the URLs and headers of the queries, how an HTTP status is
//! answered, and how a New API usage reply is read.
use vstd::prelude::*;
use crate::json::{Json, JsonV};
use crate::text::{
    chars_of, concat, contains, str_contains, string_from_chars, strip_suffix, strip_suffix_chars,
    to_lowercase, trim, trim_char, trim_chars, trim_end_char, trim_end_char_chars, unicode_lowercase,
};

verus! {

// ---------------------------------------------------------------------------
// Provider detection
// ---------------------------------------------------------------------------
/// The providers whose balance can be queried.
#[derive(Debug, Clone, Copy, PartialEq, Eq, Structural)]
pub enum BalanceProvider {
    NewApi,
    DeepSeek,
    StepFun,
    SiliconFlow,
    SiliconFlowEn,
    OpenRouter,
    NovitaAI,
}

/// The provider of a base URL, by the host names that occur in its lower-case
/// form; New API sites are recognised first.
pub open spec fn provider_of(base_url: Seq<char>) -> Option<BalanceProvider> {
    let url = unicode_lowercase(base_url);
    if contains(url, "bistrocode.online"@) || contains(url, "new-api"@) || contains(url, "newapi"@) {
        Some(BalanceProvider::NewApi)
    } else if contains(url, "api.deepseek.com"@) {
        Some(BalanceProvider::DeepSeek)
    } else if contains(url, "api.stepfun.ai"@) || contains(url, "api.stepfun.com"@) {
        Some(BalanceProvider::StepFun)
    } else if contains(url, "api.siliconflow.cn"@) {
        Some(BalanceProvider::SiliconFlow)
    } else if contains(url, "api.siliconflow.com"@) {
        Some(BalanceProvider::SiliconFlowEn)
    } else if contains(url, "openrouter.ai"@) {
        Some(BalanceProvider::OpenRouter)
    } else if contains(url, "api.novita.ai"@) {
        Some(BalanceProvider::NovitaAI)
    } else {
        None
    }
}

/// The provider whose balance API serves `base_url`.
pub fn detect_provider(base_url: &str) -> (r: Option<BalanceProvider>)
    ensures
        r == provider_of(base_url@),
{
    let url = to_lowercase(base_url);
    let u = url.as_str();
    if str_contains(u, "bistrocode.online") || str_contains(u, "new-api") || str_contains(u, "newapi") {
        Some(BalanceProvider::NewApi)
    } else if str_contains(u, "api.deepseek.com") {
        Some(BalanceProvider::DeepSeek)
    } else if str_contains(u, "api.stepfun.ai") || str_contains(u, "api.stepfun.com") {
        Some(BalanceProvider::StepFun)
    } else if str_contains(u, "api.siliconflow.cn") {
        Some(BalanceProvider::SiliconFlow)
    } else if str_contains(u, "api.siliconflow.com") {
        Some(BalanceProvider::SiliconFlowEn)
    } else if str_contains(u, "openrouter.ai") {
        Some(BalanceProvider::OpenRouter)
    } else if str_contains(u, "api.novita.ai") {
        Some(BalanceProvider::NovitaAI)
    } else {
        None
    }
}

// ---------------------------------------------------------------------------
// Base URLs
// ---------------------------------------------------------------------------
/// A base URL without surrounding white space and trailing slashes.
pub open spec fn normalized_base_url(base_url: Seq<char>) -> Seq<char> {
    trim_end_char(trim(base_url), '/')
}

/// The site of a New API base URL: the normalized URL without the first of the
/// OpenAI-compatible path suffixes that it ends with, and without the slashes
/// before it.
pub open spec fn new_api_site_url(base_url: Seq<char>) -> Seq<char> {
    let b = normalized_base_url(base_url);
    match strip_suffix(b, "/compatible-mode/v1"@) {
        Some(s) => trim_end_char(s, '/'),
        None => match strip_suffix(b, "/openai/v1"@) {
            Some(s) => trim_end_char(s, '/'),
            None => match strip_suffix(b, "/api/v1"@) {
                Some(s) => trim_end_char(s, '/'),
                None => match strip_suffix(b, "/v1"@) {
                    Some(s) => trim_end_char(s, '/'),
                    None => b,
                },
            },
        },
    }
}

proof fn lemma_trim_end_char_last(s: Seq<char>, c: char)
    ensures
        trim_end_char(s, c).len() > 0 ==> trim_end_char(s, c).last() != c,
    decreases s.len(),
{
    if s.len() > 0 && s.last() == c {
        lemma_trim_end_char_last(s.drop_last(), c);
    }
}

/// A normalized base URL, and the site of a New API base URL, never end
/// with a slash.
pub proof fn law_no_trailing_slash(base_url: Seq<char>)
    ensures
        normalized_base_url(base_url).len() > 0 ==> normalized_base_url(base_url).last() != '/',
        new_api_site_url(base_url).len() > 0 ==> new_api_site_url(base_url).last() != '/',
{
    let b = normalized_base_url(base_url);
    lemma_trim_end_char_last(trim(base_url), '/');
    match strip_suffix(b, "/compatible-mode/v1"@) {
        Some(x) => lemma_trim_end_char_last(x, '/'),
        None => match strip_suffix(b, "/openai/v1"@) {
            Some(x) => lemma_trim_end_char_last(x, '/'),
            None => match strip_suffix(b, "/api/v1"@) {
                Some(x) => lemma_trim_end_char_last(x, '/'),
                None => match strip_suffix(b, "/v1"@) {
                    Some(x) => lemma_trim_end_char_last(x, '/'),
                    None => {},
                },
            },
        },
    }
}

/// A base URL without surrounding white space and trailing slashes.
pub fn normalize_base_url(base_url: &str) -> (r: String)
    ensures
        r@ == normalized_base_url(base_url@),
{
    let cs = chars_of(base_url);
    let t = trim_chars(&cs);
    let u = trim_end_char_chars(&t, '/');
    string_from_chars(u.as_slice())
}

/// The site URL of a New API deployment, from the base URL that clients use.
pub fn normalize_new_api_site_url(base_url: &str) -> (r: String)
    ensures
        r@ == new_api_site_url(base_url@),
{
    let b = normalize_base_url(base_url);
    let bc = chars_of(b.as_str());
    let s1 = chars_of("/compatible-mode/v1");
    if let Some(st) = strip_suffix_chars(&bc, &s1) {
        let u = trim_end_char_chars(&st, '/');
        return string_from_chars(u.as_slice());
    }
    let s2 = chars_of("/openai/v1");
    if let Some(st) = strip_suffix_chars(&bc, &s2) {
        let u = trim_end_char_chars(&st, '/');
        return string_from_chars(u.as_slice());
    }
    let s3 = chars_of("/api/v1");
    if let Some(st) = strip_suffix_chars(&bc, &s3) {
        let u = trim_end_char_chars(&st, '/');
        return string_from_chars(u.as_slice());
    }
    let s4 = chars_of("/v1");
    if let Some(st) = strip_suffix_chars(&bc, &s4) {
        let u = trim_end_char_chars(&st, '/');
        return string_from_chars(u.as_slice());
    }
    b
}

/// The usage endpoint of a New API site, `None` where the base URL is empty.
pub open spec fn new_api_usage_url(base_url: Seq<char>) -> Option<Seq<char>> {
    let site = new_api_site_url(base_url);
    if site.len() == 0 {
        None
    } else {
        Some(site + "/api/usage/token/"@)
    }
}

/// The URL of the New API token usage query; `None` where the base URL is
/// empty once normalized.
pub fn new_api_usage_endpoint(base_url: &str) -> (r: Option<String>)
    ensures
        match r {
            Some(u) => new_api_usage_url(base_url@) == Some(u@),
            None => new_api_usage_url(base_url@) is None,
        },
{
    let site = normalize_new_api_site_url(base_url);
    if site.as_str().is_empty() {
        None
    } else {
        Some(concat(site.as_str(), "/api/usage/token/"))
    }
}

/// The `Authorization` header value for an API key.
pub fn bearer_header(api_key: &str) -> (r: String)
    ensures
        r@ == "Bearer "@ + api_key@,
{
    concat("Bearer ", api_key)
}

// ---------------------------------------------------------------------------
// Usage results
// ---------------------------------------------------------------------------
/// An amount of money or credit, held as the bit pattern of the `f64` that
/// the client shows.
#[derive(Debug, Clone, Copy, PartialEq, Eq, Structural)]
pub struct Amount {
    pub bits: u64,
}

/// One line of a balance or usage report.
pub struct UsageData {
    pub plan_name: Option<String>,
    pub remaining: Option<Amount>,
    pub total: Option<Amount>,
    pub used: Option<Amount>,
    pub unit: Option<String>,
    pub is_valid: Option<bool>,
    pub invalid_message: Option<String>,
    pub extra: Option<String>,
}

/// The answer to a balance query.
pub struct UsageResult {
    pub success: bool,
    pub data: Option<Vec<UsageData>>,
    pub error: Option<String>,
}

/// A failed query with the message `msg` and no data.
pub open spec fn is_error_result(r: UsageResult, msg: Seq<char>) -> bool {
    &&& !r.success
    &&& r.data is None
    &&& r.error matches Some(e) && e@ == msg
}

/// A failed query carrying the message `msg`.
pub fn make_error(msg: String) -> (r: UsageResult)
    ensures
        is_error_result(r, msg@),
{
    UsageResult { success: false, data: None, error: Some(msg) }
}

/// What `StatusCode`'s `Display` writes for a status code: the number, a
/// space and the canonical reason phrase (`<unknown status code>` where the
/// code has none).
pub uninterp spec fn status_line(code: u16) -> Seq<char>;

/// `reqwest::StatusCode::from_u16` followed by `to_string`. `from_u16` accepts
/// the codes 100 to 999, which `requires` asks for.
#[verifier::external_body]
pub(crate) fn status_text(code: u16) -> (r: String)
    requires
        100 <= code <= 999,
    ensures
        r@ == status_line(code),
{
    reqwest::StatusCode::from_u16(code).map(|s| s.to_string()).unwrap_or_default()
}

/// `Authentication failed (HTTP {status})`.
pub open spec fn auth_failure_message(code: u16) -> Seq<char> {
    "Authentication failed (HTTP "@ + status_line(code) + ")"@
}

/// The answer to a query that the provider refused for its credentials: a
/// failure whose one line marks the key invalid.
pub open spec fn is_auth_error_result(r: UsageResult, code: u16) -> bool {
    &&& !r.success
    &&& r.error matches Some(e) && e@ == auth_failure_message(code)
    &&& r.data matches Some(d) && d@.len() == 1 && {
        let line = d@[0];
        &&& line.plan_name is None
        &&& line.remaining is None
        &&& line.total is None
        &&& line.used is None
        &&& line.unit is None
        &&& line.is_valid == Some(false)
        &&& line.invalid_message matches Some(m) && m@ == auth_failure_message(code)
        &&& line.extra is None
    }
}

/// The answer to a query refused with the HTTP status `code`.
pub fn make_auth_error(code: u16) -> (r: UsageResult)
    requires
        100 <= code <= 999,
    ensures
        is_auth_error_result(r, code),
{
    let status = status_text(code);
    let a = concat("Authentication failed (HTTP ", status.as_str());
    let msg = concat(a.as_str(), ")");
    let msg2 = msg.clone();
    let mut data: Vec<UsageData> = Vec::new();
    data.push(
        UsageData {
            plan_name: None,
            remaining: None,
            total: None,
            used: None,
            unit: None,
            is_valid: Some(false),
            invalid_message: Some(msg),
            extra: None,
        },
    );
    UsageResult { success: false, data: Some(data), error: Some(msg2) }
}

/// `API error (HTTP {status}): {body}`.
pub open spec fn api_error_message(code: u16, body: Seq<char>) -> Seq<char> {
    "API error (HTTP "@ + status_line(code) + "): "@ + body
}

/// How a balance query answers an HTTP status before reading the body:
/// 401 and 403 are credential failures, other statuses outside 200 to 299 are
/// errors carrying the body, and a success lets the body be read (`None`).
pub open spec fn status_answer_ok(code: u16, body: Seq<char>, r: Option<UsageResult>) -> bool {
    if code == 401 || code == 403 {
        r matches Some(x) && is_auth_error_result(x, code)
    } else if !(200 <= code < 300) {
        r matches Some(x) && is_error_result(x, api_error_message(code, body))
    } else {
        r is None
    }
}

/// The answer that a balance query gives for an HTTP status, where it stops
/// there.
pub fn answer_http_status(code: u16, body: &str) -> (r: Option<UsageResult>)
    requires
        100 <= code <= 999,
    ensures
        status_answer_ok(code, body@, r),
{
    if code == 401 || code == 403 {
        return Some(make_auth_error(code));
    }
    if !(200 <= code && code < 300) {
        let status = status_text(code);
        let a = concat("API error (HTTP ", status.as_str());
        let b = concat(a.as_str(), "): ");
        let msg = concat(b.as_str(), body);
        return Some(make_error(msg));
    }
    None
}

/// What `get_balance` answers before any query: an empty key, or a base URL
/// of no known provider; otherwise the provider to query.
pub open spec fn balance_precheck_ok(base_url: Seq<char>, api_key: Seq<char>, r: Result<BalanceProvider, UsageResult>) -> bool {
    if trim(api_key).len() == 0 {
        r matches Err(e) && is_error_result(e, "API key is empty"@)
    } else {
        match provider_of(base_url) {
            Some(p) => r == Ok::<BalanceProvider, UsageResult>(p),
            None => r matches Err(e) && is_error_result(e, "Unknown balance provider"@),
        }
    }
}

/// The provider to query for a balance, or the answer given without a query.
pub fn balance_precheck(base_url: &str, api_key: &str) -> (r: Result<BalanceProvider, UsageResult>)
    ensures
        balance_precheck_ok(base_url@, api_key@, r),
{
    let k = chars_of(api_key);
    let t = trim_chars(&k);
    if t.len() == 0 {
        return Err(make_error("API key is empty".to_owned()));
    }
    match detect_provider(base_url) {
        Some(p) => Ok(p),
        None => Err(make_error("Unknown balance provider".to_owned())),
    }
}


// ---------------------------------------------------------------------------
// New API usage replies
// ---------------------------------------------------------------------------
/// The value of a run of ASCII decimal digits.
pub open spec fn digits_value(s: Seq<char>) -> int
    decreases s.len(),
{
    if s.len() == 0 {
        0
    } else {
        digits_value(s.drop_last()) * 10 + (s.last() as int - '0' as int)
    }
}

/// What `str::parse::<i64>` reads from a text: an optional `+` or `-` sign
/// followed by one or more ASCII digits, whose value fits in `i64`; `None`
/// for any other text.
pub open spec fn parsed_i64(text: Seq<char>) -> Option<i64> {
    let signed = text.len() > 0 && (text[0] == '-' || text[0] == '+');
    let digits = if signed {
        text.drop_first()
    } else {
        text
    };
    let v = if text.len() > 0 && text[0] == '-' {
        -digits_value(digits)
    } else {
        digits_value(digits)
    };
    if digits.len() > 0 && (forall|i: int| 0 <= i < digits.len() ==> '0' <= #[trigger] digits[i] <= '9')
        && i64::MIN <= v <= i64::MAX {
        Some(v as i64)
    } else {
        None
    }
}

/// `str::parse::<i64>`, which std documents as reading an optional sign and
/// decimal digits, and failing on any other character or on overflow.
#[verifier::external_body]
pub(crate) fn parse_i64_text(text: &str) -> (r: Option<i64>)
    ensures
        r == parsed_i64(text@),
{
    text.parse::<i64>().ok()
}

/// What chrono writes for a UNIX timestamp with `DateTime::from_timestamp(ts, 0)`
/// and `format("%Y-%m-%d")`: the UTC date, `None` where the timestamp is out of
/// chrono's range.
pub uninterp spec fn utc_date(ts: i64) -> Option<Seq<char>>;

/// `chrono::DateTime::from_timestamp(ts, 0)` formatted as `%Y-%m-%d`; its
/// result is named `utc_date`.
#[verifier::external_body]
fn utc_date_text(ts: i64) -> (r: Option<String>)
    ensures
        match r {
            Some(d) => utc_date(ts) == Some(d@),
            None => utc_date(ts) is None,
        },
{
    chrono::DateTime::from_timestamp(ts, 0).map(|dt| dt.format("%Y-%m-%d").to_string())
}

/// The parts of a New API usage reply that do not involve amounts. The amount
/// fields are handed on as they stand in the reply.
pub struct NewApiUsage {
    pub plan_name: String,
    pub unlimited: bool,
    pub extra: Option<String>,
    pub total_available: Option<Json>,
    pub total_used: Option<Json>,
    pub total_granted: Option<Json>,
}

/// Whether a New API reply reports success: its boolean `code`, else its
/// boolean `success`, else yes.
pub open spec fn new_api_success(body: JsonV) -> bool {
    match body.get("code"@) {
        Some(c) if c.as_bool() is Some => c.as_bool().unwrap(),
        _ => match body.get("success"@) {
            Some(s) if s.as_bool() is Some => s.as_bool().unwrap(),
            _ => true,
        },
    }
}

/// The expiry timestamp of a New API reply: an integer, or a text that reads
/// as one.
pub open spec fn new_api_expiry(data: JsonV) -> Option<i64> {
    match data.get("expires_at"@) {
        Some(v) => match v.as_i64() {
            Some(t) => Some(t),
            None => match v.as_str() {
                Some(s) => parsed_i64(s),
                None => None,
            },
        },
        None => None,
    }
}

/// `Expires {date}` for a positive expiry timestamp that chrono can date.
pub open spec fn new_api_extra(data: JsonV) -> Option<Seq<char>> {
    match new_api_expiry(data) {
        Some(ts) => if ts > 0 {
            match utc_date(ts) {
                Some(d) => Some("Expires "@ + d),
                None => None,
            }
        } else {
            None
        },
        None => None,
    }
}

/// The plan name of a New API reply: its `name` where that is not blank,
/// `BistroCode` otherwise.
pub open spec fn new_api_plan_name(data: JsonV) -> Seq<char> {
    match data.get_str("name"@) {
        Some(n) => if trim(n).len() > 0 {
            n
        } else {
            "BistroCode"@
        },
        None => "BistroCode"@,
    }
}

/// The reading of a New API usage reply: the failure message where it reports
/// failure, else the plan name, whether the quota is unlimited, the expiry note
/// and the amount fields of its `data` (of the reply itself where it has no
/// `data`).
pub open spec fn new_api_reading_ok(body: JsonV, r: Result<NewApiUsage, UsageResult>) -> bool {
    if !new_api_success(body) {
        r matches Err(e) && is_error_result(e, body.str_or("message"@, "New API usage query failed"@))
    } else {
        let data = or_else_json(body.get("data"@), body);
        r matches Ok(u) && {
            &&& u.plan_name@ == new_api_plan_name(data)
            &&& u.unlimited == match data.get("unlimited_quota"@) {
                Some(v) => v.as_bool() == Some(true),
                None => false,
            }
            &&& match u.extra {
                Some(x) => new_api_extra(data) == Some(x@),
                None => new_api_extra(data) is None,
            }
            &&& opt_json_view(u.total_available) == data.get("total_available"@)
            &&& opt_json_view(u.total_used) == data.get("total_used"@)
            &&& opt_json_view(u.total_granted) == data.get("total_granted"@)
        }
    }
}

/// `Option::unwrap_or` on JSON values.
pub open spec fn or_else_json(o: Option<JsonV>, d: JsonV) -> JsonV {
    match o {
        Some(v) => v,
        None => d,
    }
}

/// The view of an optional JSON value.
pub open spec fn opt_json_view(o: Option<Json>) -> Option<JsonV> {
    match o {
        Some(v) => Some(v@),
        None => None,
    }
}

fn clone_member(v: &Json, key: &str) -> (r: Option<Json>)
    ensures
        opt_json_view(r) == v@.get(key@),
{
    match v.get(key) {
        Some(x) => Some(x.deep_clone()),
        None => None,
    }
}

/// Reads a New API usage reply.
pub fn new_api_usage_from_value(body: &Json) -> (r: Result<NewApiUsage, UsageResult>)
    ensures
        new_api_reading_ok(body@, r),
{
    let success = match body.get("code") {
        Some(c) => match c.as_bool() {
            Some(b) => b,
            None => match body.get("success") {
                Some(s) => match s.as_bool() {
                    Some(b) => b,
                    None => true,
                },
                None => true,
            },
        },
        None => match body.get("success") {
            Some(s) => match s.as_bool() {
                Some(b) => b,
                None => true,
            },
            None => true,
        },
    };
    if !success {
        let message = body.str_or("message", "New API usage query failed");
        return Err(make_error(message.to_owned()));
    }
    let data = match body.get("data") {
        Some(d) => d,
        None => body,
    };
    let unlimited = match data.get("unlimited_quota") {
        Some(v) => match v.as_bool() {
            Some(b) => b,
            None => false,
        },
        None => false,
    };
    let name = match data.get_str("name") {
        Some(n) => {
            let t = crate::text::trim_str(n);
            if t.as_str().is_empty() {
                "BistroCode"
            } else {
                n
            }
        },
        None => "BistroCode",
    };
    let expires_at = match data.get("expires_at") {
        Some(v) => match v.as_i64() {
            Some(t) => Some(t),
            None => match v.as_str() {
                Some(s) => parse_i64_text(s),
                None => None,
            },
        },
        None => None,
    };
    let extra = match expires_at {
        Some(ts) => if ts > 0 {
            match utc_date_text(ts) {
                Some(d) => Some(concat("Expires ", d.as_str())),
                None => None,
            }
        } else {
            None
        },
        None => None,
    };
    Ok(
        NewApiUsage {
            plan_name: name.to_owned(),
            unlimited,
            extra,
            total_available: clone_member(data, "total_available"),
            total_used: clone_member(data, "total_used"),
            total_granted: clone_member(data, "total_granted"),
        },
    )
}

// ---------------------------------------------------------------------------
// The queries of the other providers
// ---------------------------------------------------------------------------
/// The URL of a provider's balance query: for New API, the usage endpoint of
/// the site of `base_url`; for the others, their fixed endpoint.
pub open spec fn balance_url(p: BalanceProvider, base_url: Seq<char>) -> Option<Seq<char>> {
    match p {
        BalanceProvider::NewApi => new_api_usage_url(base_url),
        BalanceProvider::DeepSeek => Some("https://api.deepseek.com/user/balance"@),
        BalanceProvider::StepFun => Some("https://api.stepfun.com/v1/accounts"@),
        BalanceProvider::SiliconFlow => Some("https://api.siliconflow.cn/v1/user/info"@),
        BalanceProvider::SiliconFlowEn => Some("https://api.siliconflow.com/v1/user/info"@),
        BalanceProvider::OpenRouter => Some("https://openrouter.ai/api/v1/credits"@),
        BalanceProvider::NovitaAI => Some("https://api.novita.ai/v3/user/balance"@),
    }
}

/// The URL of a provider's balance query, or the answer `Base URL is empty`
/// for a New API base URL that is empty once normalized.
pub fn balance_query_url(p: BalanceProvider, base_url: &str) -> (r: Result<String, UsageResult>)
    ensures
        match balance_url(p, base_url@) {
            Some(u) => r matches Ok(s) && s@ == u,
            None => r matches Err(e) && is_error_result(e, "Base URL is empty"@),
        },
{
    match p {
        BalanceProvider::NewApi => match new_api_usage_endpoint(base_url) {
            Some(u) => Ok(u),
            None => Err(make_error("Base URL is empty".to_owned())),
        },
        BalanceProvider::DeepSeek => Ok("https://api.deepseek.com/user/balance".to_owned()),
        BalanceProvider::StepFun => Ok("https://api.stepfun.com/v1/accounts".to_owned()),
        BalanceProvider::SiliconFlow => Ok("https://api.siliconflow.cn/v1/user/info".to_owned()),
        BalanceProvider::SiliconFlowEn => Ok("https://api.siliconflow.com/v1/user/info".to_owned()),
        BalanceProvider::OpenRouter => Ok("https://openrouter.ai/api/v1/credits".to_owned()),
        BalanceProvider::NovitaAI => Ok("https://api.novita.ai/v3/user/balance".to_owned()),
    }
}

/// One balance of a DeepSeek reply: its currency and its `total_balance`
/// field as it stands in the reply.
pub struct DeepSeekBalance {
    pub currency: String,
    pub total_balance: Option<Json>,
}

/// The currency of a DeepSeek balance, `CNY` where it names none.
pub open spec fn deepseek_currency(info: JsonV) -> Seq<char> {
    info.str_or("currency"@, "CNY"@)
}

/// Whether a DeepSeek account is usable: its boolean `is_available`, else yes.
pub open spec fn deepseek_available(body: JsonV) -> bool {
    match body.get("is_available"@) {
        Some(v) => match v.as_bool() {
            Some(b) => b,
            None => true,
        },
        None => true,
    }
}

/// The balances of a DeepSeek reply: one per item of its `balance_infos`.
pub open spec fn deepseek_infos(body: JsonV) -> Seq<JsonV> {
    match body.get("balance_infos"@) {
        Some(JsonV::Array(items)) => items,
        _ => Seq::empty(),
    }
}

/// Reads a DeepSeek balance reply: whether the account is usable, and one
/// balance per item of `balance_infos`, in order.
pub fn deepseek_reading(body: &Json) -> (r: (bool, Vec<DeepSeekBalance>))
    ensures
        r.0 == deepseek_available(body@),
        r.1@.len() == deepseek_infos(body@).len(),
        forall|i: int| 0 <= i < r.1@.len() ==> {
            &&& (#[trigger] r.1@[i]).currency@ == deepseek_currency(deepseek_infos(body@)[i])
            &&& opt_json_view(r.1@[i].total_balance) == deepseek_infos(body@)[i].get("total_balance"@)
        },
{
    let available = match body.get("is_available") {
        Some(v) => match v.as_bool() {
            Some(b) => b,
            None => true,
        },
        None => true,
    };
    let mut out: Vec<DeepSeekBalance> = Vec::new();
    match body.get("balance_infos") {
        Some(Json::Array(items)) => {
            let ghost xs = crate::json::items_view(items@);
            let mut i: usize = 0;
            proof {
                crate::json::lemma_items_view(items@);
            }
            while i < items.len()
                invariant
                    i <= items@.len(),
                    xs == crate::json::items_view(items@),
                    xs.len() == items@.len(),
                    forall|k: int| 0 <= k < items@.len() ==> #[trigger] xs[k] == crate::json::json_view(items@[k]),
                    out@.len() == i,
                    forall|k: int| 0 <= k < i ==> {
                        &&& (#[trigger] out@[k]).currency@ == deepseek_currency(xs[k])
                        &&& opt_json_view(out@[k].total_balance) == xs[k].get("total_balance"@)
                    },
                decreases items@.len() - i,
            {
                let info = &items[i];
                proof {
                    assert(xs[i as int] == info@);
                }
                let currency = info.str_or("currency", "CNY").to_owned();
                let total_balance = clone_member(info, "total_balance");
                out.push(DeepSeekBalance { currency, total_balance });
                i = i + 1;
            }
        },
        _ => {},
    }
    (available, out)
}

/// Reads a SiliconFlow reply: the `totalBalance` field of its `data`, or the
/// answer `Missing 'data' field in response` where it has no `data`.
pub fn siliconflow_reading(body: &Json) -> (r: Result<Option<Json>, UsageResult>)
    ensures
        match body@.get("data"@) {
            Some(d) => r matches Ok(t) && opt_json_view(t) == d.get("totalBalance"@),
            None => r matches Err(e) && is_error_result(e, "Missing 'data' field in response"@),
        },
{
    match body.get("data") {
        Some(d) => Ok(clone_member(d, "totalBalance")),
        None => Err(make_error("Missing 'data' field in response".to_owned())),
    }
}

// ---------------------------------------------------------------------------
// Reports
// ---------------------------------------------------------------------------
/// The amount that marks an unlimited quota: the bit pattern of the `f64`
/// value `-1.0`.
pub const UNLIMITED_AMOUNT_BITS: u64 = 0xBFF0_0000_0000_0000;

/// The line that a New API reading gives, with its amounts in US dollars.
/// An unlimited quota shows `-1` as remaining and total and is valid;
/// otherwise the key is valid while credit remains.
pub open spec fn new_api_line(
    line: UsageData,
    u: NewApiUsage,
    remaining: Option<Amount>,
    total: Option<Amount>,
    used: Option<Amount>,
    remaining_positive: bool,
) -> bool {
    let unlimited_amount = Some(Amount { bits: UNLIMITED_AMOUNT_BITS });
    &&& line.plan_name matches Some(n) && n@ == u.plan_name@
    &&& line.remaining == if u.unlimited { unlimited_amount } else { remaining }
    &&& line.total == if u.unlimited { unlimited_amount } else { total }
    &&& line.used == used
    &&& line.unit matches Some(t) && t@ == "USD"@
    &&& line.is_valid == Some(u.unlimited || remaining_positive)
    &&& if !u.unlimited && !remaining_positive {
        line.invalid_message matches Some(m) && m@ == "No credits remaining"@
    } else {
        line.invalid_message is None
    }
    &&& match u.extra {
        Some(x) => line.extra matches Some(y) && y@ == x@,
        None => line.extra is None,
    }
}

/// The report of a New API reading, given its amounts in US dollars and
/// whether the remaining amount is above zero.
pub fn new_api_report(
    u: NewApiUsage,
    remaining: Option<Amount>,
    total: Option<Amount>,
    used: Option<Amount>,
    remaining_positive: bool,
) -> (r: UsageResult)
    ensures
        r.success && r.error is None,
        r.data matches Some(d) && d@.len() == 1 && new_api_line(d@[0], u, remaining, total, used, remaining_positive),
{
    let unlimited = u.unlimited;
    let minus_one = Some(Amount { bits: UNLIMITED_AMOUNT_BITS });
    let line = UsageData {
        plan_name: Some(u.plan_name),
        remaining: if unlimited { minus_one } else { remaining },
        total: if unlimited { minus_one } else { total },
        used,
        unit: Some("USD".to_owned()),
        is_valid: Some(unlimited || remaining_positive),
        invalid_message: if !unlimited && !remaining_positive {
            Some("No credits remaining".to_owned())
        } else {
            None
        },
        extra: u.extra,
    };
    let mut data: Vec<UsageData> = Vec::new();
    data.push(line);
    UsageResult { success: true, data: Some(data), error: None }
}

/// The line of one DeepSeek balance: the currency names the plan and the
/// unit, and the key is valid while the account is available.
pub open spec fn deepseek_line(line: UsageData, currency: Seq<char>, remaining: Option<Amount>, available: bool) -> bool {
    &&& line.plan_name matches Some(n) && n@ == currency
    &&& line.remaining == remaining
    &&& line.total is None
    &&& line.used is None
    &&& line.unit matches Some(t) && t@ == currency
    &&& line.is_valid == Some(available)
    &&& if available {
        line.invalid_message is None
    } else {
        line.invalid_message matches Some(m) && m@ == "Insufficient balance"@
    }
    &&& line.extra is None
}

/// The report of a DeepSeek reply: one line per balance, each given as its
/// currency and its remaining amount; no data where there is no balance.
pub fn deepseek_report(available: bool, balances: Vec<(String, Option<Amount>)>) -> (r: UsageResult)
    ensures
        r.success && r.error is None,
        balances@.len() == 0 ==> r.data is None,
        balances@.len() > 0 ==> (r.data matches Some(d) && d@.len() == balances@.len() && forall|i: int|
            0 <= i < balances@.len() ==> deepseek_line(#[trigger] d@[i], balances@[i].0@, balances@[i].1, available)),
{
    let n = balances.len();
    let mut lines: Vec<UsageData> = Vec::new();
    let mut i: usize = 0;
    while i < n
        invariant
            n == balances@.len(),
            i <= n,
            lines@.len() == i,
            forall|k: int| 0 <= k < i ==> deepseek_line(#[trigger] lines@[k], balances@[k].0@, balances@[k].1, available),
        decreases n - i,
    {
        let currency = &balances[i].0;
        let line = UsageData {
            plan_name: Some(currency.clone()),
            remaining: balances[i].1,
            total: None,
            used: None,
            unit: Some(currency.clone()),
            is_valid: Some(available),
            invalid_message: if !available {
                Some("Insufficient balance".to_owned())
            } else {
                None
            },
            extra: None,
        };
        lines.push(line);
        i = i + 1;
    }
    if n == 0 {
        UsageResult { success: true, data: None, error: None }
    } else {
        UsageResult { success: true, data: Some(lines), error: None }
    }
}

/// The plan name and unit of a provider whose reply carries one balance.
pub open spec fn plan_and_unit(p: BalanceProvider) -> (Seq<char>, Seq<char>) {
    match p {
        BalanceProvider::StepFun => ("StepFun"@, "CNY"@),
        BalanceProvider::SiliconFlow => ("SiliconFlow"@, "CNY"@),
        BalanceProvider::SiliconFlowEn => ("SiliconFlow (EN)"@, "USD"@),
        BalanceProvider::OpenRouter => ("OpenRouter"@, "USD"@),
        _ => ("Novita AI"@, "USD"@),
    }
}

/// Whether a provider's key is valid only while balance remains, and the
/// message shown when none does.
pub open spec fn empty_balance_message(p: BalanceProvider) -> Option<Seq<char>> {
    match p {
        BalanceProvider::OpenRouter => Some("No credits remaining"@),
        BalanceProvider::NovitaAI => Some("No balance remaining"@),
        _ => None,
    }
}

/// The one line of a StepFun, SiliconFlow, OpenRouter or Novita AI report.
/// StepFun and SiliconFlow keys are always valid; OpenRouter and Novita AI
/// keys are valid while the remaining amount is above zero.
pub open spec fn single_balance_line(
    line: UsageData,
    p: BalanceProvider,
    remaining: Amount,
    total: Option<Amount>,
    used: Option<Amount>,
    remaining_positive: bool,
) -> bool {
    &&& line.plan_name matches Some(n) && n@ == plan_and_unit(p).0
    &&& line.remaining == Some(remaining)
    &&& line.total == total
    &&& line.used == used
    &&& line.unit matches Some(t) && t@ == plan_and_unit(p).1
    &&& match empty_balance_message(p) {
        Some(m) => {
            &&& line.is_valid == Some(remaining_positive)
            &&& if remaining_positive {
                line.invalid_message is None
            } else {
                line.invalid_message matches Some(x) && x@ == m
            }
        },
        None => line.is_valid == Some(true) && line.invalid_message is None,
    }
    &&& line.extra is None
}

/// The report of a provider whose reply carries one balance, given that
/// balance, the total and used amounts where the provider reports them, and
/// whether the balance is above zero.
pub fn single_balance_report(
    p: BalanceProvider,
    remaining: Amount,
    total: Option<Amount>,
    used: Option<Amount>,
    remaining_positive: bool,
) -> (r: UsageResult)
    requires
        p != BalanceProvider::NewApi,
        p != BalanceProvider::DeepSeek,
    ensures
        r.success && r.error is None,
        r.data matches Some(d) && d@.len() == 1 && single_balance_line(d@[0], p, remaining, total, used, remaining_positive),
{
    let (plan, unit, message): (&str, &str, Option<&str>) = match p {
        BalanceProvider::StepFun => ("StepFun", "CNY", None),
        BalanceProvider::SiliconFlow => ("SiliconFlow", "CNY", None),
        BalanceProvider::SiliconFlowEn => ("SiliconFlow (EN)", "USD", None),
        BalanceProvider::OpenRouter => ("OpenRouter", "USD", Some("No credits remaining")),
        _ => ("Novita AI", "USD", Some("No balance remaining")),
    };
    let (is_valid, invalid_message) = match message {
        Some(m) => (remaining_positive, if remaining_positive { None } else { Some(m.to_owned()) }),
        None => (true, None),
    };
    let line = UsageData {
        plan_name: Some(plan.to_owned()),
        remaining: Some(remaining),
        total,
        used,
        unit: Some(unit.to_owned()),
        is_valid: Some(is_valid),
        invalid_message,
        extra: None,
    };
    let mut data: Vec<UsageData> = Vec::new();
    data.push(line);
    UsageResult { success: true, data: Some(data), error: None }
}

} // verus!
