//! BistroCode desktop sign-in and account services: the records exchanged
//! with the service, the authorization header, and how replies are judged.
use vstd::prelude::*;
use crate::balance::{status_line, status_text};
use crate::json::{Json, JsonV};
use crate::text::{
    chars_of, concat, has_prefix, starts_with_chars, str_eq, to_lowercase, trim, trim_str,
    unicode_lowercase,
};

verus! {

/// The sign-in code and state handed back to the desktop client.
pub struct BistroCodeAuthSessionRequest {
    pub code: String,
    pub state: String,
}

/// Whether a sign-in session was accepted.
pub struct BistroCodeAuthSessionResponse {
    pub success: bool,
    pub message: Option<String>,
}

/// The reply to an authorization code exchange.
pub struct BistroCodeAuthExchangeResponse {
    pub success: bool,
    pub message: Option<String>,
    pub data: Option<BistroCodeAuthUser>,
}

/// The signed-in user.
pub struct BistroCodeAuthUser {
    pub id: i64,
    pub username: String,
    pub display_name: Option<String>,
    pub email: Option<String>,
    pub group: Option<String>,
    pub quota: i64,
    pub used_quota: i64,
    pub request_count: i64,
    pub access_token: String,
}

/// One row of the cloud usage dashboard.
pub struct BistroCodeQuotaDataItem {
    pub id: Option<i64>,
    pub user_id: Option<i64>,
    pub username: Option<String>,
    pub model_name: Option<String>,
    pub created_at: i64,
    pub token_used: Option<i64>,
    pub count: Option<i64>,
    pub quota: Option<i64>,
}

/// The reply of the cloud usage dashboard.
pub struct BistroCodeQuotaDataResponse {
    pub success: bool,
    pub message: Option<String>,
    pub data: Option<Vec<BistroCodeQuotaDataItem>>,
}

/// An API key that the service created for the desktop client.
pub struct BistroCodeDesktopTokenConfig {
    pub id: i64,
    pub name: String,
    pub key: String,
    pub group: String,
    pub purpose: String,
    pub model_match: String,
    pub base_url: String,
    pub created_time: i64,
}

/// The keys and groups of the desktop client.
pub struct BistroCodeDesktopTokensData {
    pub configs: Vec<BistroCodeDesktopTokenConfig>,
    pub groups: Option<Json>,
}

/// The reply to a request for the desktop client's default keys.
pub struct BistroCodeDesktopTokensResponse {
    pub success: bool,
    pub message: Option<String>,
    pub data: Option<BistroCodeDesktopTokensData>,
}

/// The service that the desktop client signs in to.
pub const BISTROCODE_AUTH_BASE_URL: &'static str = "https://bistrocode.online";

// ---------------------------------------------------------------------------
// Headers and parameters
// ---------------------------------------------------------------------------
/// The `Authorization` value for a token: the token itself where it already
/// starts with `bearer ` in any case, `Bearer {token}` otherwise.
pub open spec fn authorization_value(token: Seq<char>) -> Seq<char> {
    if has_prefix(unicode_lowercase(token), "bearer "@) {
        token
    } else {
        "Bearer "@ + token
    }
}

/// The `Authorization` header value for a BistroCode access token.
pub fn bistrocode_authorization_header(token: &str) -> (r: String)
    ensures
        r@ == authorization_value(token@),
{
    let lower = to_lowercase(token);
    let lc = chars_of(lower.as_str());
    let prefix = chars_of("bearer ");
    if starts_with_chars(&lc, &prefix) {
        token.to_owned()
    } else {
        concat("Bearer ", token)
    }
}

/// The decimal digit character for `d < 10`.
pub open spec fn digit_char(d: nat) -> char {
    ((d + 48) as u8) as char
}

/// The decimal text of a natural number.
pub open spec fn nat_text(n: nat) -> Seq<char>
    decreases n,
{
    if n < 10 {
        seq![digit_char(n)]
    } else {
        nat_text(n / 10).push(digit_char(n % 10))
    }
}

/// The decimal text of an integer, as `Display` writes it.
pub open spec fn int_text(i: int) -> Seq<char> {
    if i < 0 {
        seq!['-'] + nat_text((-i) as nat)
    } else {
        nat_text(i as nat)
    }
}

fn push_nat_text(out: &mut Vec<char>, n: u64)
    ensures
        final(out)@ == old(out)@ + nat_text(n as nat),
    decreases n,
{
    if n >= 10 {
        push_nat_text(out, n / 10);
    }
    let d = (n % 10) as u8;
    let c = (d + 48) as char;
    let ghost before = out@;
    out.push(c);
    proof {
        if n >= 10 {
            assert(out@ =~= old(out)@ + nat_text(n as nat));
        } else {
            assert(out@ =~= old(out)@ + nat_text(n as nat));
        }
    }
}

/// The decimal text of an unsigned integer.
pub fn u64_to_text(n: u64) -> (r: String)
    ensures
        r@ == nat_text(n as nat),
{
    let mut out: Vec<char> = Vec::new();
    push_nat_text(&mut out, n);
    proof {
        assert(out@ =~= nat_text(n as nat));
    }
    crate::text::string_from_chars(out.as_slice())
}

/// The decimal text of an integer.
pub fn i64_to_text(i: i64) -> (r: String)
    ensures
        r@ == int_text(i as int),
{
    let mut out: Vec<char> = Vec::new();
    let w = i as i128;
    let mag: u64 = if w < 0 {
        out.push('-');
        (-w) as u64
    } else {
        w as u64
    };
    push_nat_text(&mut out, mag);
    proof {
        if i < 0 {
            assert(out@ =~= seq!['-'] + nat_text((-i) as nat));
        } else {
            assert(out@ =~= nat_text(i as nat));
        }
    }
    crate::text::string_from_chars(out.as_slice())
}

/// The query of the cloud usage dashboard for a time range.
pub fn dashboard_query(start_timestamp: i64, end_timestamp: i64) -> (r: Vec<(String, String)>)
    ensures
        r@.len() == 3,
        r@[0].0@ == "start_timestamp"@ && r@[0].1@ == int_text(start_timestamp as int),
        r@[1].0@ == "end_timestamp"@ && r@[1].1@ == int_text(end_timestamp as int),
        r@[2].0@ == "default_time"@ && r@[2].1@ == "hour"@,
{
    let mut q: Vec<(String, String)> = Vec::new();
    q.push(("start_timestamp".to_owned(), i64_to_text(start_timestamp)));
    q.push(("end_timestamp".to_owned(), i64_to_text(end_timestamp)));
    q.push(("default_time".to_owned(), "hour".to_owned()));
    q
}

/// The access token and user id of a connected account, trimmed; an error
/// where either is blank.
pub open spec fn connected_ok(access_token: Seq<char>, user_id: Seq<char>, r: Result<(String, String), String>) -> bool {
    if trim(access_token).len() == 0 || trim(user_id).len() == 0 {
        r matches Err(e) && e@ == "BistroCode account is not connected"@
    } else {
        r matches Ok(p) && p.0@ == trim(access_token) && p.1@ == trim(user_id)
    }
}

/// The trimmed credentials of a connected BistroCode account.
pub fn connected_account(access_token: &str, user_id: &str) -> (r: Result<(String, String), String>)
    ensures
        connected_ok(access_token@, user_id@, r),
{
    let token = trim_str(access_token);
    let user = trim_str(user_id);
    if token.as_str().is_empty() || user.as_str().is_empty() {
        return Err("BistroCode account is not connected".to_owned());
    }
    Ok((token, user))
}

// ---------------------------------------------------------------------------
// Judging replies
// ---------------------------------------------------------------------------
/// The message of a failed exchange: the reply's `message` where it is JSON
/// with a non-blank message, the reply text otherwise.
pub open spec fn exchange_failure_detail(body: Seq<char>) -> Seq<char> {
    match crate::json::json_parse(body) {
        Some(v) => match v.get_str("message"@) {
            Some(m) => if trim(m).len() > 0 {
                m
            } else {
                body
            },
            None => body,
        },
        None => body,
    }
}

/// `Failed to exchange BistroCode auth code (HTTP {status}): {detail}`.
pub open spec fn exchange_failure_text(code: u16, body: Seq<char>) -> Seq<char> {
    "Failed to exchange BistroCode auth code"@ + " (HTTP "@ + status_line(code) + "): "@ + exchange_failure_detail(body)
}

/// `{head} (HTTP {status}): {detail}`.
pub(crate) fn http_failure(head: &str, code: u16, detail: &str) -> (r: String)
    requires
        100 <= code <= 999,
    ensures
        r@ == head@ + " (HTTP "@ + status_line(code) + "): "@ + detail@,
{
    let status = status_text(code);
    let a = concat(head, " (HTTP ");
    let b = concat(a.as_str(), status.as_str());
    let c = concat(b.as_str(), "): ");
    concat(c.as_str(), detail)
}

/// The error of an exchange that the service answered with a failure status.
pub fn exchange_failure_message(code: u16, body: &str) -> (r: String)
    requires
        100 <= code <= 999,
    ensures
        r@ == exchange_failure_text(code, body@),
{
    let detail: String = match crate::json::parse_json_text(body) {
        Some(v) => match v.get_str("message") {
            Some(m) => {
                let t = trim_str(m);
                if t.as_str().is_empty() {
                    body.to_owned()
                } else {
                    m.to_owned()
                }
            },
            None => body.to_owned(),
        },
        None => body.to_owned(),
    };
    http_failure("Failed to exchange BistroCode auth code", code, detail.as_str())
}

/// The outcome of an exchange reply: itself where it reports success, its
/// message (or a default) otherwise.
pub fn exchange_outcome(result: BistroCodeAuthExchangeResponse) -> (r: Result<BistroCodeAuthExchangeResponse, String>)
    ensures
        result.success ==> r == Ok::<BistroCodeAuthExchangeResponse, String>(result),
        !result.success ==> (r matches Err(e) && e@ == match result.message {
            Some(m) => m@,
            None => "BistroCode authorization failed"@,
        }),
{
    if !result.success {
        return Err(
            match result.message {
                Some(m) => m,
                None => "BistroCode authorization failed".to_owned(),
            },
        );
    }
    Ok(result)
}

/// The error of a dashboard query that failed with an HTTP status.
pub fn dashboard_failure_message(code: u16, body: &str) -> (r: String)
    requires
        100 <= code <= 999,
    ensures
        r@ == "查询 BistroCode 云端看板失败"@ + " (HTTP "@ + status_line(code) + "): "@ + body@,
{
    http_failure("查询 BistroCode 云端看板失败", code, body)
}

/// The rows of a dashboard reply, or its error.
pub fn dashboard_outcome(result: BistroCodeQuotaDataResponse) -> (r: Result<Vec<BistroCodeQuotaDataItem>, String>)
    ensures
        result.success ==> (r matches Ok(items) && items@ == match result.data {
            Some(d) => d@,
            None => Seq::empty(),
        }),
        !result.success ==> (r matches Err(e) && e@ == match result.message {
            Some(m) => m@,
            None => "BistroCode 云端看板返回失败"@,
        }),
{
    if !result.success {
        return Err(
            match result.message {
                Some(m) => m,
                None => "BistroCode 云端看板返回失败".to_owned(),
            },
        );
    }
    match result.data {
        Some(d) => Ok(d),
        None => Ok(Vec::new()),
    }
}

/// The error of a default-key request that failed with an HTTP status.
pub fn default_tokens_failure_message(code: u16, body: &str) -> (r: String)
    requires
        100 <= code <= 999,
    ensures
        r@ == "创建 BistroCode 默认 API Key 失败"@ + " (HTTP "@ + status_line(code) + "): "@ + body@,
{
    http_failure("创建 BistroCode 默认 API Key 失败", code, body)
}

/// The keys of a default-key reply, or its error.
pub fn default_tokens_outcome(result: BistroCodeDesktopTokensResponse) -> (r: Result<Vec<BistroCodeDesktopTokenConfig>, String>)
    ensures
        result.success ==> (r matches Ok(items) && items@ == match result.data {
            Some(d) => d.configs@,
            None => Seq::empty(),
        }),
        !result.success ==> (r matches Err(e) && e@ == match result.message {
            Some(m) => m@,
            None => "BistroCode 默认 API Key 返回失败"@,
        }),
{
    if !result.success {
        return Err(
            match result.message {
                Some(m) => m,
                None => "BistroCode 默认 API Key 返回失败".to_owned(),
            },
        );
    }
    match result.data {
        Some(d) => Ok(d.configs),
        None => Ok(Vec::new()),
    }
}

} // verus!
