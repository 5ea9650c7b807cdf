//! The BistroCode account and pricing services: the request headers, and how
//! their JSON replies are read.
use vstd::prelude::*;
use crate::auth::{authorization_value, bistrocode_authorization_header, http_failure, i64_to_text, int_text, nat_text, u64_to_text};
use crate::balance::{parse_i64_text, parsed_i64, status_line};
use crate::json::{group_json_view, items_view, json_view, lemma_items_view, lemma_entries_view, json_parse, parse_json_text, entries_view, Json, JsonNumber, JsonV, NumV};
use crate::text::{trim, trim_str};
use crate::usage::{BistroCodePricingModel, BISTROCODE_QUOTA_PER_USD};

verus! {

/// A BistroCode account as the account service describes it.
pub struct BistroCodeAccount {
    pub id: Option<i64>,
    pub username: Option<String>,
    pub display_name: Option<String>,
    pub email: Option<String>,
    pub group: Option<String>,
    pub quota: i64,
    pub used_quota: i64,
    pub request_count: Option<i64>,
    pub quota_per_usd: u64,
}

/// Whether the account is signed in, with the account or the reason why not.
pub struct BistroCodeAccountResponse {
    pub logged_in: bool,
    pub account: Option<BistroCodeAccount>,
    pub message: Option<String>,
}

/// The BistroCode price list. Each group ratio and the default group ratio
/// are held by the text that the client's `f64` writes for the number that
/// the service sent; the group ratios keep the order of the reply.
pub struct BistroCodePricingResponse {
    pub success: bool,
    pub models: Vec<BistroCodePricingModel>,
    pub group_ratio: Vec<(String, String)>,
    pub default_group_ratio: String,
    pub message: Option<String>,
}

/// The view of an optional JSON value.
pub open spec fn opt_view(v: Option<&Json>) -> Option<JsonV> {
    match v {
        Some(j) => Some(j@),
        None => None,
    }
}

/// The view of an optional text.
pub open spec fn opt_text(v: Option<String>) -> Option<Seq<char>> {
    match v {
        Some(s) => Some(s@),
        None => None,
    }
}

// ---------------------------------------------------------------------------
// Reading fields
// ---------------------------------------------------------------------------
/// What serde_json's `Number::as_f64` reads from the text of a JSON float,
/// converted to `i64` by `as` (toward zero, held at the bounds of `i64`).
pub uninterp spec fn float_as_i64(text: Seq<char>) -> i64;

/// A JSON float's text read by serde_json and converted to `i64` with `as`;
/// its result is named `float_as_i64`. A text that serde_json does not read
/// as a number, which never comes from a parsed reply, gives 0.
#[verifier::external_body]
fn float_text_as_i64(text: &str) -> (r: i64)
    ensures
        r == float_as_i64(text@),
{
    match text.parse::<serde_json::Number>() {
        Ok(n) => match n.as_f64() {
            Some(x) => x as i64,
            None => 0,
        },
        Err(_) => 0,
    }
}

/// An integer field: an integer as it is (one above `i64::MAX` held at
/// `i64::MAX`, as its float conversion is), a float converted toward zero, a
/// text read as a decimal integer; `None` for anything else.
pub open spec fn json_i64(v: Option<JsonV>) -> Option<i64> {
    match v {
        Some(JsonV::Number(NumV::PosInt(u))) => if u <= i64::MAX {
            Some(u as i64)
        } else {
            Some(i64::MAX)
        },
        Some(JsonV::Number(NumV::NegInt(i))) => Some(i),
        Some(JsonV::Number(NumV::Float(t))) => Some(float_as_i64(t)),
        Some(JsonV::Str(s)) => parsed_i64(s),
        _ => None,
    }
}

/// An integer field of an account reply.
pub fn parse_i64(value: Option<&Json>) -> (r: Option<i64>)
    ensures
        r == json_i64(opt_view(value)),
{
    match value {
        Some(Json::Number(JsonNumber::PosInt(u))) => if *u <= i64::MAX as u64 {
            Some(*u as i64)
        } else {
            Some(i64::MAX)
        },
        Some(Json::Number(JsonNumber::NegInt(i))) => Some(*i),
        Some(Json::Number(JsonNumber::Float(t))) => Some(float_text_as_i64(t.as_str())),
        Some(Json::String(s)) => parse_i64_text(s.as_str()),
        _ => None,
    }
}

/// A text field: a string, trimmed, where it is not blank.
pub open spec fn json_text_field(v: Option<JsonV>) -> Option<Seq<char>> {
    match v {
        Some(JsonV::Str(s)) => if trim(s).len() > 0 {
            Some(trim(s))
        } else {
            None
        },
        _ => None,
    }
}

/// A text field of an account reply.
pub fn parse_string(value: Option<&Json>) -> (r: Option<String>)
    ensures
        opt_text(r) == json_text_field(opt_view(value)),
{
    match value {
        Some(Json::String(s)) => {
            let t = trim_str(s.as_str());
            if t.as_str().is_empty() {
                None
            } else {
                Some(t)
            }
        },
        _ => None,
    }
}

// ---------------------------------------------------------------------------
// The account service
// ---------------------------------------------------------------------------
/// The `Authorization` and `New-Api-User` headers of an account query: each
/// from the trimmed argument, where it is given and not blank.
pub open spec fn account_headers_of(access_token: Option<Seq<char>>, user_id: Option<Seq<char>>) -> (Option<Seq<char>>, Option<Seq<char>>) {
    (
        match access_token {
            Some(t) => if trim(t).len() > 0 {
                Some(authorization_value(trim(t)))
            } else {
                None
            },
            None => None,
        },
        match user_id {
            Some(u) => if trim(u).len() > 0 {
                Some(trim(u))
            } else {
                None
            },
            None => None,
        },
    )
}

/// The `Authorization` and `New-Api-User` headers of an account query.
pub fn account_headers(access_token: Option<&str>, user_id: Option<&str>) -> (r: (Option<String>, Option<String>))
    ensures
        (opt_text(r.0), opt_text(r.1)) == account_headers_of(
            match access_token {
                Some(t) => Some(t@),
                None => None,
            },
            match user_id {
                Some(u) => Some(u@),
                None => None,
            },
        ),
{
    let auth = match access_token {
        Some(t) => {
            let tt = trim_str(t);
            if tt.as_str().is_empty() {
                None
            } else {
                Some(bistrocode_authorization_header(tt.as_str()))
            }
        },
        None => None,
    };
    let user = match user_id {
        Some(u) => {
            let tu = trim_str(u);
            if tu.as_str().is_empty() {
                None
            } else {
                Some(tu)
            }
        },
        None => None,
    };
    (auth, user)
}

/// The message shown when the service refuses the credentials: the reply's
/// `message` where the reply is JSON with a string message, else the reply
/// text, or a default where that is blank.
pub open spec fn rejection_message(parsed: Option<JsonV>, body: Seq<char>) -> Seq<char> {
    let fallback = if trim(body).len() == 0 {
        "BistroCode account is not logged in"@
    } else {
        body
    };
    match parsed {
        Some(v) => match v.get_str("message"@) {
            Some(m) => m,
            None => fallback,
        },
        None => fallback,
    }
}

/// The answer to a refusal (HTTP 401 or 403), given the reply read as JSON
/// where it is JSON.
pub fn rejection_from(parsed: Option<Json>, body: &str) -> (r: BistroCodeAccountResponse)
    ensures
        !r.logged_in,
        r.account is None,
        opt_text(r.message) == Some(rejection_message(
            match parsed {
                Some(v) => Some(v@),
                None => None,
            },
            body@,
        )),
{
    proof {
        reveal_strlit("message");
    }
    let fallback = if trim_str(body).as_str().is_empty() {
        "BistroCode account is not logged in".to_owned()
    } else {
        body.to_owned()
    };
    let message = match &parsed {
        Some(v) => match v.get_str("message") {
            Some(m) => m.to_owned(),
            None => fallback,
        },
        None => fallback,
    };
    BistroCodeAccountResponse { logged_in: false, account: None, message: Some(message) }
}

/// The answer to a refusal (HTTP 401 or 403) with the reply text `body`.
pub fn account_rejected(body: &str) -> (r: BistroCodeAccountResponse)
    ensures
        !r.logged_in,
        r.account is None,
        opt_text(r.message) == Some(rejection_message(json_parse(body@), body@)),
{
    let parsed = parse_json_text(body);
    rejection_from(parsed, body)
}

/// The error of an account query answered with another failure status.
pub fn account_query_error(code: u16, body: &str) -> (r: String)
    requires
        100 <= code <= 999,
    ensures
        r@ == "BistroCode account query failed"@ + " (HTTP "@ + status_line(code) + "): "@ + body@,
{
    http_failure("BistroCode account query failed", code, body)
}

/// How an account query answers an HTTP status before reading a JSON body:
/// 401 and 403 sign the account out with the reply's explanation
/// (`account_rejected`), any other status outside 200 to 299 is the query's
/// error, and a success lets the body be read (`None`).
pub fn account_answer(code: u16, body: &str) -> (r: Option<Result<BistroCodeAccountResponse, String>>)
    requires
        100 <= code <= 999,
    ensures
        (code == 401 || code == 403) ==> (r matches Some(Ok(a)) && !a.logged_in && a.account is None
            && opt_text(a.message) == Some(rejection_message(json_parse(body@), body@))),
        !(code == 401 || code == 403) && !(200 <= code < 300) ==> (r matches Some(Err(e))
            && e@ == "BistroCode account query failed"@ + " (HTTP "@ + status_line(code) + "): "@ + body@),
        200 <= code < 300 ==> r is None,
{
    if code == 401 || code == 403 {
        return Some(Ok(account_rejected(body)));
    }
    if !(200 <= code && code < 300) {
        return Some(Err(account_query_error(code, body)));
    }
    None
}

/// The reply reports success: its `success` member is `true`.
pub open spec fn reports_success(body: JsonV) -> bool {
    body.get("success"@) == Some(JsonV::Bool(true))
}

/// The account described by `data`.
pub open spec fn account_of(a: BistroCodeAccount, data: JsonV) -> bool {
    &&& a.id == json_i64(data.get("id"@))
    &&& opt_text(a.username) == json_text_field(data.get("username"@))
    &&& opt_text(a.display_name) == json_text_field(data.get("display_name"@))
    &&& opt_text(a.email) == json_text_field(data.get("email"@))
    &&& opt_text(a.group) == json_text_field(data.get("group"@))
    &&& a.quota == (match json_i64(data.get("quota"@)) {
        Some(q) => q,
        None => 0,
    })
    &&& a.used_quota == (match json_i64(data.get("used_quota"@)) {
        Some(q) => q,
        None => 0,
    })
    &&& a.request_count == json_i64(data.get("request_count"@))
    &&& a.quota_per_usd == BISTROCODE_QUOTA_PER_USD
}

/// The answer to an account reply that came with a success status: signed
/// in with the account of its `data` member (of the reply itself where it
/// has none) where it reports success, signed out with its message (or a
/// default) otherwise.
pub fn account_from_reply(body: &Json) -> (r: BistroCodeAccountResponse)
    ensures
        reports_success(body@) ==> r.logged_in && r.message is None && (r.account matches Some(a)
            && account_of(a, match body@.get("data"@) {
                Some(d) => d,
                None => body@,
            })),
        !reports_success(body@) ==> !r.logged_in && r.account is None
            && opt_text(r.message) == Some(body@.str_or("message"@, "BistroCode account is not logged in"@)),
{
    let success = match body.get("success") {
        Some(v) => match v.as_bool() {
            Some(b) => b,
            None => false,
        },
        None => false,
    };
    if !success {
        let m = body.str_or("message", "BistroCode account is not logged in");
        return BistroCodeAccountResponse { logged_in: false, account: None, message: Some(m.to_owned()) };
    }
    let data = match body.get("data") {
        Some(d) => d,
        None => body,
    };
    let account = BistroCodeAccount {
        id: parse_i64(data.get("id")),
        username: parse_string(data.get("username")),
        display_name: parse_string(data.get("display_name")),
        email: parse_string(data.get("email")),
        group: parse_string(data.get("group")),
        quota: match parse_i64(data.get("quota")) {
            Some(q) => q,
            None => 0,
        },
        used_quota: match parse_i64(data.get("used_quota")) {
            Some(q) => q,
            None => 0,
        },
        request_count: parse_i64(data.get("request_count")),
        quota_per_usd: BISTROCODE_QUOTA_PER_USD,
    };
    BistroCodeAccountResponse { logged_in: true, account: Some(account), message: None }
}

// ---------------------------------------------------------------------------
// The pricing service
// ---------------------------------------------------------------------------
/// The JSON text of a number: an integer's digits, a float's text as
/// serde_json wrote it; `None` for anything else.
pub open spec fn json_number_text(v: Option<JsonV>) -> Option<Seq<char>> {
    match v {
        Some(JsonV::Number(NumV::PosInt(u))) => Some(nat_text(u as nat)),
        Some(JsonV::Number(NumV::NegInt(i))) => Some(int_text(i as int)),
        Some(JsonV::Number(NumV::Float(t))) => Some(t),
        _ => None,
    }
}

/// What Rust's `f64` `Display` writes for the number that serde_json reads
/// from a JSON number's text (`Number::from_str`, then `as_f64`); `None`
/// where serde_json reads no number from the text.
pub uninterp spec fn f64_text(number_text: Seq<char>) -> Option<Seq<char>>;

/// A JSON number's text read by serde_json as an `f64` and written back with
/// `to_string`; its result is named `f64_text`. A text that serde_json does
/// not read as a number, which never comes from a parsed reply, gives `None`.
#[verifier::external_body]
fn f64_display(text: &str) -> (r: Option<String>)
    ensures
        opt_text(r) == f64_text(text@),
{
    match text.parse::<serde_json::Number>() {
        Ok(n) => match n.as_f64() {
            Some(x) => Some(x.to_string()),
            None => None,
        },
        Err(_) => None,
    }
}

/// The text of a number field as the client's `f64` writes it: the number
/// read as an `f64` and written in plain decimal notation; `None` for
/// anything but a number.
pub open spec fn number_text(v: Option<JsonV>) -> Option<Seq<char>> {
    match json_number_text(v) {
        Some(t) => f64_text(t),
        None => None,
    }
}

/// `Option::unwrap_or` on texts.
pub open spec fn text_or(o: Option<Seq<char>>, d: Seq<char>) -> Seq<char> {
    match o {
        Some(t) => t,
        None => d,
    }
}

/// The text of a number field as the client's `f64` writes it.
pub fn number_text_of(v: Option<&Json>) -> (r: Option<String>)
    ensures
        opt_text(r) == number_text(opt_view(v)),
{
    let t = match v {
        Some(Json::Number(JsonNumber::PosInt(u))) => u64_to_text(*u),
        Some(Json::Number(JsonNumber::NegInt(i))) => i64_to_text(*i),
        Some(Json::Number(JsonNumber::Float(t))) => t.clone(),
        _ => {
            return None;
        },
    };
    f64_display(t.as_str())
}

fn number_text_or(v: Option<&Json>, default: &str) -> (r: String)
    ensures
        r@ == text_or(number_text(opt_view(v)), default@),
{
    match number_text_of(v) {
        Some(t) => t,
        None => default.to_owned(),
    }
}

/// The group ratios of a reply: its members that hold a number, in order,
/// each with the number's text.
pub open spec fn ratio_entries(entries: Seq<(Seq<char>, JsonV)>) -> Seq<(Seq<char>, Seq<char>)>
    decreases entries.len(),
{
    if entries.len() == 0 {
        Seq::empty()
    } else {
        let rest = ratio_entries(entries.drop_last());
        match number_text(Some(entries.last().1)) {
            Some(t) => rest.push((entries.last().0, t)),
            None => rest,
        }
    }
}

/// The texts of pairs of texts.
pub open spec fn pair_texts(v: Seq<(String, String)>) -> Seq<(Seq<char>, Seq<char>)> {
    v.map_values(|p: (String, String)| (p.0@, p.1@))
}

/// The strings among `items`, in order.
pub open spec fn text_items(items: Seq<JsonV>) -> Seq<Seq<char>>
    decreases items.len(),
{
    if items.len() == 0 {
        Seq::empty()
    } else {
        let rest = text_items(items.drop_last());
        match items.last() {
            JsonV::Str(s) => rest.push(s),
            _ => rest,
        }
    }
}

/// The texts of strings.
pub open spec fn texts(v: Seq<String>) -> Seq<Seq<char>> {
    v.map_values(|s: String| s@)
}

/// The model price read from one item of a pricing reply. A missing ratio or
/// price reads as `0`.
pub open spec fn model_of(m: BistroCodePricingModel, item: JsonV) -> bool {
    &&& m.model_name@ == item.str_or("model_name"@, ""@)
    &&& m.quota_type == (match item.get("quota_type"@) {
        Some(v) => match v.as_i64() {
            Some(q) => q,
            None => 0,
        },
        None => 0,
    })
    &&& m.model_ratio@ == text_or(number_text(item.get("model_ratio"@)), "0"@)
    &&& m.model_price@ == text_or(number_text(item.get("model_price"@)), "0"@)
    &&& m.completion_ratio@ == text_or(number_text(item.get("completion_ratio"@)), "0"@)
    &&& opt_text(m.cache_ratio) == number_text(item.get("cache_ratio"@))
    &&& opt_text(m.create_cache_ratio) == number_text(item.get("create_cache_ratio"@))
    &&& texts(m.enable_groups@) == (match item.get("enable_groups"@) {
        Some(JsonV::Array(xs)) => text_items(xs),
        _ => Seq::empty(),
    })
}

/// Every price read from a pricing reply takes each ratio from the item's
/// own member of that name: a member that is a number gives the text the
/// client's `f64` writes for it, and an optional ratio (cache, cache
/// creation) is missing exactly when its member is missing or not a number;
/// the required ratios and the price fall back to `0`.
pub proof fn law_model_ratios_from_item(m: BistroCodePricingModel, item: JsonV)
    requires
        model_of(m, item),
    ensures
        opt_text(m.cache_ratio) == number_text(item.get("cache_ratio"@)),
        opt_text(m.create_cache_ratio) == number_text(item.get("create_cache_ratio"@)),
        item.get("create_cache_ratio"@) matches Some(JsonV::Number(_)) ==> opt_text(m.create_cache_ratio) == f64_text(
            json_number_text(item.get("create_cache_ratio"@))->Some_0,
        ),
        !(item.get("create_cache_ratio"@) matches Some(JsonV::Number(_))) ==> m.create_cache_ratio is None,
        item.get("cache_ratio"@) matches Some(JsonV::Number(_)) ==> opt_text(m.cache_ratio) == f64_text(
            json_number_text(item.get("cache_ratio"@))->Some_0,
        ),
        !(item.get("cache_ratio"@) matches Some(JsonV::Number(_))) ==> m.cache_ratio is None,
        item.get("model_ratio"@) matches Some(JsonV::Number(_)) ==> m.model_ratio@ == text_or(
            f64_text(json_number_text(item.get("model_ratio"@))->Some_0),
            "0"@,
        ),
        !(item.get("model_ratio"@) matches Some(JsonV::Number(_))) ==> m.model_ratio@ == "0"@,
        !(item.get("completion_ratio"@) matches Some(JsonV::Number(_))) ==> m.completion_ratio@ == "0"@,
        !(item.get("model_price"@) matches Some(JsonV::Number(_))) ==> m.model_price@ == "0"@,
        m.model_name@ == item.str_or("model_name"@, ""@),
{
}

/// The strings of a JSON array.
fn text_items_of(items: &Vec<Json>) -> (r: Vec<String>)
    ensures
        texts(r@) == text_items(items_view(items@)),
{
    broadcast use group_json_view;
    let ghost xs = items_view(items@);
    let mut out: Vec<String> = Vec::new();
    let mut i: usize = 0;
    proof {
        assert(xs.take(0) =~= Seq::<JsonV>::empty());
        assert(texts(out@) =~= Seq::<Seq<char>>::empty());
    }
    while i < items.len()
        invariant
            i <= items@.len(),
            xs == items_view(items@),
            xs.len() == items@.len(),
            texts(out@) == text_items(xs.take(i as int)),
        decreases items@.len() - i,
    {
        proof {
            assert(xs.take(i as int + 1).drop_last() =~= xs.take(i as int));
            lemma_items_view(items@);
            assert(xs[i as int] == json_view(items@[i as int]));
            assert(xs.take(i as int + 1).last() == items@[i as int]@);
        }
        match &items[i] {
            Json::String(s) => {
                let ghost before = out@;
                out.push(s.clone());
                proof {
                    assert(texts(out@) =~= texts(before).push(s@));
                }
            },
            _ => {},
        }
        i = i + 1;
    }
    proof {
        assert(xs.take(items@.len() as int) =~= xs);
    }
    out
}

/// The model price read from one item of a pricing reply.
fn model_from_item(item: &Json) -> (m: BistroCodePricingModel)
    ensures
        model_of(m, item@),
{
    let enable_groups = match item.get("enable_groups") {
        Some(Json::Array(xs)) => text_items_of(xs),
        _ => Vec::new(),
    };
    proof {
        assert(texts(Seq::<String>::empty()) =~= Seq::<Seq<char>>::empty());
    }
    BistroCodePricingModel {
        model_name: item.str_or("model_name", "").to_owned(),
        quota_type: match item.get("quota_type") {
            Some(v) => match v.as_i64() {
                Some(q) => q,
                None => 0,
            },
            None => 0,
        },
        model_ratio: number_text_or(item.get("model_ratio"), "0"),
        model_price: number_text_or(item.get("model_price"), "0"),
        completion_ratio: number_text_or(item.get("completion_ratio"), "0"),
        cache_ratio: number_text_of(item.get("cache_ratio")),
        create_cache_ratio: number_text_of(item.get("create_cache_ratio")),
        enable_groups,
    }
}

/// The group ratios of the members of an object.
fn ratio_entries_of(entries: &Vec<(String, Json)>) -> (r: Vec<(String, String)>)
    ensures
        pair_texts(r@) == ratio_entries(entries_view(entries@)),
{
    broadcast use group_json_view;
    let ghost es = entries_view(entries@);
    let mut out: Vec<(String, String)> = Vec::new();
    let mut i: usize = 0;
    proof {
        assert(es.take(0) =~= Seq::<(Seq<char>, JsonV)>::empty());
        assert(pair_texts(out@) =~= Seq::<(Seq<char>, Seq<char>)>::empty());
    }
    while i < entries.len()
        invariant
            i <= entries@.len(),
            es == entries_view(entries@),
            es.len() == entries@.len(),
            pair_texts(out@) == ratio_entries(es.take(i as int)),
        decreases entries@.len() - i,
    {
        proof {
            assert(es.take(i as int + 1).drop_last() =~= es.take(i as int));
            lemma_entries_view(entries@);
            assert(es[i as int] == (entries@[i as int].0@, json_view(entries@[i as int].1)));
            assert(es.take(i as int + 1).last() == (entries@[i as int].0@, entries@[i as int].1@));
        }
        let entry = &entries[i];
        match number_text_of(Some(&entry.1)) {
            Some(t) => {
                let ghost before = out@;
                out.push((entry.0.clone(), t));
                proof {
                    assert(pair_texts(out@) =~= pair_texts(before).push((entry.0@, t@)));
                }
            },
            None => {},
        }
        i = i + 1;
    }
    proof {
        assert(es.take(entries@.len() as int) =~= es);
    }
    out
}

/// The error of a pricing query answered with a failure status.
pub fn pricing_query_error(code: u16, body: &str) -> (r: String)
    requires
        100 <= code <= 999,
    ensures
        r@ == "BistroCode pricing query failed"@ + " (HTTP "@ + status_line(code) + "): "@ + body@,
{
    http_failure("BistroCode pricing query failed", code, body)
}

/// The price list read from a pricing reply that came with a success status.
/// A reply that does not report success gives an empty list with its message
/// (or a default); the default group ratio is `0.2` where the reply has none.
pub fn pricing_from_reply(body: &Json) -> (r: BistroCodePricingResponse)
    ensures
        r.success == reports_success(body@),
        !reports_success(body@) ==> r.models@.len() == 0 && r.group_ratio@.len() == 0
            && r.default_group_ratio@ == "0.2"@
            && opt_text(r.message) == Some(body@.str_or("message"@, "BistroCode pricing query failed"@)),
        reports_success(body@) ==> {
            &&& r.message is None
            &&& r.default_group_ratio@ == text_or(number_text(body@.get2("group_ratio"@, "default"@)), "0.2"@)
            &&& pair_texts(r.group_ratio@) == (match body@.get("group_ratio"@) {
                Some(JsonV::Object(es)) => ratio_entries(es),
                _ => Seq::empty(),
            })
            &&& match body@.get("data"@) {
                Some(JsonV::Array(items)) => r.models@.len() == items.len() && forall|i: int|
                    0 <= i < items.len() ==> model_of(#[trigger] r.models@[i], items[i]),
                _ => r.models@.len() == 0,
            }
        },
{
    broadcast use group_json_view;
    let success = match body.get("success") {
        Some(v) => match v.as_bool() {
            Some(b) => b,
            None => false,
        },
        None => false,
    };
    if !success {
        let m = body.str_or("message", "BistroCode pricing query failed");
        return BistroCodePricingResponse {
            success: false,
            models: Vec::new(),
            group_ratio: Vec::new(),
            default_group_ratio: "0.2".to_owned(),
            message: Some(m.to_owned()),
        };
    }
    let default_group_ratio = number_text_or(body.get2("group_ratio", "default"), "0.2");
    let group_ratio = match body.get("group_ratio") {
        Some(Json::Object(entries)) => ratio_entries_of(entries),
        _ => Vec::new(),
    };
    proof {
        assert(pair_texts(Seq::<(String, String)>::empty()) =~= Seq::<(Seq<char>, Seq<char>)>::empty());
    }
    let mut models: Vec<BistroCodePricingModel> = Vec::new();
    match body.get("data") {
        Some(Json::Array(items)) => {
            let ghost xs = items_view(items@);
            let mut i: usize = 0;
            while i < items.len()
                invariant
                    i <= items@.len(),
                    xs == items_view(items@),
                    xs.len() == items@.len(),
                    models@.len() == i,
                    forall|k: int| 0 <= k < i ==> model_of(#[trigger] models@[k], xs[k]),
                decreases items@.len() - i,
            {
                let m = model_from_item(&items[i]);
                proof {
                    lemma_items_view(items@);
                    assert(xs[i as int] == json_view(items@[i as int]));
                }
                models.push(m);
                i = i + 1;
            }
        },
        _ => {},
    }
    BistroCodePricingResponse { success: true, models, group_ratio, default_group_ratio, message: None }
}

} // verus!
