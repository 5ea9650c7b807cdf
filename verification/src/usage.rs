//! Usage accounting for BistroCode: matching a model to its BistroCode price,
//! estimating the quota that a request costs, summing the estimate over the
//! request log, and checking a model price entered by the user.
use vstd::prelude::*;
use crate::decimal::{
    checked_add, checked_div, checked_mul, checked_sub, dec_add, dec_div, dec_fixed6, dec_from_str,
    dec_mul, dec_ok, dec_round, dec_sub, dec_to_u64, format_fixed6, from_u64, is_below_one, dec_gt, greater, fits_fixed6, fits_fixed6_exec,
    is_negative, is_positive, one, parse_decimal, pow10, round, to_u64, zero, Dec,
};
use crate::text::{
    ascii_lowercase, ascii_lowercase_chars, chars_of, has_prefix, replace_all, replace_chars,
    starts_with_chars, str_eq, trim, trim_char, trim_char_chars, trim_chars, trim_str, concat,
};

verus! {

/// BistroCode quota units per US dollar.
pub const BISTROCODE_QUOTA_PER_USD: u64 = 500_000;

/// The BistroCode price of a model. The ratios and the price are held by the
/// text that the client's `f64` writes for the number that the pricing
/// service sent (its `to_string`), which is the text read back as a Decimal.
pub struct BistroCodePricingModel {
    pub model_name: String,
    pub quota_type: i64,
    pub model_ratio: String,
    pub model_price: String,
    pub completion_ratio: String,
    pub cache_ratio: Option<String>,
    pub create_cache_ratio: Option<String>,
    pub enable_groups: Vec<String>,
}

/// Token counts of one request.
#[derive(Debug, Clone, Copy, PartialEq, Eq, Structural)]
pub struct TokenUsage {
    pub input_tokens: u64,
    pub output_tokens: u64,
    pub cache_read_tokens: u64,
    pub cache_creation_tokens: u64,
}

/// The estimate of what the logged requests would cost on BistroCode.
pub struct BistroCodeUsageEstimate {
    pub official_cost_usd: String,
    pub bistrocode_cost_usd: String,
    pub estimated_savings_usd: String,
    pub bistrocode_quota_used: u64,
    pub priced_requests: u64,
    pub unpriced_requests: u64,
    pub total_requests: u64,
    pub official_total_tokens: u64,
    pub bistrocode_total_tokens: u64,
}

/// A model price as the user enters it, per million tokens.
pub struct ModelPricingInfo {
    pub model_id: String,
    pub display_name: String,
    pub input_cost_per_million: String,
    pub output_cost_per_million: String,
    pub cache_read_cost_per_million: String,
    pub cache_creation_cost_per_million: String,
}

// ---------------------------------------------------------------------------
// Matching a model to its price
// ---------------------------------------------------------------------------
/// The form in which model ids are compared: trimmed, without surrounding
/// quotes, ASCII lower case, without the `openai/`, `anthropic/` and
/// `google/` vendor prefixes.
pub open spec fn normalized_model_id(model: Seq<char>) -> Seq<char> {
    replace_all(
        replace_all(
            replace_all(ascii_lowercase(trim_char(trim(model), '"')), "openai/"@, Seq::empty()),
            "anthropic/"@,
            Seq::empty(),
        ),
        "google/"@,
        Seq::empty(),
    )
}

/// The form in which model ids are compared.
pub fn normalize_model_id(model: &str) -> (r: String)
    ensures
        r@ == normalized_model_id(model@),
{
    proof {
        reveal_strlit("openai/");
        reveal_strlit("anthropic/");
        reveal_strlit("google/");
    }
    let cs = chars_of(model);
    let t = trim_chars(&cs);
    let q = trim_char_chars(&t, '"');
    let l = ascii_lowercase_chars(&q);
    let empty: Vec<char> = Vec::new();
    proof {
        assert(empty@ =~= Seq::<char>::empty());
    }
    let a = replace_chars(&l, &chars_of("openai/"), &empty);
    let b = replace_chars(&a, &chars_of("anthropic/"), &empty);
    let c = replace_chars(&b, &chars_of("google/"), &empty);
    crate::text::string_from_chars(c.as_slice())
}

/// The normalized id of the `i`-th model.
pub open spec fn model_id_at(models: Seq<BistroCodePricingModel>, i: int) -> Seq<char> {
    normalized_model_id(models[i].model_name@)
}

/// The first model at or after `from` whose normalized id is `target`.
pub open spec fn first_exact(models: Seq<BistroCodePricingModel>, target: Seq<char>, from: int) -> Option<int>
    decreases models.len() - from,
{
    if from < 0 || from >= models.len() {
        None
    } else if model_id_at(models, from) == target {
        Some(from)
    } else {
        first_exact(models, target, from + 1)
    }
}

/// The first model at or after `from` whose normalized id is non-empty and
/// begins `target`.
pub open spec fn first_prefix(models: Seq<BistroCodePricingModel>, target: Seq<char>, from: int) -> Option<int>
    decreases models.len() - from,
{
    if from < 0 || from >= models.len() {
        None
    } else if model_id_at(models, from).len() > 0 && has_prefix(target, model_id_at(models, from)) {
        Some(from)
    } else {
        first_prefix(models, target, from + 1)
    }
}

/// The position of the price of `model`: the first exact match of the
/// normalized ids, else the first model whose id begins the model's id.
pub open spec fn pricing_index(models: Seq<BistroCodePricingModel>, model: Seq<char>) -> Option<int> {
    let target = normalized_model_id(model);
    match first_exact(models, target, 0) {
        Some(i) => Some(i),
        None => first_prefix(models, target, 0),
    }
}

proof fn lemma_first_in_range(models: Seq<BistroCodePricingModel>, target: Seq<char>, from: int)
    ensures
        first_exact(models, target, from) matches Some(i) ==> 0 <= i < models.len(),
        first_prefix(models, target, from) matches Some(i) ==> 0 <= i < models.len(),
    decreases models.len() - from,
{
    if 0 <= from < models.len() {
        lemma_first_in_range(models, target, from + 1);
    }
}

proof fn lemma_first_exact_found(models: Seq<BistroCodePricingModel>, target: Seq<char>, from: int, k: int)
    requires
        0 <= from <= k < models.len(),
        model_id_at(models, k) == target,
    ensures
        first_exact(models, target, from) matches Some(j) && from <= j <= k && model_id_at(models, j) == target
            && forall|m: int| from <= m < j ==> model_id_at(models, m) != target,
    decreases k - from,
{
    if model_id_at(models, from) != target {
        lemma_first_exact_found(models, target, from + 1, k);
    }
}

proof fn lemma_first_exact_sound(models: Seq<BistroCodePricingModel>, target: Seq<char>, from: int)
    ensures
        first_exact(models, target, from) matches Some(j) ==> model_id_at(models, j) == target,
        first_prefix(models, target, from) matches Some(j) ==> model_id_at(models, j).len() > 0
            && has_prefix(target, model_id_at(models, j)),
    decreases models.len() - from,
{
    if 0 <= from < models.len() {
        lemma_first_exact_sound(models, target, from + 1);
    }
}

/// A model whose normalized id equals the normalized model always wins: the
/// price found is the first such model. Any price found matches exactly or by
/// a non-empty prefix of the normalized model id.
pub proof fn law_exact_match_wins(models: Seq<BistroCodePricingModel>, model: Seq<char>, k: int)
    ensures
        pricing_index(models, model) matches Some(j) ==> model_id_at(models, j) == normalized_model_id(model) || (
        model_id_at(models, j).len() > 0 && has_prefix(normalized_model_id(model), model_id_at(models, j))),
        0 <= k < models.len() && model_id_at(models, k) == normalized_model_id(model) ==> (pricing_index(
            models,
            model,
        ) matches Some(j) && j <= k && model_id_at(models, j) == normalized_model_id(model) && forall|m: int|
            0 <= m < j ==> model_id_at(models, m) != normalized_model_id(model)),
{
    let t = normalized_model_id(model);
    lemma_first_exact_sound(models, t, 0);
    if 0 <= k < models.len() && model_id_at(models, k) == t {
        lemma_first_exact_found(models, t, 0, k);
    }
}

/// The BistroCode price of `model`, where one matches.
pub fn find_bistrocode_pricing<'a>(models: &'a [BistroCodePricingModel], model: &str) -> (r: Option<&'a BistroCodePricingModel>)
    ensures
        match pricing_index(models@, model@) {
            Some(i) => 0 <= i < models@.len() && r == Some(&models@[i]),
            None => r is None,
        },
{
    let normalized = normalize_model_id(model);
    let target = chars_of(normalized.as_str());
    let ghost t = normalized@;
    proof {
        lemma_first_in_range(models@, t, 0);
    }
    let mut i: usize = 0;
    while i < models.len()
        invariant
            i <= models@.len(),
            target@ == t,
            normalized@ == t,
            t == normalized_model_id(model@),
            first_exact(models@, t, 0) == first_exact(models@, t, i as int),
        decreases models@.len() - i,
    {
        let id = normalize_model_id(models[i].model_name.as_str());
        assert(model_id_at(models@, i as int) == id@);
        if str_eq(id.as_str(), normalized.as_str()) {
            return Some(&models[i]);
        }
        i = i + 1;
    }
    let mut j: usize = 0;
    while j < models.len()
        invariant
            j <= models@.len(),
            target@ == t,
            t == normalized_model_id(model@),
            first_exact(models@, t, 0) is None,
            first_prefix(models@, t, 0) == first_prefix(models@, t, j as int),
        decreases models@.len() - j,
    {
        let id = normalize_model_id(models[j].model_name.as_str());
        assert(model_id_at(models@, j as int) == id@);
        let idc = chars_of(id.as_str());
        if idc.len() > 0 && starts_with_chars(&target, &idc) {
            return Some(&models[j]);
        }
        j = j + 1;
    }
    None
}

// ---------------------------------------------------------------------------
// Quota of one request
// ---------------------------------------------------------------------------
/// The decimal number of a ratio's text, `fallback` where it is not one.
pub open spec fn ratio_dec(text: Seq<char>, fallback: Dec) -> Dec {
    match dec_from_str(text) {
        Ok(d) => d,
        Err(_) => fallback,
    }
}

/// The text of an optional ratio, `1` where it is missing.
pub open spec fn ratio_text_or_one(t: Option<String>) -> Seq<char> {
    match t {
        Some(s) => s@,
        None => "1"@,
    }
}

/// `a * b`, where both exist and the product is in range.
pub open spec fn mul_opt(a: Option<Dec>, b: Option<Dec>) -> Option<Dec> {
    match (a, b) {
        (Some(x), Some(y)) => dec_mul(x, y),
        _ => None,
    }
}

/// `a + b`, where both exist and the sum is in range.
pub open spec fn add_opt(a: Option<Dec>, b: Option<Dec>) -> Option<Dec> {
    match (a, b) {
        (Some(x), Some(y)) => dec_add(x, y),
        _ => None,
    }
}

/// The quota of a rounded number: its integer value where it fits, else 0.
pub open spec fn rounded_quota(q: Dec) -> u64 {
    match dec_to_u64(dec_round(q)) {
        Some(u) => u,
        None => 0,
    }
}

/// The Decimal of an integer.
pub open spec fn dec_of(u: u64) -> Dec {
    Dec { mantissa: u as i128, scale: 0 }
}

/// The input tokens that are billed: for Codex and Gemini, which count cached
/// tokens among the input tokens, the input without them, never below zero.
pub open spec fn billed_input(app_type: Seq<char>, usage: TokenUsage) -> Option<Dec> {
    if app_type == "codex"@ || app_type == "gemini"@ {
        match dec_sub(dec_of(usage.input_tokens), dec_of(usage.cache_read_tokens)) {
            Some(a) => match dec_sub(a, dec_of(usage.cache_creation_tokens)) {
                Some(b) => Some(if b.mantissa < 0 { zero() } else { b }),
                None => None,
            },
            None => None,
        }
    } else {
        Some(dec_of(usage.input_tokens))
    }
}

/// The BistroCode quota of one request, `None` where the arithmetic leaves
/// Decimal's range. A per-request price costs `price * 500000 * group ratio`;
/// otherwise the weighted tokens (input, output times the completion ratio,
/// cache reads and writes times their ratios) times the model ratio and the
/// group ratio, rounded, and at least 1 where that product is positive.
pub open spec fn quota_estimate(app_type: Seq<char>, usage: TokenUsage, p: BistroCodePricingModel, group_ratio: Dec) -> Option<u64> {
    let model_ratio = ratio_dec(p.model_ratio@, zero());
    let completion_ratio = ratio_dec(p.completion_ratio@, one());
    let cache_ratio = ratio_dec(ratio_text_or_one(p.cache_ratio), one());
    let create_cache_ratio = ratio_dec(ratio_text_or_one(p.create_cache_ratio), one());
    if p.quota_type == 1 {
        let price = ratio_dec(p.model_price@, zero());
        match mul_opt(mul_opt(Some(price), Some(dec_of(BISTROCODE_QUOTA_PER_USD))), Some(group_ratio)) {
            Some(q) => Some(rounded_quota(q)),
            None => None,
        }
    } else {
        let weighted = add_opt(
            add_opt(
                add_opt(
                    billed_input(app_type, usage),
                    dec_mul(dec_of(usage.output_tokens), completion_ratio),
                ),
                dec_mul(dec_of(usage.cache_read_tokens), cache_ratio),
            ),
            dec_mul(dec_of(usage.cache_creation_tokens), create_cache_ratio),
        );
        match mul_opt(mul_opt(weighted, Some(model_ratio)), Some(group_ratio)) {
            Some(q) => if q.mantissa > 0 && q.mantissa < pow10(q.scale as nat) {
                Some(1)
            } else {
                Some(rounded_quota(q))
            },
            None => None,
        }
    }
}

/// The decimal number of a ratio's text, `fallback` where it is not one.
fn decimal_from_text(text: &str, fallback: Dec) -> (r: Dec)
    requires
        dec_ok(fallback),
    ensures
        r == ratio_dec(text@, fallback),
        dec_ok(r),
{
    match parse_decimal(text) {
        Ok(d) => d,
        Err(_) => fallback,
    }
}

fn opt_mul(a: Option<Dec>, b: Option<Dec>) -> (r: Option<Dec>)
    requires
        a matches Some(x) ==> dec_ok(x),
        b matches Some(x) ==> dec_ok(x),
    ensures
        r == mul_opt(a, b),
        r matches Some(x) ==> dec_ok(x),
{
    match (a, b) {
        (Some(x), Some(y)) => checked_mul(x, y),
        _ => None,
    }
}

fn opt_add(a: Option<Dec>, b: Option<Dec>) -> (r: Option<Dec>)
    requires
        a matches Some(x) ==> dec_ok(x),
        b matches Some(x) ==> dec_ok(x),
    ensures
        r == add_opt(a, b),
        r matches Some(x) ==> dec_ok(x),
{
    match (a, b) {
        (Some(x), Some(y)) => checked_add(x, y),
        _ => None,
    }
}

fn quota_of(q: Dec) -> (r: u64)
    requires
        dec_ok(q),
    ensures
        r == rounded_quota(q),
{
    match to_u64(round(q)) {
        Some(u) => u,
        None => 0,
    }
}

/// The BistroCode quota of one request; `None` where the Decimal arithmetic
/// leaves its range.
pub fn estimate_bistrocode_quota(app_type: &str, usage: &TokenUsage, pricing: &BistroCodePricingModel, group_ratio: Dec) -> (r: Option<u64>)
    requires
        dec_ok(group_ratio),
    ensures
        r == quota_estimate(app_type@, *usage, *pricing, group_ratio),
{
    let model_ratio = decimal_from_text(pricing.model_ratio.as_str(), Dec { mantissa: 0, scale: 0 });
    let completion_ratio = decimal_from_text(pricing.completion_ratio.as_str(), Dec { mantissa: 1, scale: 0 });
    let cache_ratio = match &pricing.cache_ratio {
        Some(t) => decimal_from_text(t.as_str(), Dec { mantissa: 1, scale: 0 }),
        None => decimal_from_text("1", Dec { mantissa: 1, scale: 0 }),
    };
    let create_cache_ratio = match &pricing.create_cache_ratio {
        Some(t) => decimal_from_text(t.as_str(), Dec { mantissa: 1, scale: 0 }),
        None => decimal_from_text("1", Dec { mantissa: 1, scale: 0 }),
    };
    if pricing.quota_type == 1 {
        let price = decimal_from_text(pricing.model_price.as_str(), Dec { mantissa: 0, scale: 0 });
        let per_usd = from_u64(BISTROCODE_QUOTA_PER_USD);
        let q = opt_mul(opt_mul(Some(price), Some(per_usd)), Some(group_ratio));
        return match q {
            Some(q) => Some(quota_of(q)),
            None => None,
        };
    }
    let input0 = from_u64(usage.input_tokens);
    let cache_read = from_u64(usage.cache_read_tokens);
    let cache_creation = from_u64(usage.cache_creation_tokens);
    let input = if str_eq(app_type, "codex") || str_eq(app_type, "gemini") {
        match checked_sub(input0, cache_read) {
            Some(a) => match checked_sub(a, cache_creation) {
                Some(b) => Some(if is_negative(b) { Dec { mantissa: 0, scale: 0 } } else { b }),
                None => None,
            },
            None => None,
        }
    } else {
        Some(input0)
    };
    let weighted = opt_add(
        opt_add(
            opt_add(input, checked_mul(from_u64(usage.output_tokens), completion_ratio)),
            checked_mul(cache_read, cache_ratio),
        ),
        checked_mul(cache_creation, create_cache_ratio),
    );
    match opt_mul(opt_mul(weighted, Some(model_ratio)), Some(group_ratio)) {
        Some(q) => if is_positive(q) && is_below_one(q) {
            Some(1)
        } else {
            Some(quota_of(q))
        },
        None => None,
    }
}

/// The decimal that a ratio's text reads as, `d` where it reads as none.
pub open spec fn read_ratio(text: Seq<char>, d: Dec) -> Dec {
    match dec_from_str(text) {
        Ok(x) => x,
        Err(_) => d,
    }
}

/// The quota of a decimal product: 1 for a product strictly between 0 and 1,
/// else the product rounded half to even, 0 where that is negative or does
/// not fit in `u64`.
pub open spec fn quota_of_product(q: Option<Dec>) -> Option<u64> {
    match q {
        None => None,
        Some(q) => Some(
            if 0 < q.mantissa && q.mantissa < pow10(q.scale as nat) {
                1
            } else {
                match dec_to_u64(dec_round(q)) {
                    Some(v) => v,
                    None => 0,
                }
            },
        ),
    }
}

/// The quota of a request on a model priced by tokens: the input tokens
/// (for Codex and Gemini less the cached ones, never below zero), plus the
/// output tokens times the completion ratio, the cache reads times the cache
/// ratio and the cache writes times the cache-creation ratio, all times the
/// model ratio and the group ratio. Each ratio is the decimal that the
/// pricing's own text for it reads as: the model ratio defaults to 0, the
/// others to 1, and a missing cache or cache-creation ratio counts as `1`.
/// `None` where Decimal arithmetic overflows.
pub proof fn law_token_quota(app_type: Seq<char>, usage: TokenUsage, p: BistroCodePricingModel, group_ratio: Dec)
    requires
        p.quota_type != 1,
    ensures
        ({
            let model_ratio = read_ratio(p.model_ratio@, zero());
            let completion_ratio = read_ratio(p.completion_ratio@, one());
            let cache_ratio = match p.cache_ratio {
                Some(t) => read_ratio(t@, one()),
                None => read_ratio("1"@, one()),
            };
            let create_cache_ratio = match p.create_cache_ratio {
                Some(t) => read_ratio(t@, one()),
                None => read_ratio("1"@, one()),
            };
            let input = if app_type == "codex"@ || app_type == "gemini"@ {
                match dec_sub(dec_of(usage.input_tokens), dec_of(usage.cache_read_tokens)) {
                    Some(a) => match dec_sub(a, dec_of(usage.cache_creation_tokens)) {
                        Some(b) => Some(
                            if b.mantissa < 0 {
                                zero()
                            } else {
                                b
                            },
                        ),
                        None => None,
                    },
                    None => None,
                }
            } else {
                Some(dec_of(usage.input_tokens))
            };
            let weighted = match (
                input,
                dec_mul(dec_of(usage.output_tokens), completion_ratio),
                dec_mul(dec_of(usage.cache_read_tokens), cache_ratio),
                dec_mul(dec_of(usage.cache_creation_tokens), create_cache_ratio),
            ) {
                (Some(i), Some(o), Some(r), Some(c)) => match dec_add(i, o) {
                    Some(x) => match dec_add(x, r) {
                        Some(y) => dec_add(y, c),
                        None => None,
                    },
                    None => None,
                },
                _ => None,
            };
            let product = match weighted {
                Some(w) => match dec_mul(w, model_ratio) {
                    Some(x) => dec_mul(x, group_ratio),
                    None => None,
                },
                None => None,
            };
            quota_estimate(app_type, usage, p, group_ratio) == quota_of_product(product)
        }),
{
}

/// The quota of a request on a model priced per request: the model price
/// (0 where its text reads as no decimal) times 500000 times the group ratio,
/// rounded half to even, 0 where that is negative or too large; whatever the
/// request's tokens. `None` where Decimal arithmetic overflows.
pub proof fn law_request_quota(app_type: Seq<char>, usage: TokenUsage, p: BistroCodePricingModel, group_ratio: Dec)
    requires
        p.quota_type == 1,
    ensures
        quota_estimate(app_type, usage, p, group_ratio) == match dec_mul(read_ratio(p.model_price@, zero()), dec_of(500_000)) {
            Some(x) => match dec_mul(x, group_ratio) {
                Some(q) => Some(
                    match dec_to_u64(dec_round(q)) {
                        Some(v) => v,
                        None => 0,
                    },
                ),
                None => None,
            },
            None => None,
        },
{
}

// ---------------------------------------------------------------------------
// The estimate over the request log
// ---------------------------------------------------------------------------
/// One logged request as the estimate reads it: its cost at the official
/// price is `None` where no local price matches its model.
pub struct UsageLogEntry {
    pub app_type: String,
    pub model: String,
    pub usage: TokenUsage,
    pub official_cost: Option<Dec>,
}

/// The running sums of the estimate.
#[derive(Debug, Clone, Copy, PartialEq, Eq, Structural)]
pub struct UsageTally {
    pub official: Dec,
    pub bistrocode: Dec,
    pub quota: u64,
    pub priced: u64,
    pub unpriced: u64,
}

/// `a + b` for quota counts, held at `u64::MAX`.
pub open spec fn saturating_sum(a: u64, b: u64) -> u64 {
    if a + b > u64::MAX {
        u64::MAX
    } else {
        (a + b) as u64
    }
}

/// The sums after one more request; `None` where the Decimal arithmetic
/// leaves its range.
pub open spec fn tally_step(t: UsageTally, e: UsageLogEntry, models: Seq<BistroCodePricingModel>, group_ratio: Dec) -> Option<UsageTally> {
    match e.official_cost {
        None => Some(UsageTally { unpriced: (t.unpriced + 1) as u64, ..t }),
        Some(c) => match dec_add(t.official, c) {
            None => None,
            Some(o) => match pricing_index(models, e.model@) {
                None => Some(UsageTally { official: o, unpriced: (t.unpriced + 1) as u64, ..t }),
                Some(i) => match quota_estimate(e.app_type@, e.usage, models[i], group_ratio) {
                    None => None,
                    Some(q) => match dec_div(dec_of(q), dec_of(BISTROCODE_QUOTA_PER_USD)) {
                        None => None,
                        Some(share) => match dec_add(t.bistrocode, share) {
                            None => None,
                            Some(b) => Some(UsageTally {
                                official: o,
                                bistrocode: b,
                                quota: saturating_sum(t.quota, q),
                                priced: (t.priced + 1) as u64,
                                unpriced: t.unpriced,
                            }),
                        },
                    },
                },
            },
        },
    }
}

/// The sums before any request.
pub open spec fn empty_tally() -> UsageTally {
    UsageTally { official: zero(), bistrocode: zero(), quota: 0, priced: 0, unpriced: 0 }
}

/// The sums over the requests of `logs`, in order.
pub open spec fn tally(logs: Seq<UsageLogEntry>, models: Seq<BistroCodePricingModel>, group_ratio: Dec) -> Option<UsageTally>
    decreases logs.len(),
{
    if logs.len() == 0 {
        Some(empty_tally())
    } else {
        match tally(logs.drop_last(), models, group_ratio) {
            None => None,
            Some(t) => tally_step(t, logs.last(), models, group_ratio),
        }
    }
}

/// What the official price would cost beyond the BistroCode price, zero
/// where it costs no more.
pub open spec fn savings(t: UsageTally) -> Option<Dec> {
    if dec_gt(t.official, t.bistrocode) {
        dec_sub(t.official, t.bistrocode)
    } else {
        Some(zero())
    }
}

/// The group ratio of the pricing service's default group, read from its
/// decimal text; `0.2` where the text is not a decimal number.
pub open spec fn default_group_ratio(text: Seq<char>) -> Dec {
    ratio_dec(text, Dec { mantissa: 2, scale: 1 })
}

/// The estimate reports the sums `t`, the savings `s` and the totals of the
/// usage summary.
pub open spec fn estimate_reports(e: BistroCodeUsageEstimate, t: UsageTally, s: Dec, total_requests: u64, total_tokens: u64) -> bool {
    &&& e.official_cost_usd@ == dec_fixed6(t.official)
    &&& e.bistrocode_cost_usd@ == dec_fixed6(t.bistrocode)
    &&& e.estimated_savings_usd@ == dec_fixed6(s)
    &&& e.bistrocode_quota_used == t.quota
    &&& e.priced_requests == t.priced
    &&& e.unpriced_requests == t.unpriced
    &&& e.total_requests == total_requests
    &&& e.official_total_tokens == total_tokens
    &&& e.bistrocode_total_tokens == total_tokens
}

/// Every official cost in the log is a Decimal in range.
pub open spec fn costs_ok(logs: Seq<UsageLogEntry>) -> bool {
    forall|i: int| 0 <= i < logs.len() ==> ((#[trigger] logs[i]).official_cost matches Some(c) ==> dec_ok(c))
}

proof fn lemma_tally_none(logs: Seq<UsageLogEntry>, models: Seq<BistroCodePricingModel>, gr: Dec, i: int)
    requires
        0 <= i <= logs.len(),
        tally(logs.take(i), models, gr) is None,
    ensures
        tally(logs, models, gr) is None,
    decreases logs.len() - i,
{
    if i < logs.len() {
        assert(logs.take(i + 1).drop_last() =~= logs.take(i));
        lemma_tally_none(logs, models, gr, i + 1);
    } else {
        assert(logs.take(i) =~= logs);
    }
}

/// Every logged request is counted once, as priced or as unpriced.
pub proof fn law_requests_counted_once(logs: Seq<UsageLogEntry>, models: Seq<BistroCodePricingModel>, group_ratio: Dec)
    requires
        logs.len() < u64::MAX,
    ensures
        tally(logs, models, group_ratio) matches Some(t) ==> t.priced + t.unpriced == logs.len(),
    decreases logs.len(),
{
    if logs.len() > 0 {
        law_requests_counted_once(logs.drop_last(), models, group_ratio);
    }
}

/// The sums after one more request.
fn tally_one(t: UsageTally, e: &UsageLogEntry, models: &[BistroCodePricingModel], group_ratio: Dec) -> (r: Option<UsageTally>)
    requires
        dec_ok(t.official),
        dec_ok(t.bistrocode),
        dec_ok(group_ratio),
        t.priced + t.unpriced < u64::MAX,
        e.official_cost matches Some(c) ==> dec_ok(c),
    ensures
        r == tally_step(t, *e, models@, group_ratio),
        r matches Some(x) ==> dec_ok(x.official) && dec_ok(x.bistrocode) && x.priced + x.unpriced == t.priced + t.unpriced + 1,
{
    let c = match e.official_cost {
        None => {
            return Some(UsageTally { unpriced: t.unpriced + 1, ..t });
        },
        Some(c) => c,
    };
    let o = match checked_add(t.official, c) {
        None => {
            return None;
        },
        Some(o) => o,
    };
    let p = match find_bistrocode_pricing(models, e.model.as_str()) {
        None => {
            return Some(UsageTally { official: o, unpriced: t.unpriced + 1, ..t });
        },
        Some(p) => p,
    };
    let q = match estimate_bistrocode_quota(e.app_type.as_str(), &e.usage, p, group_ratio) {
        None => {
            return None;
        },
        Some(q) => q,
    };
    let share = match checked_div(from_u64(q), from_u64(BISTROCODE_QUOTA_PER_USD)) {
        None => {
            return None;
        },
        Some(share) => share,
    };
    match checked_add(t.bistrocode, share) {
        None => None,
        Some(b) => Some(UsageTally {
            official: o,
            bistrocode: b,
            quota: t.quota.saturating_add(q),
            priced: t.priced + 1,
            unpriced: t.unpriced,
        }),
    }
}

/// What the logged requests would have cost on BistroCode, beside what they
/// cost at the official prices. `default_group_ratio` is the text of the
/// default group's ratio; `total_requests` and `total_tokens` come from the
/// usage summary of the same period. `None` where the Decimal arithmetic
/// leaves its range, or where a sum is too large for rust_decimal to write
/// with six decimals (an integer part of more than 25 digits).
pub fn bistrocode_usage_estimate(
    logs: &[UsageLogEntry],
    models: &[BistroCodePricingModel],
    default_group_ratio_text: &str,
    total_requests: u64,
    total_tokens: u64,
) -> (r: Option<BistroCodeUsageEstimate>)
    requires
        costs_ok(logs@),
    ensures
        match tally(logs@, models@, default_group_ratio(default_group_ratio_text@)) {
            None => r is None,
            Some(t) => match savings(t) {
                None => r is None,
                Some(s) => if fits_fixed6(t.official) && fits_fixed6(t.bistrocode) && fits_fixed6(s) {
                    r matches Some(e) && estimate_reports(e, t, s, total_requests, total_tokens)
                } else {
                    r is None
                },
            },
        },
        r matches Some(e) ==> e.priced_requests + e.unpriced_requests == logs@.len(),
{
    let group_ratio = decimal_from_text(default_group_ratio_text, Dec { mantissa: 2, scale: 1 });
    let ghost gr = group_ratio;
    let mut t = UsageTally {
        official: Dec { mantissa: 0, scale: 0 },
        bistrocode: Dec { mantissa: 0, scale: 0 },
        quota: 0,
        priced: 0,
        unpriced: 0,
    };
    let mut i: usize = 0;
    proof {
        assert(logs@.take(0) =~= Seq::<UsageLogEntry>::empty());
    }
    while i < logs.len()
        invariant
            i <= logs@.len(),
            costs_ok(logs@),
            dec_ok(group_ratio),
            gr == group_ratio,
            gr == default_group_ratio(default_group_ratio_text@),
            tally(logs@.take(i as int), models@, gr) == Some(t),
            dec_ok(t.official),
            dec_ok(t.bistrocode),
            t.priced + t.unpriced == i,
        decreases logs@.len() - i,
    {
        assert(logs@.take(i as int + 1).drop_last() =~= logs@.take(i as int));
        assert(logs@.take(i as int + 1).last() == logs@[i as int]);
        match tally_one(t, &logs[i], models, group_ratio) {
            None => {
                proof {
                    lemma_tally_none(logs@, models@, gr, i as int + 1);
                }
                return None;
            },
            Some(n) => {
                t = n;
            },
        }
        i = i + 1;
    }
    proof {
        assert(logs@.take(logs@.len() as int) =~= logs@);
    }
    let s = if greater(t.official, t.bistrocode) {
        match checked_sub(t.official, t.bistrocode) {
            None => {
                return None;
            },
            Some(s) => s,
        }
    } else {
        Dec { mantissa: 0, scale: 0 }
    };
    if !(fits_fixed6_exec(t.official) && fits_fixed6_exec(t.bistrocode) && fits_fixed6_exec(s)) {
        return None;
    }
    Some(BistroCodeUsageEstimate {
        official_cost_usd: format_fixed6(t.official),
        bistrocode_cost_usd: format_fixed6(t.bistrocode),
        estimated_savings_usd: format_fixed6(s),
        bistrocode_quota_used: t.quota,
        priced_requests: t.priced,
        unpriced_requests: t.unpriced,
        total_requests,
        official_total_tokens: total_tokens,
        bistrocode_total_tokens: total_tokens,
    })
}

// ---------------------------------------------------------------------------
// Checking a model price entered by the user
// ---------------------------------------------------------------------------
/// An error with the key of its translation and its Chinese and English text.
pub struct LocalizedError {
    pub key: String,
    pub zh: String,
    pub en: String,
}

/// The key and the two texts of an error.
pub open spec fn error_view(e: LocalizedError) -> (Seq<char>, Seq<char>, Seq<char>) {
    (e.key@, e.zh@, e.en@)
}

/// The error for a price text that is not a non-negative decimal number,
/// `None` for one that is. The number is read from the trimmed text; the
/// messages quote the text as it was entered.
pub open spec fn price_error(label: Seq<char>, value: Seq<char>) -> Option<(Seq<char>, Seq<char>, Seq<char>)> {
    match dec_from_str(trim(value)) {
        Err(e) => Some((
            "usage.invalidPrice"@,
            label + " 价格无效: "@ + value + " - "@ + e,
            label + " price is invalid: "@ + value + " - "@ + e,
        )),
        Ok(d) => if d.mantissa < 0 {
            Some((
                "usage.invalidPrice"@,
                label + " 价格必须为非负数: "@ + value,
                label + " price must be non-negative: "@ + value,
            ))
        } else {
            None
        },
    }
}

/// The outcome of checking a model price: the error for the first field at
/// fault, else the price with its fields trimmed.
pub open spec fn pricing_check(
    model_id: Seq<char>,
    display_name: Seq<char>,
    input_cost: Seq<char>,
    output_cost: Seq<char>,
    cache_read_cost: Seq<char>,
    cache_creation_cost: Seq<char>,
) -> Result<Seq<Seq<char>>, (Seq<char>, Seq<char>, Seq<char>)> {
    if trim(model_id).len() == 0 {
        Err(("usage.modelIdRequired"@, "模型 ID 不能为空"@, "Model ID is required"@))
    } else if trim(display_name).len() == 0 {
        Err(("usage.displayNameRequired"@, "显示名称不能为空"@, "Display name is required"@))
    } else if price_error("input_cost"@, input_cost) is Some {
        Err(price_error("input_cost"@, input_cost).unwrap())
    } else if price_error("output_cost"@, output_cost) is Some {
        Err(price_error("output_cost"@, output_cost).unwrap())
    } else if price_error("cache_read_cost"@, cache_read_cost) is Some {
        Err(price_error("cache_read_cost"@, cache_read_cost).unwrap())
    } else if price_error("cache_creation_cost"@, cache_creation_cost) is Some {
        Err(price_error("cache_creation_cost"@, cache_creation_cost).unwrap())
    } else {
        Ok(seq![
            trim(model_id),
            trim(display_name),
            trim(input_cost),
            trim(output_cost),
            trim(cache_read_cost),
            trim(cache_creation_cost),
        ])
    }
}

/// The fields of a model price, in order.
pub open spec fn pricing_fields(p: ModelPricingInfo) -> Seq<Seq<char>> {
    seq![
        p.model_id@,
        p.display_name@,
        p.input_cost_per_million@,
        p.output_cost_per_million@,
        p.cache_read_cost_per_million@,
        p.cache_creation_cost_per_million@,
    ]
}

fn concat4(a: &str, b: &str, c: &str, d: &str) -> (r: String)
    ensures
        r@ == a@ + b@ + c@ + d@,
{
    let ab = concat(a, b);
    let abc = concat(ab.as_str(), c);
    concat(abc.as_str(), d)
}

fn localized(key: &str, zh: String, en: String) -> (r: LocalizedError)
    ensures
        error_view(r) == (key@, zh@, en@),
{
    LocalizedError { key: key.to_string(), zh, en }
}

/// The error for a price text that is not a non-negative decimal number.
fn check_price(label: &str, value: &str) -> (r: Option<LocalizedError>)
    ensures
        match r {
            Some(e) => price_error(label@, value@) == Some(error_view(e)),
            None => price_error(label@, value@) is None,
        },
{
    proof {
        reveal_strlit("usage.invalidPrice");
        reveal_strlit(" 价格无效: ");
        reveal_strlit(" price is invalid: ");
        reveal_strlit(" - ");
        reveal_strlit(" 价格必须为非负数: ");
        reveal_strlit(" price must be non-negative: ");
    }
    let t = trim_str(value);
    match parse_decimal(t.as_str()) {
        Err(e) => {
            let zh0 = concat4(label, " 价格无效: ", value, " - ");
            let en0 = concat4(label, " price is invalid: ", value, " - ");
            Some(localized("usage.invalidPrice", concat(zh0.as_str(), e.as_str()), concat(en0.as_str(), e.as_str())))
        },
        Ok(d) => if is_negative(d) {
            let zh0 = concat(label, " 价格必须为非负数: ");
            let en0 = concat(label, " price must be non-negative: ");
            Some(localized("usage.invalidPrice", concat(zh0.as_str(), value), concat(en0.as_str(), value)))
        } else {
            None
        },
    }
}

/// Checks a model price entered by the user (`update_model_pricing`): the id
/// and the display name must not be blank, and each cost must read as a
/// non-negative decimal number. Gives the price to store, each field trimmed.
pub fn validate_model_pricing(
    model_id: &str,
    display_name: &str,
    input_cost: &str,
    output_cost: &str,
    cache_read_cost: &str,
    cache_creation_cost: &str,
) -> (r: Result<ModelPricingInfo, LocalizedError>)
    ensures
        match r {
            Ok(p) => pricing_check(model_id@, display_name@, input_cost@, output_cost@, cache_read_cost@, cache_creation_cost@)
                == Ok::<Seq<Seq<char>>, (Seq<char>, Seq<char>, Seq<char>)>(pricing_fields(p)),
            Err(e) => pricing_check(model_id@, display_name@, input_cost@, output_cost@, cache_read_cost@, cache_creation_cost@)
                == Err::<Seq<Seq<char>>, (Seq<char>, Seq<char>, Seq<char>)>(error_view(e)),
        },
{
    proof {
        reveal_strlit("usage.modelIdRequired");
        reveal_strlit("模型 ID 不能为空");
        reveal_strlit("Model ID is required");
        reveal_strlit("usage.displayNameRequired");
        reveal_strlit("显示名称不能为空");
        reveal_strlit("Display name is required");
        reveal_strlit("input_cost");
        reveal_strlit("output_cost");
        reveal_strlit("cache_read_cost");
        reveal_strlit("cache_creation_cost");
    }
    let id = trim_str(model_id);
    let name = trim_str(display_name);
    if id.as_str().unicode_len() == 0 {
        return Err(localized("usage.modelIdRequired", "模型 ID 不能为空".to_string(), "Model ID is required".to_string()));
    }
    if name.as_str().unicode_len() == 0 {
        return Err(localized("usage.displayNameRequired", "显示名称不能为空".to_string(), "Display name is required".to_string()));
    }
    if let Some(e) = check_price("input_cost", input_cost) {
        return Err(e);
    }
    if let Some(e) = check_price("output_cost", output_cost) {
        return Err(e);
    }
    if let Some(e) = check_price("cache_read_cost", cache_read_cost) {
        return Err(e);
    }
    if let Some(e) = check_price("cache_creation_cost", cache_creation_cost) {
        return Err(e);
    }
    let r = ModelPricingInfo {
        model_id: id,
        display_name: name,
        input_cost_per_million: trim_str(input_cost),
        output_cost_per_million: trim_str(output_cost),
        cache_read_cost_per_million: trim_str(cache_read_cost),
        cache_creation_cost_per_million: trim_str(cache_creation_cost),
    };
    proof {
        assert(pricing_fields(r) =~= seq![
            trim(model_id@),
            trim(display_name@),
            trim(input_cost@),
            trim(output_cost@),
            trim(cache_read_cost@),
            trim(cache_creation_cost@),
        ]);
    }
    Ok(r)
}

} // verus!
