//! Sanitized Codex account-usage state shared with the dsh web process.
//!
//! Only display-safe account metadata and aggregate usage values are kept:
//! the snapshot is built from app-server responses by the functions below,
//! each of which states exactly which fields of the response it reads.
use vstd::prelude::*;

use crate::json::{opt_chars, or_null, JsonValue};
use crate::order::{insert_by_key, lex_le, lex_lt, sort_by_key, sorted_by_key, stable_sorted, Keyed};
use crate::strmap::StrMap;
use crate::text::str_eq;

verus! {

broadcast use vstd::string::group_string_axioms;

/// The current Unix time in milliseconds, as the system clock reports it.
#[verifier::external_body]
fn system_time_millis() -> u128 {
    std::time::SystemTime::now().duration_since(std::time::UNIX_EPOCH).map(|d| d.as_millis()).unwrap_or(0)
}

/// Milliseconds as a `u64`: the largest `u64` when they do not fit.
pub fn saturate_millis(ms: u128) -> (r: u64)
    ensures
        r == (if ms > u64::MAX {
            u64::MAX
        } else {
            ms as u64
        }),
{
    if ms > 0xffff_ffff_ffff_ffff {
        0xffff_ffff_ffff_ffff
    } else {
        ms as u64
    }
}

/// The current Unix time in milliseconds, saturated to `u64`. The clock's
/// reading itself is not stated.
pub fn now_millis() -> u64 {
    saturate_millis(system_time_millis())
}

#[derive(Debug)]
pub struct CodexRateLimitWindow {
    pub used_percent: i64,
    /// Derived display value: the service reports only `usedPercent`.
    pub remaining_percent: i64,
    pub resets_at: Option<i64>,
    pub window_duration_mins: Option<i64>,
}

#[derive(Debug)]
pub struct CodexRateLimitBucket {
    pub id: String,
    pub name: Option<String>,
    pub plan_type: Option<String>,
    pub primary: Option<CodexRateLimitWindow>,
    pub secondary: Option<CodexRateLimitWindow>,
    pub reached_type: Option<String>,
}

impl Keyed for CodexRateLimitBucket {
    open spec fn key_of(&self) -> Seq<char> {
        self.id@
    }

    fn key(&self) -> (r: &str) {
        self.id.as_str()
    }
}

#[derive(Debug)]
pub struct CodexCredits {
    pub has_credits: bool,
    pub unlimited: bool,
    pub balance: Option<String>,
}

#[derive(Debug)]
pub struct CodexResetCredits {
    pub available_count: u64,
}

#[derive(Debug)]
pub struct CodexDailyUsage {
    pub start_date: String,
    pub tokens: u64,
}

#[derive(Debug)]
pub struct CodexAccountUsage {
    pub lifetime_tokens: Option<u64>,
    pub peak_daily_tokens: Option<u64>,
    pub longest_running_turn_sec: Option<u64>,
    pub current_streak_days: Option<u64>,
    pub longest_streak_days: Option<u64>,
    pub daily_buckets: Vec<CodexDailyUsage>,
}

#[derive(Debug, Clone, Copy)]
pub struct CodexTokenUsage {
    pub input_tokens: u64,
    pub cached_input_tokens: u64,
    pub output_tokens: u64,
    pub reasoning_output_tokens: u64,
    pub total_tokens: u64,
}

#[derive(Debug)]
pub struct CodexThreadUsage {
    pub turn_id: String,
    pub total: CodexTokenUsage,
    pub last: CodexTokenUsage,
    pub model_context_window: Option<u64>,
    pub updated_at: u64,
}

#[derive(Debug)]
pub struct CodexUsageSnapshot {
    pub backend: String,
    pub phase: String,
    pub cli_version: Option<String>,
    pub required_cli_version: String,
    pub app_server_running: bool,
    pub auth_mode: Option<String>,
    pub managed_install: bool,
    pub state: String,
    pub plan_type: Option<String>,
    pub email: Option<String>,
    pub updated_at: u64,
    pub buckets: Vec<CodexRateLimitBucket>,
    pub credits: Option<CodexCredits>,
    pub reset_credits: Option<CodexResetCredits>,
    pub account_usage: Option<CodexAccountUsage>,
    pub thread_usage: StrMap<CodexThreadUsage>,
    pub error: Option<String>,
}

/// `x.clamp(0, 100)`.
pub open spec fn percent_clamp(x: i64) -> i64 {
    if x < 0 {
        0
    } else if x > 100 {
        100
    } else {
        x
    }
}

/// The rate-limit window that a `primary`/`secondary` object describes:
/// present exactly when `usedPercent` is an integer.
pub open spec fn window_of(v: JsonValue) -> Option<CodexRateLimitWindow> {
    match v.field_i64("usedPercent"@) {
        Some(u) => Some(
            CodexRateLimitWindow {
                used_percent: percent_clamp(u),
                remaining_percent: (100 - percent_clamp(u)) as i64,
                resets_at: v.field_i64("resetsAt"@),
                window_duration_mins: v.field_i64("windowDurationMins"@),
            },
        ),
        None => None,
    }
}

/// A window exists exactly when `usedPercent` is an integer. Its used share
/// is that integer held within 0 to 100, the remaining share is what is
/// left of 100, and `resetsAt` and `windowDurationMins` are the integers at
/// those keys of the same object.
pub proof fn law_window_reads_its_members(v: JsonValue)
    ensures
        window_of(v) is Some <==> v.field_i64("usedPercent"@) is Some,
        window_of(v) is Some ==> {
            let w = window_of(v)->0;
            let u = v.field_i64("usedPercent"@)->0;
            &&& 0 <= w.used_percent <= 100
            &&& w.used_percent + w.remaining_percent == 100
            &&& 0 <= u <= 100 ==> w.used_percent == u
            &&& u < 0 ==> w.used_percent == 0
            &&& u > 100 ==> w.used_percent == 100
            &&& w.resets_at == v.field_i64("resetsAt"@)
            &&& w.window_duration_mins == v.field_i64("windowDurationMins"@)
        },
{
}

/// Token counts exist exactly when all five counts are integers, and each
/// count is the integer at its own key.
pub proof fn law_token_usage_reads_its_members(v: JsonValue)
    ensures
        token_usage_of(v) is Some <==> (v.field_u64("inputTokens"@) is Some && v.field_u64(
            "cachedInputTokens"@,
        ) is Some && v.field_u64("outputTokens"@) is Some && v.field_u64(
            "reasoningOutputTokens"@,
        ) is Some && v.field_u64("totalTokens"@) is Some),
        token_usage_of(v) is Some ==> {
            let t = token_usage_of(v)->0;
            &&& Some(t.input_tokens) == v.field_u64("inputTokens"@)
            &&& Some(t.cached_input_tokens) == v.field_u64("cachedInputTokens"@)
            &&& Some(t.output_tokens) == v.field_u64("outputTokens"@)
            &&& Some(t.reasoning_output_tokens) == v.field_u64("reasoningOutputTokens"@)
            &&& Some(t.total_tokens) == v.field_u64("totalTokens"@)
        },
{
}

/// A bucket read from a rate-limit object takes its id from `limitId` (else
/// the key it was listed under, else `codex`), its name, plan type and
/// reached type from `limitName`, `planType` and `rateLimitReachedType`, and
/// its windows from `primary` and `secondary`.
pub proof fn law_bucket_reads_its_members(b: CodexRateLimitBucket, v: JsonValue, fallback: Option<Seq<char>>)
    requires
        bucket_matches(b, v, fallback),
    ensures
        v.field_str("limitId"@) is Some ==> b.id@ == v.field_str("limitId"@)->0,
        v.field_str("limitId"@) is None && fallback is Some ==> b.id@ == fallback->0,
        v.field_str("limitId"@) is None && fallback is None ==> b.id@ == "codex"@,
        opt_chars(b.name) == v.field_str("limitName"@),
        opt_chars(b.plan_type) == v.field_str("planType"@),
        opt_chars(b.reached_type) == v.field_str("rateLimitReachedType"@),
        v.field("primary"@) is None ==> b.primary is None,
        v.field("primary"@) is Some ==> b.primary == window_of(v.field("primary"@)->0),
        v.field("secondary"@) is None ==> b.secondary is None,
        v.field("secondary"@) is Some ==> b.secondary == window_of(v.field("secondary"@)->0),
{
}

/// `window_of` applied to an optional member.
pub open spec fn window_at(o: Option<JsonValue>) -> Option<CodexRateLimitWindow> {
    match o {
        Some(v) => window_of(v),
        None => None,
    }
}

/// The bucket id: `limitId`, else the fallback, else `codex`.
pub open spec fn bucket_id_of(v: JsonValue, fallback: Option<Seq<char>>) -> Seq<char> {
    match v.field_str("limitId"@) {
        Some(id) => id,
        None => match fallback {
            Some(f) => f,
            None => "codex"@,
        },
    }
}

/// `b` is the bucket that the rate-limit object `v` describes.
pub open spec fn bucket_matches(
    b: CodexRateLimitBucket,
    v: JsonValue,
    fallback: Option<Seq<char>>,
) -> bool {
    &&& b.id@ == bucket_id_of(v, fallback)
    &&& opt_chars(b.name) == v.field_str("limitName"@)
    &&& opt_chars(b.plan_type) == v.field_str("planType"@)
    &&& b.primary == window_at(v.field("primary"@))
    &&& b.secondary == window_at(v.field("secondary"@))
    &&& opt_chars(b.reached_type) == v.field_str("rateLimitReachedType"@)
}

/// The credits that a rate-limit object carries: `credits` must be an object
/// with boolean `hasCredits` and `unlimited`.
pub open spec fn credits_of(v: JsonValue) -> Option<(bool, bool, Option<Seq<char>>)> {
    match v.field("credits"@) {
        Some(c) => match (c.field_bool("hasCredits"@), c.field_bool("unlimited"@)) {
            (Some(h), Some(u)) => Some((h, u, c.field_str("balance"@))),
            _ => None,
        },
        None => None,
    }
}

/// Credits are read exactly when `credits` has boolean `hasCredits` and
/// `unlimited`; they are those booleans and the `balance` string.
pub proof fn law_credits_read_their_members(v: JsonValue)
    ensures
        credits_of(v) is Some <==> (v.field("credits"@) is Some && v.field("credits"@)->0.field_bool(
            "hasCredits"@,
        ) is Some && v.field("credits"@)->0.field_bool("unlimited"@) is Some),
        credits_of(v) is Some ==> {
            let (has, unlimited, balance) = credits_of(v)->0;
            let c = v.field("credits"@)->0;
            &&& c.field_bool("hasCredits"@) == Some(has)
            &&& c.field_bool("unlimited"@) == Some(unlimited)
            &&& c.field_str("balance"@) == balance
        },
{
}

/// `c` holds the credits `t`.
pub open spec fn credits_match(c: CodexCredits, t: (bool, bool, Option<Seq<char>>)) -> bool {
    c.has_credits == t.0 && c.unlimited == t.1 && opt_chars(c.balance) == t.2
}

/// Where the credits of the bucket `id` are read: its own entry of
/// `rateLimitsByLimitId`, else the single `rateLimits` object.
pub open spec fn credits_source(response: JsonValue, id: Seq<char>) -> Option<JsonValue> {
    match response.field2("rateLimitsByLimitId"@, id) {
        Some(v) => Some(v),
        None => response.field("rateLimits"@),
    }
}

/// The credits of the first bucket (in order) whose source carries credits.
pub open spec fn first_credits(bs: Seq<CodexRateLimitBucket>, response: JsonValue) -> Option<
    (bool, bool, Option<Seq<char>>),
>
    decreases bs.len(),
{
    if bs.len() == 0 {
        None
    } else {
        match credits_source(response, bs[0].id@) {
            Some(src) => match credits_of(src) {
                Some(c) => Some(c),
                None => first_credits(bs.drop_first(), response),
            },
            None => first_credits(bs.drop_first(), response),
        }
    }
}

/// The plan type of the first bucket (in order) that names one.
pub open spec fn first_plan(bs: Seq<CodexRateLimitBucket>) -> Option<Seq<char>>
    decreases bs.len(),
{
    if bs.len() == 0 {
        None
    } else {
        match opt_chars(bs[0].plan_type) {
            Some(p) => Some(p),
            None => first_plan(bs.drop_first()),
        }
    }
}

/// The rate-limit objects of `rateLimitsByLimitId`, with their keys as fallback ids.
pub open spec fn keyed_sources(pairs: Seq<(Seq<char>, JsonValue)>) -> Seq<
    (JsonValue, Option<Seq<char>>),
>
    decreases pairs.len(),
{
    if pairs.len() == 0 {
        Seq::empty()
    } else {
        let rest = keyed_sources(pairs.drop_last());
        if pairs.last().1 is Object {
            rest.push((pairs.last().1, Some(pairs.last().0)))
        } else {
            rest
        }
    }
}

/// The rate-limit objects that a `account/rateLimits/read` response yields
/// buckets for: the entries of `rateLimitsByLimitId`, or, when none of them is
/// an object, the single `rateLimits` object.
pub open spec fn bucket_sources(response: JsonValue) -> Seq<(JsonValue, Option<Seq<char>>)> {
    let by_id = match response.field("rateLimitsByLimitId"@) {
        Some(JsonValue::Object(m)) => keyed_sources(m.pairs()),
        _ => Seq::empty(),
    };
    if by_id.len() > 0 {
        by_id
    } else {
        match response.field("rateLimits"@) {
            Some(v) => if v is Object {
                seq![(v, None::<Seq<char>>)]
            } else {
                Seq::empty()
            },
            None => Seq::empty(),
        }
    }
}

/// The token counts of a `tokenUsage.total`/`last` object: all five present.
pub open spec fn token_usage_of(v: JsonValue) -> Option<CodexTokenUsage> {
    match (
        v.field_u64("inputTokens"@),
        v.field_u64("cachedInputTokens"@),
        v.field_u64("outputTokens"@),
        v.field_u64("reasoningOutputTokens"@),
        v.field_u64("totalTokens"@),
    ) {
        (Some(a), Some(b), Some(c), Some(d), Some(e)) => Some(
            CodexTokenUsage {
                input_tokens: a,
                cached_input_tokens: b,
                output_tokens: c,
                reasoning_output_tokens: d,
                total_tokens: e,
            },
        ),
        _ => None,
    }
}

/// `token_usage_of` applied to an optional member.
pub open spec fn token_usage_at(o: Option<JsonValue>) -> Option<CodexTokenUsage> {
    match o {
        Some(v) => token_usage_of(v),
        None => None,
    }
}

/// The daily buckets of `dailyUsageBuckets`: each item with a string
/// `startDate` and an integer `tokens`, in order.
pub open spec fn daily_of(items: Seq<JsonValue>) -> Seq<(Seq<char>, u64)>
    decreases items.len(),
{
    if items.len() == 0 {
        Seq::empty()
    } else {
        let rest = daily_of(items.drop_last());
        match (items.last().field_str("startDate"@), items.last().field_u64("tokens"@)) {
            (Some(d), Some(t)) => rest.push((d, t)),
            _ => rest,
        }
    }
}

/// The daily items of an `account/usage/read` response.
pub open spec fn daily_items(response: JsonValue) -> Seq<JsonValue> {
    match response.field("dailyUsageBuckets"@) {
        Some(JsonValue::Array(l)) => l.items(),
        _ => Seq::empty(),
    }
}

/// Each daily bucket comes from an item with a `startDate` string and a
/// `tokens` count, which it copies, and the buckets keep the items' order.
pub proof fn law_daily_buckets_copy_their_items(items: Seq<JsonValue>)
    ensures
        daily_of(items).len() <= items.len(),
        forall|k: int|
            #![trigger daily_of(items)[k]]
            0 <= k < daily_of(items).len() ==> exists|j: int|
                0 <= j < items.len() && #[trigger] items[j].field_str("startDate"@) == Some(
                    daily_of(items)[k].0,
                ) && items[j].field_u64("tokens"@) == Some(daily_of(items)[k].1),
        (forall|j: int|
            0 <= j < items.len() ==> (#[trigger] items[j]).field_str("startDate"@) is Some
                && items[j].field_u64("tokens"@) is Some) ==> daily_of(items).len() == items.len(),
    decreases items.len(),
{
    if items.len() > 0 {
        let rest = items.drop_last();
        law_daily_buckets_copy_their_items(rest);
        let d = daily_of(items);
        let dr = daily_of(rest);
        assert forall|k: int| #![trigger d[k]] 0 <= k < d.len() implies exists|j: int|
            0 <= j < items.len() && #[trigger] items[j].field_str("startDate"@) == Some(d[k].0)
                && items[j].field_u64("tokens"@) == Some(d[k].1) by {
            if k < dr.len() {
                assert(d[k] == dr[k]);
                let j = choose|j: int|
                    0 <= j < rest.len() && #[trigger] rest[j].field_str("startDate"@) == Some(dr[k].0)
                        && rest[j].field_u64("tokens"@) == Some(dr[k].1);
                assert(items[j] == rest[j]);
            } else {
                assert(items[items.len() - 1] == items.last());
            }
        }
        if forall|j: int|
            0 <= j < items.len() ==> (#[trigger] items[j]).field_str("startDate"@) is Some
                && items[j].field_u64("tokens"@) is Some {
            assert forall|j: int| 0 <= j < rest.len() implies (#[trigger] rest[j]).field_str(
                "startDate"@,
            ) is Some && rest[j].field_u64("tokens"@) is Some by {
                assert(rest[j] == items[j]);
            }
            assert(items[items.len() - 1] == items.last());
        }
    }
}

/// The fields of the snapshot that a rate-limit update leaves alone.
pub open spec fn same_identity(a: CodexUsageSnapshot, b: CodexUsageSnapshot) -> bool {
    &&& a.backend == b.backend
    &&& a.phase == b.phase
    &&& a.cli_version == b.cli_version
    &&& a.required_cli_version == b.required_cli_version
    &&& a.app_server_running == b.app_server_running
    &&& a.auth_mode == b.auth_mode
    &&& a.managed_install == b.managed_install
    &&& a.email == b.email
}

/// The effect of an `account/rateLimits/updated` notification on a snapshot.
pub open spec fn rate_limit_notification_effect(
    old: CodexUsageSnapshot,
    new: CodexUsageSnapshot,
    params: JsonValue,
    now: u64,
) -> bool {
    match params.field("rateLimits"@) {
        Some(v) => if v is Object {
            exists|b: CodexRateLimitBucket|
                bucket_matches(b, v, None) && (if exists|i: int|
                    0 <= i < old.buckets@.len() && (#[trigger] old.buckets@[i]).id@ == b.id@ {
                    let i = choose|i: int|
                        0 <= i < old.buckets@.len() && (#[trigger] old.buckets@[i]).id@ == b.id@ && forall|j: int|
                            0 <= j < i ==> (#[trigger] old.buckets@[j]).id@
                                != b.id@;
                    new.buckets@ == old.buckets@.update(i, b)
                } else {
                    new.buckets@.to_multiset() == old.buckets@.to_multiset().insert(b)
                }) && new.state@ == "ready"@ && new.error is None
                    && new == (CodexUsageSnapshot {
                    buckets: new.buckets,
                    state: new.state,
                    error: None,
                    updated_at: now,
                    ..old
                })
        } else {
            new == old
        },
        None => new == old,
    }
}

/// The effect of a `thread/tokenUsage/updated` notification on a snapshot.
pub open spec fn thread_usage_effect(
    old: CodexUsageSnapshot,
    new: CodexUsageSnapshot,
    params: JsonValue,
    now: u64,
) -> bool {
    ({
        let usage = params.field("tokenUsage"@);
        let complete = params.field_str("threadId"@) is Some && params.field_str(
            "turnId"@,
        ) is Some && usage is Some && token_usage_at(usage->0.field("total"@)) is Some
            && token_usage_at(usage->0.field("last"@)) is Some;
        if complete {
            let tid = params.field_str("threadId"@)->0;
            let u = new.thread_usage.view()[tid];
            &&& new.thread_usage.view() == old.thread_usage.view().insert(
                tid,
                u,
            )
            &&& u.turn_id@ == params.field_str("turnId"@)->0
            &&& Some(u.total) == token_usage_at(usage->0.field("total"@))
            &&& Some(u.last) == token_usage_at(usage->0.field("last"@))
            &&& u.model_context_window == usage->0.field_u64("modelContextWindow"@)
            &&& u.updated_at == now
            &&& new == (CodexUsageSnapshot {
                thread_usage: new.thread_usage,
                updated_at: now,
                ..old
            })
        } else {
            new == old
        }
    })
}

/// Parses one rate-limit window.
pub fn parse_window(value: &JsonValue) -> (r: Option<CodexRateLimitWindow>)
    ensures
        r == window_of(*value),
{
    match value.get_i64("usedPercent") {
        Some(u) => {
            let used = if u < 0 {
                0
            } else if u > 100 {
                100
            } else {
                u
            };
            Some(
                CodexRateLimitWindow {
                    used_percent: used,
                    remaining_percent: 100 - used,
                    resets_at: value.get_i64("resetsAt"),
                    window_duration_mins: value.get_i64("windowDurationMins"),
                },
            )
        },
        None => None,
    }
}

fn parse_window_at(value: Option<&JsonValue>) -> (r: Option<CodexRateLimitWindow>)
    ensures
        r == window_at(match value {
            Some(v) => Some(*v),
            None => None,
        }),
{
    match value {
        Some(v) => parse_window(v),
        None => None,
    }
}

/// Parses one rate-limit bucket; `None` exactly when `value` is not an object.
pub fn parse_bucket(value: &JsonValue, fallback_id: Option<&str>) -> (r: Option<
    CodexRateLimitBucket,
>)
    ensures
        r is Some <==> *value is Object,
        match r {
            Some(b) => bucket_matches(b, *value, crate::json::opt_str_chars(fallback_id)),
            None => true,
        },
{
    if !(match value {
        JsonValue::Object(_) => true,
        _ => false,
    }) {
        return None;
    }
    let id = match value.get_string("limitId") {
        Some(id) => id,
        None => match fallback_id {
            Some(f) => f.to_string(),
            None => "codex".to_string(),
        },
    };
    Some(
        CodexRateLimitBucket {
            id,
            name: value.get_string("limitName"),
            plan_type: value.get_string("planType"),
            primary: parse_window_at(value.get("primary")),
            secondary: parse_window_at(value.get("secondary")),
            reached_type: value.get_string("rateLimitReachedType"),
        },
    )
}

/// Parses the credits of a rate-limit object.
pub fn parse_credits(value: &JsonValue) -> (r: Option<CodexCredits>)
    ensures
        match r {
            Some(c) => credits_of(*value) is Some && credits_match(c, credits_of(*value)->0),
            None => credits_of(*value) is None,
        },
{
    let credits = match value.get("credits") {
        Some(c) => c,
        None => return None,
    };
    let has_credits = match credits.get_bool("hasCredits") {
        Some(b) => b,
        None => return None,
    };
    let unlimited = match credits.get_bool("unlimited") {
        Some(b) => b,
        None => return None,
    };
    Some(CodexCredits { has_credits, unlimited, balance: credits.get_string("balance") })
}

/// Parses the five token counts of a token-usage object.
pub fn parse_token_usage(value: &JsonValue) -> (r: Option<CodexTokenUsage>)
    ensures
        r == token_usage_of(*value),
{
    let a = match value.get_u64("inputTokens") {
        Some(x) => x,
        None => return None,
    };
    let b = match value.get_u64("cachedInputTokens") {
        Some(x) => x,
        None => return None,
    };
    let c = match value.get_u64("outputTokens") {
        Some(x) => x,
        None => return None,
    };
    let d = match value.get_u64("reasoningOutputTokens") {
        Some(x) => x,
        None => return None,
    };
    let e = match value.get_u64("totalTokens") {
        Some(x) => x,
        None => return None,
    };
    Some(
        CodexTokenUsage {
            input_tokens: a,
            cached_input_tokens: b,
            output_tokens: c,
            reasoning_output_tokens: d,
            total_tokens: e,
        },
    )
}

fn parse_token_usage_at(value: Option<&JsonValue>) -> (r: Option<CodexTokenUsage>)
    ensures
        r == token_usage_at(match value {
            Some(v) => Some(*v),
            None => None,
        }),
{
    match value {
        Some(v) => parse_token_usage(v),
        None => None,
    }
}

fn copy_opt_string(s: &Option<String>) -> (r: Option<String>)
    ensures
        r == *s,
{
    match s {
        Some(x) => Some(x.clone()),
        None => None,
    }
}

/// The first bucket with the given id.
fn bucket_position(buckets: &Vec<CodexRateLimitBucket>, id: &str) -> (r: Option<usize>)
    ensures
        match r {
            Some(i) => i < buckets@.len() && buckets@[i as int].id@ == id@ && forall|j: int|
                0 <= j < i ==> (#[trigger] buckets@[j]).id@ != id@,
            None => forall|j: int| 0 <= j < buckets@.len() ==> (#[trigger] buckets@[j]).id@ != id@,
        },
{
    let mut i: usize = 0;
    while i < buckets.len()
        invariant
            i <= buckets@.len(),
            forall|j: int| 0 <= j < i ==> (#[trigger] buckets@[j]).id@ != id@,
        decreases buckets.len() - i,
    {
        if str_eq(buckets[i].id.as_str(), id) {
            return Some(i);
        }
        i = i + 1;
    }
    None
}

impl Default for CodexUsageSnapshot {
    /// The snapshot before anything is known: dsh backend, idle, unavailable.
    fn default() -> (r: CodexUsageSnapshot)
        ensures
            r.wf(),
            r.backend@ == "dsh"@,
            r.phase@ == "idle"@,
            r.cli_version is None,
            r.required_cli_version@ == Seq::<char>::empty(),
            !r.app_server_running,
            r.auth_mode is None,
            !r.managed_install,
            r.state@ == "unavailable"@,
            r.plan_type is None,
            r.email is None,
            r.buckets@.len() == 0,
            r.credits is None,
            r.reset_credits is None,
            r.account_usage is None,
            r.thread_usage.view() == Map::<Seq<char>, CodexThreadUsage>::empty(),
            r.error is None,
    {
        CodexUsageSnapshot {
            backend: "dsh".to_string(),
            phase: "idle".to_string(),
            cli_version: None,
            required_cli_version: String::new(),
            app_server_running: false,
            auth_mode: None,
            managed_install: false,
            state: "unavailable".to_string(),
            plan_type: None,
            email: None,
            updated_at: now_millis(),
            buckets: Vec::new(),
            credits: None,
            reset_credits: None,
            account_usage: None,
            thread_usage: StrMap::new(),
            error: None,
        }
    }
}

/// The usage after an `account/rateLimits/read` response was applied to
/// `old`: the buckets are the response's, stably ordered by id; the credits of the
/// first bucket that has any; the reset credits; the plan type if none was
/// known; ready, without an error; identity and other usage kept.
pub open spec fn rate_limits_applied(
    old: CodexUsageSnapshot,
    new: CodexUsageSnapshot,
    response: JsonValue,
    now: u64,
) -> bool {
    &&& exists|c: Seq<CodexRateLimitBucket>|
        #![trigger c.to_multiset()]
        c.len() == bucket_sources(response).len() && (forall|i: int|
            0 <= i < c.len() ==> bucket_matches(
                #[trigger] c[i],
                bucket_sources(response)[i].0,
                bucket_sources(response)[i].1,
            )) && new.buckets@.to_multiset() == c.to_multiset() && new.buckets@ == stable_sorted(c)
    &&& match new.credits {
        Some(c) => first_credits(new.buckets@, response) is Some && credits_match(
            c,
            first_credits(new.buckets@, response)->0,
        ),
        None => first_credits(new.buckets@, response) is None,
    }
    &&& match new.reset_credits {
        Some(r) => response.field2("rateLimitResetCredits"@, "availableCount"@).is_some()
            && response.field2("rateLimitResetCredits"@, "availableCount"@)->0.u64_value() == Some(
            r.available_count,
        ),
        None => match response.field2("rateLimitResetCredits"@, "availableCount"@) {
            Some(v) => v.u64_value() is None,
            None => true,
        },
    }
    &&& old.plan_type is Some ==> new.plan_type == old.plan_type
    &&& old.plan_type is None ==> opt_chars(new.plan_type) == first_plan(new.buckets@)
    &&& new.state@ == "ready"@
    &&& new.error is None
    &&& same_identity(new, old)
    &&& new.account_usage == old.account_usage
    &&& new.thread_usage == old.thread_usage
    &&& new.updated_at == now
}

impl CodexUsageSnapshot {
    /// The snapshot's invariant: buckets ordered by id, thread usage well formed.
    pub open spec fn wf(&self) -> bool {
        &&& sorted_by_key(self.buckets@)
        &&& self.thread_usage.wf()
    }

    /// Copies the runtime fields of the Codex status into the snapshot.
    pub fn set_runtime(
        &mut self,
        backend: String,
        phase: String,
        cli_version: Option<String>,
        required_cli_version: String,
        app_server_running: bool,
        auth_mode: Option<String>,
        managed_install: bool,
    )
        ensures
            final(self).backend == backend,
            final(self).phase == phase,
            final(self).cli_version == cli_version,
            final(self).required_cli_version == required_cli_version,
            final(self).app_server_running == app_server_running,
            final(self).auth_mode == auth_mode,
            final(self).managed_install == managed_install,
            final(self).state == old(self).state,
            final(self).plan_type == old(self).plan_type,
            final(self).email == old(self).email,
            final(self).updated_at == old(self).updated_at,
            final(self).buckets == old(self).buckets,
            final(self).credits == old(self).credits,
            final(self).reset_credits == old(self).reset_credits,
            final(self).account_usage == old(self).account_usage,
            final(self).thread_usage == old(self).thread_usage,
            final(self).error == old(self).error,
    {
        self.backend = backend;
        self.phase = phase;
        self.cli_version = cli_version;
        self.required_cli_version = required_cli_version;
        self.app_server_running = app_server_running;
        self.auth_mode = auth_mode;
        self.managed_install = managed_install;
    }

    /// Stamps the snapshot with the time `now`.
    pub fn touch(&mut self, now: u64)
        ensures
            *final(self) == (CodexUsageSnapshot { updated_at: now, ..*old(self) }),
    {
        self.updated_at = now;
    }

    /// Marks the usage as being (re)loaded.
    pub fn set_loading(&mut self, now: u64)
        ensures
            final(self).state@ == "loading"@,
            final(self).error is None,
            *final(self) == (CodexUsageSnapshot {
                state: final(self).state,
                error: None,
                updated_at: now,
                ..*old(self)
            }),
    {
        self.state = "loading".to_string();
        self.error = None;
        self.touch(now);
    }

    /// Marks the usage as unavailable, with an optional reason.
    pub fn set_unavailable(&mut self, error: Option<String>, now: u64)
        ensures
            final(self).state@ == "unavailable"@,
            final(self).error == error,
            *final(self) == (CodexUsageSnapshot {
                state: final(self).state,
                error: error,
                updated_at: now,
                ..*old(self)
            }),
    {
        self.state = "unavailable".to_string();
        self.error = error;
        self.touch(now);
    }

    /// Records the account that `account/read` returned.
    pub fn set_account(&mut self, account: &JsonValue, now: u64)
        ensures
            opt_chars(final(self).plan_type) == account.field2_str("account"@, "planType"@),
            opt_chars(final(self).email) == account.field2_str("account"@, "email"@),
            final(self).state@ == (if account.field2_str("account"@, "type"@) == Some("chatgpt"@) {
                "loading"@
            } else {
                "unauthenticated"@
            }),
            final(self).error is None,
            *final(self) == (CodexUsageSnapshot {
                plan_type: final(self).plan_type,
                email: final(self).email,
                state: final(self).state,
                error: None,
                updated_at: now,
                ..*old(self)
            }),
    {
        self.plan_type = account.get2_string("account", "planType");
        self.email = account.get2_string("account", "email");
        let is_chatgpt = match account.get2("account", "type") {
            Some(v) => match v.as_str() {
                Some(t) => str_eq(t, "chatgpt"),
                None => false,
            },
            None => false,
        };
        self.state = if is_chatgpt {
            "loading".to_string()
        } else {
            "unauthenticated".to_string()
        };
        self.error = None;
        self.touch(now);
    }

    /// Records the plan type that `account/updated` announced.
    pub fn set_plan_type(&mut self, plan_type: Option<String>, now: u64)
        ensures
            *final(self) == (CodexUsageSnapshot {
                plan_type: plan_type,
                updated_at: now,
                ..*old(self)
            }),
    {
        self.plan_type = plan_type;
        self.touch(now);
    }

    /// Collects the buckets of an `account/rateLimits/read` response, in source order.
    fn collect_buckets(response: &JsonValue) -> (out: Vec<CodexRateLimitBucket>)
        ensures
            out@.len() == bucket_sources(*response).len(),
            forall|i: int|
                0 <= i < out@.len() ==> bucket_matches(
                    #[trigger] out@[i],
                    bucket_sources(*response)[i].0,
                    bucket_sources(*response)[i].1,
                ),
    {
        let mut buckets: Vec<CodexRateLimitBucket> = Vec::new();
        match response.get("rateLimitsByLimitId") {
            Some(JsonValue::Object(m)) => {
                let pairs = m.pair_refs();
                let ghost ps = m.pairs();
                let mut i: usize = 0;
                while i < pairs.len()
                    invariant
                        i <= pairs@.len() == ps.len(),
                        forall|j: int|
                            0 <= j < pairs@.len() ==> (#[trigger] pairs@[j]).0@ == ps[j].0
                                && *pairs@[j].1 == ps[j].1,
                        buckets@.len() == keyed_sources(ps.take(i as int)).len(),
                        forall|j: int|
                            0 <= j < buckets@.len() ==> bucket_matches(
                                #[trigger] buckets@[j],
                                keyed_sources(ps.take(i as int))[j].0,
                                keyed_sources(ps.take(i as int))[j].1,
                            ),
                    decreases pairs.len() - i,
                {
                    let (k, v) = pairs[i];
                    assert(ps.take((i + 1) as int).drop_last() =~= ps.take(i as int));
                    assert(ps.take((i + 1) as int).last() == ps[i as int]);
                    match parse_bucket(v, Some(k.as_str())) {
                        Some(b) => {
                            buckets.push(b);
                        },
                        None => {},
                    }
                    i = i + 1;
                }
                assert(ps.take(ps.len() as int) =~= ps);
            },
            _ => {},
        }
        if buckets.len() == 0 {
            match response.get("rateLimits") {
                Some(v) => match parse_bucket(v, None) {
                    Some(b) => {
                        buckets.push(b);
                    },
                    None => {},
                },
                None => {},
            }
        }
        buckets
    }

    /// The credits of the first bucket whose source carries them.
    fn find_credits(response: &JsonValue, buckets: &Vec<CodexRateLimitBucket>) -> (r: Option<
        CodexCredits,
    >)
        ensures
            match r {
                Some(c) => first_credits(buckets@, *response) is Some && credits_match(
                    c,
                    first_credits(buckets@, *response)->0,
                ),
                None => first_credits(buckets@, *response) is None,
            },
    {
        let mut i: usize = 0;
        assert(buckets@.skip(0) =~= buckets@);
        while i < buckets.len()
            invariant
                i <= buckets@.len(),
                first_credits(buckets@, *response) == first_credits(
                    buckets@.skip(i as int),
                    *response,
                ),
            decreases buckets.len() - i,
        {
            let ghost rest = buckets@.skip(i as int);
            assert(rest[0] == buckets@[i as int]);
            assert(rest.drop_first() =~= buckets@.skip(i + 1));
            let id = buckets[i].id.as_str();
            let source = match response.get2("rateLimitsByLimitId", id) {
                Some(v) => Some(v),
                None => response.get("rateLimits"),
            };
            match source {
                Some(src) => match parse_credits(src) {
                    Some(c) => {
                        return Some(c);
                    },
                    None => {},
                },
                None => {},
            }
            i = i + 1;
        }
        None
    }

    /// The plan type of the first bucket that names one.
    fn find_plan(buckets: &Vec<CodexRateLimitBucket>) -> (r: Option<String>)
        ensures
            opt_chars(r) == first_plan(buckets@),
    {
        let mut i: usize = 0;
        assert(buckets@.skip(0) =~= buckets@);
        while i < buckets.len()
            invariant
                i <= buckets@.len(),
                first_plan(buckets@) == first_plan(buckets@.skip(i as int)),
            decreases buckets.len() - i,
        {
            let ghost rest = buckets@.skip(i as int);
            assert(rest[0] == buckets@[i as int]);
            assert(rest.drop_first() =~= buckets@.skip(i + 1));
            match &buckets[i].plan_type {
                Some(p) => {
                    return Some(p.clone());
                },
                None => {},
            }
            i = i + 1;
        }
        None
    }

    /// Replaces the rate limits with those of an `account/rateLimits/read`
    /// response: buckets stably ordered by id, the credits of the first bucket that
    /// has any, reset credits, and the plan type if none is known yet.
    pub fn apply_rate_limits(&mut self, response: &JsonValue, now: u64)
        requires
            old(self).wf(),
        ensures
            final(self).wf(),
            rate_limits_applied(*old(self), *final(self), *response, now),
    {
        let collected = Self::collect_buckets(response);
        let ghost c = collected@;
        let buckets = sort_by_key(collected);
        self.credits = Self::find_credits(response, &buckets);
        self.reset_credits = match response.get2("rateLimitResetCredits", "availableCount") {
            Some(v) => match v.as_u64() {
                Some(n) => Some(CodexResetCredits { available_count: n }),
                None => None,
            },
            None => None,
        };
        if self.plan_type.is_none() {
            self.plan_type = Self::find_plan(&buckets);
        }
        self.buckets = buckets;
        self.state = "ready".to_string();
        self.error = None;
        self.touch(now);
        assert(self.buckets@.to_multiset() == c.to_multiset());
    }

    /// Applies an `account/rateLimits/updated` notification: the bucket in
    /// `rateLimits` replaces the first bucket with its id, or joins the
    /// ordered list. Without a `rateLimits` object nothing changes.
    pub fn apply_rate_limit_notification(&mut self, params: &JsonValue, now: u64)
        requires
            old(self).wf(),
        ensures
            final(self).wf(),
            rate_limit_notification_effect(*old(self), *final(self), *params, now),
    {
        let bucket = match params.get("rateLimits") {
            Some(v) => match parse_bucket(v, None) {
                Some(b) => b,
                None => return ,
            },
            None => return ,
        };
        let ghost bv = bucket;
        let ghost s = self.buckets@;
        match bucket_position(&self.buckets, bucket.id.as_str()) {
            Some(i) => {
                self.buckets.set(i, bucket);
                proof {
                    assert forall|a: int, b: int| 0 <= a < b < self.buckets@.len() implies lex_le(
                        self.buckets@[a].key_of(),
                        self.buckets@[b].key_of(),
                    ) by {
                        assert(lex_le(s[a].key_of(), s[b].key_of()));
                    }
                    assert(self.buckets@ == s.update(i as int, bv));
                }
            },
            None => {
                insert_by_key(&mut self.buckets, bucket);
                proof {
                    let p = choose|p: int|
                        0 <= p <= s.len() && self.buckets@ == s.insert(p, bv) && (forall|k: int|
                            0 <= k < p ==> lex_le(#[trigger] s[k].key_of(), bv.key_of())) && (
                        forall|k: int|
                            p <= k < s.len() ==> lex_lt(bv.key_of(), #[trigger] s[k].key_of()));
                    assert(!exists|i: int| 0 <= i < s.len() && (#[trigger] s[i]).id@ == bv.id@);
                }
            },
        }
        self.state = "ready".to_string();
        self.error = None;
        self.touch(now);
    }
    /// Records the account summary and daily token buckets of an
    /// `account/usage/read` response.
    pub fn apply_account_usage(&mut self, response: &JsonValue, now: u64)
        ensures
            final(self).account_usage is Some,
            ({
                let a = final(self).account_usage->0;
                let summary = or_null(response.field("summary"@));
                &&& a.lifetime_tokens == summary.field_u64("lifetimeTokens"@)
                &&& a.peak_daily_tokens == summary.field_u64("peakDailyTokens"@)
                &&& a.longest_running_turn_sec == summary.field_u64("longestRunningTurnSec"@)
                &&& a.current_streak_days == summary.field_u64("currentStreakDays"@)
                &&& a.longest_streak_days == summary.field_u64("longestStreakDays"@)
                &&& a.daily_buckets@.len() == daily_of(daily_items(*response)).len()
                &&& forall|i: int|
                    0 <= i < a.daily_buckets@.len() ==> (#[trigger] a.daily_buckets@[i]).start_date@
                        == daily_of(daily_items(*response))[i].0 && a.daily_buckets@[i].tokens
                        == daily_of(daily_items(*response))[i].1
            }),
            *final(self) == (CodexUsageSnapshot {
                account_usage: final(self).account_usage,
                updated_at: now,
                ..*old(self)
            }),
    {
        let null = JsonValue::Null;
        let summary = match response.get("summary") {
            Some(s) => s,
            None => &null,
        };
        let mut daily: Vec<CodexDailyUsage> = Vec::new();
        let ghost items = daily_items(*response);
        match response.get("dailyUsageBuckets") {
            Some(JsonValue::Array(list)) => {
                let refs = list.item_refs();
                let mut i: usize = 0;
                while i < refs.len()
                    invariant
                        i <= refs@.len() == items.len(),
                        forall|j: int| 0 <= j < refs@.len() ==> *refs@[j] == items[j],
                        daily@.len() == daily_of(items.take(i as int)).len(),
                        forall|j: int|
                            0 <= j < daily@.len() ==> (#[trigger] daily@[j]).start_date@
                                == daily_of(items.take(i as int))[j].0 && daily@[j].tokens
                                == daily_of(items.take(i as int))[j].1,
                    decreases refs.len() - i,
                {
                    let item = refs[i];
                    assert(items.take((i + 1) as int).drop_last() =~= items.take(i as int));
                    assert(items.take((i + 1) as int).last() == items[i as int]);
                    match (item.get_string("startDate"), item.get_u64("tokens")) {
                        (Some(d), Some(t)) => {
                            daily.push(CodexDailyUsage { start_date: d, tokens: t });
                        },
                        _ => {},
                    }
                    i = i + 1;
                }
                assert(items.take(items.len() as int) =~= items);
            },
            _ => {},
        }
        self.account_usage = Some(
            CodexAccountUsage {
                lifetime_tokens: summary.get_u64("lifetimeTokens"),
                peak_daily_tokens: summary.get_u64("peakDailyTokens"),
                longest_running_turn_sec: summary.get_u64("longestRunningTurnSec"),
                current_streak_days: summary.get_u64("currentStreakDays"),
                longest_streak_days: summary.get_u64("longestStreakDays"),
                daily_buckets: daily,
            },
        );
        self.touch(now);
    }

    /// Records a `thread/tokenUsage/updated` notification under its Codex
    /// thread id. Nothing changes unless the thread id, turn id and both token
    /// totals are present.
    pub fn apply_thread_usage(&mut self, params: &JsonValue, now: u64)
        requires
            old(self).wf(),
        ensures
            final(self).wf(),
            thread_usage_effect(*old(self), *final(self), *params, now),
    {
        let thread_id = match params.get_string("threadId") {
            Some(t) => t,
            None => return ,
        };
        let turn_id = match params.get_string("turnId") {
            Some(t) => t,
            None => return ,
        };
        let usage = match params.get("tokenUsage") {
            Some(u) => u,
            None => return ,
        };
        let total = match parse_token_usage_at(usage.get("total")) {
            Some(t) => t,
            None => return ,
        };
        let last = match parse_token_usage_at(usage.get("last")) {
            Some(t) => t,
            None => return ,
        };
        let entry = CodexThreadUsage {
            turn_id,
            total,
            last,
            model_context_window: usage.get_u64("modelContextWindow"),
            updated_at: now,
        };
        let ghost ev = entry;
        let ghost tid = thread_id@;
        self.thread_usage.insert(thread_id, entry);
        assert(self.thread_usage.view()[tid] == ev);
        self.touch(now);
    }
}

} // verus!
