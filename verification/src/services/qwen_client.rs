//! The rules of talking to the DashScope (Qwen) HTTP API: authorization,
//! task URLs, retries on rate limiting, and task polling.

use vstd::prelude::*;

use crate::commands::generation::same_text;
use crate::error::{error_detail, AppError};
use crate::json::{Json, JsonValue};
use crate::models::config::{AsyncPollConfig, AsyncPollSpec};
use crate::services::template_engine::{child, member_get};
use crate::text::{append_str, chars_of, decimal, push_decimal, replace_all, replace_chars, string_of_all};

verus! {

/// The DashScope endpoint for querying async tasks.
pub const TASK_POLL_URL: &'static str = "https://dashscope.aliyuncs.com/api/v1/tasks";

/// How many times a rate-limited submission is retried.
pub const MAX_RETRIES: u32 = 3;

/// The `Authorization` header value: `Bearer {api_key}`.
pub fn bearer(api_key: &str) -> (h: String)
    ensures
        h@ == "Bearer "@ + api_key@,
{
    let mut h = String::new();
    append_str(&mut h, "Bearer ");
    append_str(&mut h, api_key);
    h
}

/// The URL that reports on a DashScope task: `{TASK_POLL_URL}/{task_id}`.
pub fn task_poll_url(task_id: &str) -> (u: String)
    ensures
        u@ == TASK_POLL_URL@ + "/"@ + task_id@,
{
    let mut u = String::new();
    append_str(&mut u, TASK_POLL_URL);
    append_str(&mut u, "/");
    append_str(&mut u, task_id);
    u
}

/// The poll URL of a task from a configured template: each `{task_id}` is
/// replaced by the task's id.
pub fn poll_url_for(template: &str, task_id: &str) -> (u: String)
    ensures
        u@ == replace_all(template@, "{task_id}"@, task_id@),
{
    let t = chars_of(template);
    let pat = chars_of("{task_id}");
    proof {
        reveal_strlit("{task_id}");
    }
    assert(pat@.len() > 0);
    let id = chars_of(task_id);
    let out = replace_chars(&t, &pat, &id);
    string_of_all(&out)
}

/// A status code in the success class (200–299).
pub fn is_success(status: u16) -> (b: bool)
    ensures
        b == (200 <= status <= 299),
{
    200 <= status && status <= 299
}

/// Whether a response with this status, to attempt number `attempt`
/// (counted from 0), is retried: only a 429 (rate limited) answer, and only
/// while fewer than [`MAX_RETRIES`] retries were made.
pub fn should_retry(status: u16, attempt: u32) -> (b: bool)
    ensures
        b == (status == 429 && attempt < MAX_RETRIES),
{
    status == 429 && attempt < MAX_RETRIES
}

/// The value of a decimal numeral as `u64::from_str` reads it: an optional
/// `+` followed by at least one ASCII digit; none where another character
/// occurs or the value exceeds `u64::MAX`.
pub open spec fn digits_value(s: Seq<char>) -> int
    decreases s.len(),
{
    if s.len() == 0 {
        0
    } else {
        digits_value(s.drop_last()) * 10 + (s.last() as int - '0' as int)
    }
}

pub open spec fn all_digits(s: Seq<char>) -> bool {
    forall|i: int| 0 <= i < s.len() ==> '0' <= #[trigger] s[i] <= '9'
}

pub open spec fn parsed_u64(s: Seq<char>) -> Option<u64> {
    let digits = if s.len() > 0 && s[0] == '+' { s.drop_first() } else { s };
    if digits.len() > 0 && all_digits(digits) && digits_value(digits) <= u64::MAX {
        Some(digits_value(digits) as u64)
    } else {
        None
    }
}

proof fn lemma_digits_value_nonneg(s: Seq<char>)
    requires
        all_digits(s),
    ensures
        digits_value(s) >= 0,
    decreases s.len(),
{
    if s.len() > 0 {
        lemma_digits_value_nonneg(s.drop_last());
    }
}

proof fn lemma_digits_value_monotone(s: Seq<char>, i: int)
    requires
        all_digits(s),
        0 <= i <= s.len(),
    ensures
        digits_value(s.take(i)) <= digits_value(s),
    decreases s.len() - i,
{
    if i < s.len() {
        lemma_digits_value_monotone(s, i + 1);
        assert(s.take(i + 1).drop_last() =~= s.take(i));
        lemma_digits_value_nonneg(s.take(i));
    } else {
        assert(s.take(i) =~= s);
    }
}

/// Reads a decimal `u64` as `u64::from_str` does (see [`parsed_u64`]).
pub fn parse_u64(text: &str) -> (r: Option<u64>)
    ensures
        r == parsed_u64(text@),
{
    let v = chars_of(text);
    let start: usize = if v.len() > 0 && v[0] == '+' { 1 } else { 0 };
    let ghost digits = if v@.len() > 0 && v@[0] == '+' { v@.drop_first() } else { v@ };
    assert(digits =~= v@.skip(start as int));
    if start >= v.len() {
        return None;
    }
    let mut value: u64 = 0;
    let mut i: usize = start;
    while i < v.len()
        invariant
            start <= i <= v@.len(),
            v@ == text@,
            digits == (if text@.len() > 0 && text@[0] == '+' { text@.drop_first() } else { text@ }),
            digits.len() > 0,
            digits == v@.skip(start as int),
            forall|j: int| start <= j < i ==> '0' <= #[trigger] v@[j] <= '9',
            value == digits_value(digits.take(i - start)),
        decreases v.len() - i,
    {
        let c = v[i];
        assert(digits.take(i - start + 1).drop_last() =~= digits.take(i - start));
        assert(digits.take(i - start + 1).last() == c);
        if !('0' <= c && c <= '9') {
            assert(!all_digits(digits)) by {
                assert(digits[i - start] == c);
            }
            return None;
        }
        let d: u64 = (c as u32 - '0' as u32) as u64;
        if value > (u64::MAX - d) / 10 {
            proof {
                assert(all_digits(digits.take(i - start + 1)));
                assert(digits_value(digits.take(i - start + 1)) > u64::MAX) by (nonlinear_arith)
                    requires
                        value > (u64::MAX - d) / 10,
                        d <= 9,
                        digits_value(digits.take(i - start + 1)) == value * 10 + d,
                {}
                if all_digits(digits) {
                    lemma_digits_value_monotone(digits, i - start + 1);
                }
            }
            return None;
        }
        value = value * 10 + d;
        i = i + 1;
    }
    assert(digits.take(v@.len() - start) =~= digits);
    Some(value)
}

/// How long to wait before retrying a rate-limited request: the
/// `retry-after` header's seconds where it is a valid number, else 3.
pub fn retry_after_secs(header: Option<&str>) -> (secs: u64)
    ensures
        secs == match header {
            Some(h) => match parsed_u64(h@) {
                Some(n) => n,
                None => 3,
            },
            None => 3,
        },
{
    match header {
        Some(h) => match parse_u64(h) {
            Some(n) => n,
            None => 3,
        },
        None => 3,
    }
}

/// The error once every retry was rate limited.
pub fn retries_exhausted() -> (e: AppError)
    ensures
        e is RateLimited,
        error_detail(e) == "Rate limited after 3 retries. Please try again later."@,
{
    let mut m = String::new();
    append_str(&mut m, "Rate limited after 3 retries. Please try again later.");
    AppError::RateLimited(m)
}

/// The error for a response body that cannot be read as the expected JSON:
/// `Failed to parse {what} response: {detail}`.
pub fn unparsable_response(what: &str, detail: &str) -> (e: AppError)
    ensures
        e is Api,
        error_detail(e) == "Failed to parse "@ + what@ + " response: "@ + detail@,
{
    let mut m = String::new();
    append_str(&mut m, "Failed to parse ");
    append_str(&mut m, what);
    append_str(&mut m, " response: ");
    append_str(&mut m, detail);
    AppError::Api(m)
}

/// What to do with the answer to a submitted request.
#[derive(Debug)]
pub enum SubmitStep {
    /// Wait this many seconds, then send the request again.
    Retry(u64),
    /// Read the response body as the result.
    Accept,
    /// Fail with the error that the status maps to (see [`map_http_error`](crate::error::map_http_error)).
    Fail,
}

/// The decision after the answer to attempt number `attempt` (counted from
/// 0) of a submission: a 429 is retried after the `retry-after` delay while
/// fewer than [`MAX_RETRIES`] retries were made; any other answer, and a 429
/// after the last retry, is accepted on a 2xx status and fails otherwise.
pub fn submit_step(attempt: u32, status: u16, retry_after: Option<&str>) -> (step: SubmitStep)
    ensures
        (status == 429 && attempt < MAX_RETRIES) ==> step == SubmitStep::Retry(
            match retry_after {
                Some(h) => match parsed_u64(h@) {
                    Some(n) => n,
                    None => 3,
                },
                None => 3,
            },
        ),
        !(status == 429 && attempt < MAX_RETRIES) ==> (step == SubmitStep::Accept <==> 200 <= status
            <= 299),
        !(status == 429 && attempt < MAX_RETRIES) ==> (step == SubmitStep::Fail <==> !(200 <= status
            <= 299)),
{
    if should_retry(status, attempt) {
        SubmitStep::Retry(retry_after_secs(retry_after))
    } else if is_success(status) {
        SubmitStep::Accept
    } else {
        SubmitStep::Fail
    }
}

/// The string at `output.{key}` of an API response, if there is one.
pub open spec fn output_field(resp: JsonValue, key: Seq<char>) -> Option<Seq<char>> {
    match child(resp, "output"@) {
        Some(o) => match child(o, key) {
            Some(JsonValue::Str(t)) => Some(t),
            _ => None,
        },
        None => None,
    }
}

/// The string at `output.{key}` of an API response (see [`output_field`]).
pub fn output_string(resp: &Json, key: &str) -> (r: Option<String>)
    ensures
        match r {
            Some(t) => output_field(resp@, key@) == Some(t@),
            None => output_field(resp@, key@) == None::<Seq<char>>,
        },
{
    let output_key = chars_of("output");
    proof {
        reveal_strlit("output");
    }
    let k = chars_of(key);
    match resp {
        Json::Object(members) => match member_get(members, &output_key) {
            Some(Json::Object(inner)) => match member_get(inner, &k) {
                Some(Json::String(t)) => Some(t.clone()),
                _ => None,
            },
            _ => None,
        },
        _ => None,
    }
}

/// What to do after reading a task's status while polling.
#[derive(Debug)]
pub enum PollStep {
    /// Wait this many seconds, then poll again.
    Wait(u64),
    /// The task succeeded: the last poll response is the result.
    Finished,
    /// The task ended without success.
    Failed(AppError),
    /// Waiting once more would pass the timeout.
    TimedOut(AppError),
}

/// A task status after which polling stops without a result.
pub open spec fn is_failed_status(status: Seq<char>) -> bool {
    status == "FAILED"@ || status == "CANCELED"@ || status == "UNKNOWN"@
}

/// The decision after a poll that reported `status`, once `elapsed_secs`
/// seconds were spent waiting: `SUCCEEDED` finishes; `FAILED`, `CANCELED`
/// and `UNKNOWN` fail with the task's message; any other status waits one
/// poll interval more, unless that would pass the configured timeout.
pub fn poll_step(status: &str, message: Option<&str>, elapsed_secs: u64, poll: &AsyncPollConfig) -> (step: PollStep)
    ensures
        status@ == "SUCCEEDED"@ ==> step == PollStep::Finished,
        is_failed_status(status@) ==> (step matches PollStep::Failed(e) && e is Api && error_detail(e)
            == "Task "@ + status@ + ": "@ + match message {
            Some(m) => m@,
            None => "no message"@,
        }),
        status@ != "SUCCEEDED"@ && !is_failed_status(status@) && elapsed_secs
            + poll.poll_interval_secs <= poll.timeout_secs ==> step == PollStep::Wait(
            poll.poll_interval_secs,
        ),
        status@ != "SUCCEEDED"@ && !is_failed_status(status@) && elapsed_secs
            + poll.poll_interval_secs > poll.timeout_secs ==> (step matches PollStep::TimedOut(e)
            && e is Timeout && error_detail(e) == "Task did not finish within "@ + decimal(
            poll.timeout_secs as nat,
        ) + " seconds"@),
{
    proof {
        reveal_strlit("SUCCEEDED");
        reveal_strlit("FAILED");
        reveal_strlit("CANCELED");
        reveal_strlit("UNKNOWN");
        assert("SUCCEEDED"@[0] != "FAILED"@[0]);
        assert("SUCCEEDED"@[0] != "CANCELED"@[0]);
        assert("SUCCEEDED"@[0] != "UNKNOWN"@[0]);
    }
    if same_text(status, "SUCCEEDED") {
        return PollStep::Finished;
    }
    if same_text(status, "FAILED") || same_text(status, "CANCELED") || same_text(status, "UNKNOWN") {
        let mut m = String::new();
        append_str(&mut m, "Task ");
        append_str(&mut m, status);
        append_str(&mut m, ": ");
        match message {
            Some(t) => append_str(&mut m, t),
            None => append_str(&mut m, "no message"),
        }
        return PollStep::Failed(AppError::Api(m));
    }
    if elapsed_secs as u128 + poll.poll_interval_secs as u128 <= poll.timeout_secs as u128 {
        PollStep::Wait(poll.poll_interval_secs)
    } else {
        let mut m = String::new();
        append_str(&mut m, "Task did not finish within ");
        push_decimal(&mut m, poll.timeout_secs);
        append_str(&mut m, " seconds");
        PollStep::TimedOut(AppError::Timeout(m))
    }
}

} // verus!
