//! What a reply of the data API means, and when a request is tried again.
use vstd::prelude::*;

use crate::diff::tidy;
use crate::error::{invalid, is_invalid, is_other, DooverError};
use crate::json::{docs, field, opt_doc, Json, Value};
use crate::json_text::{from_bytes, json_parse_bytes, json_text, to_text, written};
use crate::models::{id_of, is_info, value_as_id, SubscriptionInfo};
use crate::text::concat;

verus! {

/// How one try of a request ended.
#[derive(Debug)]
pub enum Attempt {
    /// A status that is no success, with the text of the reply: whatever is not from
    /// 200 to 299.
    Failed(u16, String),
    /// A success, with the bytes of the reply.
    Replied(Vec<u8>),
    /// A success whose bytes could not be read.
    Broken(String),
    /// No reply at all.
    Unreachable(String),
}

/// What is to be done after a try.
#[derive(Debug)]
pub enum Step {
    /// The request is done.
    Finish(Result<Option<Value>, DooverError>),
    /// Try again after this many milliseconds.
    Retry(u64),
}

/// Whether a status is a success: from 200 to 299.
pub open spec fn success(status: int) -> bool {
    200 <= status <= 299
}

/// Whether a status is a success: the bytes of its reply are read. Any other status
/// is a failure, and the text of its reply goes into the error.
pub fn is_success(status: u16) -> (r: bool)
    ensures
        r == success(status as int),
{
    200 <= status && status <= 299
}

/// Whether an error is what a status means.
pub open spec fn means(e: DooverError, status: u16, text: Seq<char>) -> bool {
    if status == 404 {
        e matches DooverError::NotFound(m) && m@ == text
    } else {
        e matches DooverError::Http { code, message } && code == status && message@ == text
    }
}

/// The error that a status means.
pub fn map_status(status: u16, text: String) -> (e: DooverError)
    ensures
        means(e, status, text@),
{
    if status == 404 {
        DooverError::NotFound(text)
    } else {
        DooverError::Http { code: status as i32, message: text }
    }
}

/// Whether a try may be repeated: server errors and transport failures may.
pub open spec fn may_repeat(a: Attempt) -> bool {
    match a {
        Attempt::Failed(status, _) => status >= 500,
        Attempt::Unreachable(_) => true,
        _ => false,
    }
}

/// Whether an error is what a failed try leaves.
pub open spec fn leaves(e: DooverError, a: Attempt) -> bool {
    match a {
        Attempt::Failed(status, text) => means(e, status, text@),
        Attempt::Broken(m) | Attempt::Unreachable(m) => e == DooverError::Request(m),
        Attempt::Replied(_) => false,
    }
}

/// A number doubled some times.
pub open spec fn doubled(n: nat, times: nat) -> nat
    decreases times,
{
    if times == 0 {
        n
    } else {
        doubled(2 * n, (times - 1) as nat)
    }
}

proof fn lemma_doubled_grows(n: nat, times: nat)
    ensures
        n <= doubled(n, times),
    decreases times,
{
    if times > 0 {
        lemma_doubled_grows(2 * n, (times - 1) as nat);
    }
}

fn double(n: u64, times: u32) -> (r: u64)
    requires
        doubled(n as nat, times as nat) <= u64::MAX,
    ensures
        r == doubled(n as nat, times as nat),
{
    let mut r: u64 = n;
    let mut left: u32 = times;
    while left > 0
        invariant
            doubled(r as nat, left as nat) == doubled(n as nat, times as nat),
            doubled(n as nat, times as nat) <= u64::MAX,
        decreases left,
    {
        proof {
            lemma_doubled_grows(2 * r as nat, (left - 1) as nat);
        }
        r = 2 * r;
        left -= 1;
    }
    r
}

/// What a reply's bytes mean: nothing, a document, or no document.
pub fn read_reply(bytes: &Vec<u8>) -> (r: Result<Option<Value>, DooverError>)
    ensures
        if bytes@.len() == 0 {
            r matches Ok(None)
        } else {
            match json_parse_bytes(bytes@) {
                Ok(j) => r matches Ok(Some(v)) && v@ == j,
                Err(m) => r matches Err(DooverError::Json(t)) && t@ == m,
            }
        },
        r matches Ok(Some(v)) ==> tidy(v@),
{
    if bytes.len() == 0 {
        return Ok(None);
    }
    parsed_reply(from_bytes(bytes))
}

/// What a reply means, once its text was read.
pub fn parsed_reply(parsed: Result<Value, String>) -> (r: Result<Option<Value>, DooverError>)
    ensures
        match parsed {
            Ok(v) => r == Ok::<Option<Value>, DooverError>(Some(v)),
            Err(m) => r == Err::<Option<Value>, DooverError>(DooverError::Json(m)),
        },
{
    match parsed {
        Ok(v) => Ok(Some(v)),
        Err(m) => Err(DooverError::Json(m)),
    }
}

/// Whether a step is the one to take after the given try. A try that may be
/// repeated is repeated as long as tries are left, each time after twice the
/// delay.
pub open spec fn follows(attempt: u32, max_retries: u32, delay: u64, a: Attempt, s: Step) -> bool {
    if may_repeat(a) && attempt + 1 < max_retries {
        s == Step::Retry(doubled(delay as nat, attempt as nat) as u64)
    } else {
        match a {
            Attempt::Replied(bytes) => s matches Step::Finish(r) && if bytes@.len() == 0 {
                r matches Ok(None)
            } else {
                match json_parse_bytes(bytes@) {
                    Ok(j) => r matches Ok(Some(v)) && v@ == j,
                    Err(m) => r matches Err(DooverError::Json(t)) && t@ == m,
                }
            },
            _ => s matches Step::Finish(Err(e)) && leaves(e, a),
        }
    }
}

/// Decides what follows on the given try; tries are counted from 0.
pub fn after_attempt(attempt: u32, max_retries: u32, delay: u64, outcome: Attempt) -> (s: Step)
    requires
        attempt < max_retries,
        attempt + 1 < max_retries ==> doubled(delay as nat, attempt as nat) <= u64::MAX,
    ensures
        follows(attempt, max_retries, delay, outcome, s),
{
    match outcome {
        Attempt::Failed(status, text) => {
            if status >= 500 && attempt + 1 < max_retries {
                Step::Retry(double(delay, attempt))
            } else {
                Step::Finish(Err(map_status(status, text)))
            }
        },
        Attempt::Replied(bytes) => Step::Finish(read_reply(&bytes)),
        Attempt::Broken(m) => Step::Finish(Err(DooverError::Request(m))),
        Attempt::Unreachable(m) => {
            if attempt + 1 < max_retries {
                Step::Retry(double(delay, attempt))
            } else {
                Step::Finish(Err(DooverError::Request(m)))
            }
        },
    }
}

/// The error of a request that may not be tried at all.
pub fn never_tried(base_url: &str, path: &str) -> (e: DooverError)
    ensures
        is_other(e, "request to "@ + base_url@ + path@ + " failed"@),
{
    let mut m = concat("request to ", base_url);
    m.append(path);
    m.append(" failed");
    DooverError::Other(m)
}

/// The document of a reply that must not be empty.
pub fn required(reply: Option<Value>, missing: &str) -> (r: Result<Value, DooverError>)
    ensures
        match reply {
            Some(v) => r == Ok::<Value, DooverError>(v),
            None => r matches Err(e) && is_invalid(e, missing@),
        },
{
    match reply {
        Some(v) => Ok(v),
        None => Err(invalid(missing)),
    }
}

/// What a token was traded for.
pub fn read_info(reply: Option<Value>, missing: &str) -> (r: Result<SubscriptionInfo, DooverError>)
    ensures
        match reply {
            Some(v) => is_info(r, v@),
            None => r matches Err(e) && is_invalid(e, missing@),
        },
{
    match reply {
        Some(v) => SubscriptionInfo::from_value(&v),
        None => Err(invalid(missing)),
    }
}

/// The messages of a reply: an empty reply is none, a list is its members.
pub fn read_messages(reply: Option<Value>) -> (r: Result<Vec<Value>, DooverError>)
    ensures
        match reply {
            None => r matches Ok(list) && list@.len() == 0,
            Some(v) => match v@ {
                Json::Arr(a) => r matches Ok(list) && docs(list@) == a,
                j => r matches Err(e) && is_invalid(
                    e,
                    "expected message list, got: "@ + json_text(written(j)),
                ),
            },
        },
{
    match reply {
        None => Ok(Vec::new()),
        Some(Value::Array(items)) => {
            proof {
                Value::lemma_array(items);
            }
            Ok(items)
        },
        Some(other) => Err(
            DooverError::InvalidPayload(
                concat("expected message list, got: ", to_text(&other).as_str()),
            ),
        ),
    }
}

/// The data of an aggregate reply; a channel that does not exist has none.
pub fn read_aggregate(reply: Result<Value, DooverError>) -> (r: Result<Option<Value>, DooverError>)
    ensures
        match reply {
            Ok(v) => r matches Ok(data) && opt_doc(data) == field(v@, "data"@),
            Err(DooverError::NotFound(_)) => r matches Ok(None),
            Err(e) => r == Err::<Option<Value>, DooverError>(e),
        },
{
    match reply {
        Ok(v) => match v.get("data") {
            Some(d) => Ok(Some(d.clone())),
            None => Ok(None),
        },
        Err(DooverError::NotFound(_)) => Ok(None),
        Err(e) => Err(e),
    }
}

/// The id of a message that was created, 0 if the reply has none.
pub fn created_id(reply: &Value) -> (r: u64)
    ensures
        r == (match id_of(field(reply@, "id"@)) {
            Some(n) => n,
            None => 0,
        }),
{
    match value_as_id(reply.get("id")) {
        Some(n) => n,
        None => 0,
    }
}

// ---- laws -----------------------------------------------------------------------

/// No request is tried more often than allowed: a try that is to be repeated is
/// not the last one.
pub proof fn law_tries_are_bounded(attempt: u32, max_retries: u32, delay: u64, a: Attempt, s: Step)
    requires
        follows(attempt, max_retries, delay, a, s),
        s is Retry,
    ensures
        attempt + 1 < max_retries,
        may_repeat(a),
{
}

/// A status that is no success ends a request with an error, unless the request is
/// tried again: with not found for 404, and with the status and the text of the reply
/// for every other.
pub proof fn law_only_successes_succeed(
    attempt: u32,
    max_retries: u32,
    delay: u64,
    status: u16,
    text: String,
    s: Step,
)
    requires
        !success(status as int),
        follows(attempt, max_retries, delay, Attempt::Failed(status, text), s),
    ensures
        s matches Step::Finish(r) ==> r matches Err(e) && if status == 404 {
            e matches DooverError::NotFound(m) && m@ == text@
        } else {
            e matches DooverError::Http { code, message } && code == status && message@ == text@
        },
        s is Retry ==> status >= 500 && attempt + 1 < max_retries,
{
}

/// A failure that is no server error is final: a status below 500 is never tried
/// again.
pub proof fn law_client_errors_are_final(
    attempt: u32,
    max_retries: u32,
    delay: u64,
    a: Attempt,
    s: Step,
)
    requires
        follows(attempt, max_retries, delay, a, s),
        a matches Attempt::Failed(status, _) && status < 500,
    ensures
        s matches Step::Finish(Err(e)) && leaves(e, a),
{
}

/// The delay doubles from one try to the next.
pub proof fn law_delay_doubles(delay: nat, attempt: nat)
    ensures
        doubled(delay, attempt + 1) == 2 * doubled(delay, attempt),
    decreases attempt,
{
    reveal_with_fuel(doubled, 2);
    if attempt > 0 {
        law_delay_doubles(2 * delay, (attempt - 1) as nat);
    }
}

} // verus!
