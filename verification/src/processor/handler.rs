//! The way into a processor: unwrapping what the platform delivers.
use vstd::prelude::*;

use crate::error::{invalid, is_invalid, DooverError};
use crate::json::{field, field2, item, str_field, str_of, Json, Value};
use crate::json_text::{from_text, json_parse};
use crate::text::{opt_chars, same};

verus! {

/// The string, unless it is empty.
pub fn non_empty(s: String) -> (r: Option<String>)
    ensures
        r == (if s@.len() == 0 {
            None::<String>
        } else {
            Some(s)
        }),
{
    if s.as_str().is_empty() {
        None
    } else {
        Some(s)
    }
}

/// The first record of what was delivered.
pub open spec fn first_record(event: Json) -> Option<Json> {
    match field(event, "Records"@) {
        Some(r) => item(r, 0),
        None => None,
    }
}

/// Where the first record comes from.
pub open spec fn record_source(event: Json) -> Option<Seq<char>> {
    match first_record(event) {
        Some(r) => str_field(r, "EventSource"@),
        None => None,
    }
}

/// The message of the first record.
pub open spec fn record_message(event: Json) -> Option<Seq<char>> {
    match first_record(event) {
        Some(r) => match field2(r, "Sns"@, "Message"@) {
            Some(m) => str_of(m),
            None => None,
        },
        None => None,
    }
}

/// The subscription that the first record came by.
pub open spec fn record_subscription(event: Json) -> Option<Seq<char>> {
    match first_record(event) {
        Some(r) => str_field(r, "EventSubscriptionArn"@),
        None => None,
    }
}

/// What is to be done with what was delivered.
#[derive(Debug)]
pub enum Delivery {
    /// It is the event itself.
    Raw,
    /// The event is in the text, and came by the subscription.
    Wrapped(String, Option<String>),
    /// It has no event in it.
    Refused(DooverError),
}

/// The message for a source that is not known.
pub open spec fn unknown_source() -> Seq<char> {
    "Unknown event. Must originate from SNS or EventBridge Schedules"@
}

/// Whether an error is what an unusable delivery gets.
pub open spec fn is_refusal(event: Json, e: DooverError) -> bool {
    if record_source(event) == Some("aws:sns"@) {
        record_message(event) is None && is_invalid(e, "SNS record missing Sns.Message"@)
    } else {
        record_source(event) is Some && (e matches DooverError::Other(m) && m@ == unknown_source())
    }
}

/// Whether an error is what a wrapped event gets whose text is no document.
pub open spec fn is_unreadable(event: Json, e: DooverError) -> bool {
    match (record_source(event), record_message(event)) {
        (Some(source), Some(text)) => match (json_parse(text), e) {
            (Err(m), DooverError::Json(t)) => source == "aws:sns"@ && t@ == m,
            _ => false,
        },
        _ => false,
    }
}

/// Decides what is to be done with what was delivered.
pub fn route_event(event: &Value) -> (d: Delivery)
    ensures
        match d {
            Delivery::Raw => record_source(event@) is None,
            Delivery::Wrapped(text, subscription) => record_source(event@) == Some("aws:sns"@)
                && record_message(event@) == Some(text@) && opt_chars(subscription)
                == record_subscription(event@),
            Delivery::Refused(e) => is_refusal(event@, e),
        },
{
    let record = match event.get("Records") {
        Some(r) => match r.get_item(0) {
            Some(r) => r,
            None => {
                return Delivery::Raw;
            },
        },
        None => {
            return Delivery::Raw;
        },
    };
    let source = match record.get_string("EventSource") {
        Some(s) => s,
        None => {
            return Delivery::Raw;
        },
    };
    if !same(source.as_str(), "aws:sns") {
        return Delivery::Refused(
            DooverError::Other(
                "Unknown event. Must originate from SNS or EventBridge Schedules".to_owned(),
            ),
        );
    }
    let message = match record.get2("Sns", "Message") {
        Some(m) => match m.as_str() {
            Some(s) => s.to_owned(),
            None => {
                return Delivery::Refused(invalid("SNS record missing Sns.Message"));
            },
        },
        None => {
            return Delivery::Refused(invalid("SNS record missing Sns.Message"));
        },
    };
    Delivery::Wrapped(message, record.get_string("EventSubscriptionArn"))
}

/// The event of a wrapped delivery, once its text was read.
pub fn unwrapped(
    parsed: Result<Value, String>,
    subscription: Option<String>,
) -> (r: Result<(Value, Option<String>), DooverError>)
    ensures
        match r {
            Ok((v, s)) => parsed matches Ok(p) && p == v && s == subscription,
            Err(e) => parsed matches Err(m) && e == DooverError::Json(m),
        },
{
    match parsed {
        Ok(v) => Ok((v, subscription)),
        Err(m) => Err(DooverError::Json(m)),
    }
}

/// Unwraps what was delivered into the event and the subscription it came by.
pub fn unwrap_event(event: Value) -> (r: Result<(Value, Option<String>), DooverError>)
    ensures
        match r {
            Ok((v, s)) => if record_source(event@) is None {
                v@ == event@ && s is None
            } else {
                &&& record_source(event@) == Some("aws:sns"@)
                &&& record_message(event@) matches Some(text) && json_parse(text) == Ok::<
                    Json,
                    Seq<char>,
                >(v@)
                &&& opt_chars(s) == record_subscription(event@)
            },
            Err(e) => is_refusal(event@, e) || is_unreadable(event@, e),
        },
{
    match route_event(&event) {
        Delivery::Raw => Ok((event, None)),
        Delivery::Wrapped(text, subscription) => unwrapped(from_text(text.as_str()), subscription),
        Delivery::Refused(e) => Err(e),
    }
}

} // verus!
