//! Calls to the sidecars of a device: when a call is tried again, when its channel
//! is thrown away, and what a response header means.
//!
//! Calls share one channel. A call that finds it unavailable is tried once more on
//! a new one. A call that runs out of time throws the channel away and is not tried
//! again, which would double the wait for a server that is merely slow.
use vstd::prelude::*;

use crate::error::DooverError;
use crate::text::{concat, decimal, write_u64};

verus! {

/// How long a call may take, in seconds.
pub const DEFAULT_TIMEOUT: u64 = 7;

// ---- calls -----------------------------------------------------------------------------

/// How one try of a call ended.
#[derive(Debug, Clone, Copy, PartialEq, Eq, Structural)]
pub enum CallEnd {
    /// It was answered.
    Answered,
    /// The status said that the service is unavailable.
    Unavailable,
    /// The status said that the deadline was exceeded.
    DeadlineExceeded,
    /// Any other status.
    Failed,
    /// It took longer than the call's own limit.
    TimedOut,
}

/// What follows a try of a call.
#[derive(Debug, Clone, Copy, PartialEq, Eq, Structural)]
pub struct CallStep {
    /// Whether the shared channel is thrown away.
    pub discard: bool,
    /// Whether the call is tried again; if not, the try's outcome is the call's.
    pub retry: bool,
}

/// What follows a try of a call. Only the first try can be followed by another.
pub open spec fn call_step(first: bool, end: CallEnd) -> CallStep {
    match end {
        CallEnd::Answered => CallStep { discard: false, retry: false },
        CallEnd::Failed => CallStep { discard: false, retry: false },
        CallEnd::Unavailable => CallStep { discard: first, retry: first },
        CallEnd::DeadlineExceeded => CallStep { discard: true, retry: false },
        CallEnd::TimedOut => CallStep { discard: true, retry: false },
    }
}

/// What follows a try of a call.
pub fn after_call(first: bool, end: CallEnd) -> (step: CallStep)
    ensures
        step == call_step(first, end),
{
    match end {
        CallEnd::Answered => CallStep { discard: false, retry: false },
        CallEnd::Failed => CallStep { discard: false, retry: false },
        CallEnd::Unavailable => CallStep { discard: first, retry: first },
        CallEnd::DeadlineExceeded => CallStep { discard: true, retry: false },
        CallEnd::TimedOut => CallStep { discard: true, retry: false },
    }
}

/// The message of a call that took too long.
pub fn timeout_message(service: &str, timeout_secs: u64) -> (m: String)
    ensures
        m@ == "request to "@ + service@ + " did not complete within "@ + decimal(
            timeout_secs as nat,
        ) + "s"@,
{
    let mut m = concat("request to ", service);
    m.append(" did not complete within ");
    m.append(write_u64(timeout_secs).as_str());
    m.append("s");
    m
}

/// A call is tried at most twice, a second time only if the first found the service
/// unavailable, and then on a new channel.
pub proof fn law_calls_are_retried_once(first: bool, end: CallEnd)
    ensures
        call_step(first, end).retry <==> first && end == CallEnd::Unavailable,
        call_step(first, end).retry ==> call_step(first, end).discard,
        !call_step(false, end).retry,
{
}

/// A call that ran out of time, or found its channel dead, leaves no channel behind
/// for the next call.
pub proof fn law_wedged_channels_are_dropped(first: bool, end: CallEnd)
    ensures
        end == CallEnd::DeadlineExceeded || end == CallEnd::TimedOut ==> call_step(
            first,
            end,
        ).discard,
        end == CallEnd::Answered ==> !call_step(first, end).discard,
{
}

// ---- streams that are kept alive -----------------------------------------------------------

/// How long it takes until a stream that ended is opened again, in milliseconds.
pub const REOPEN_PAUSE_MS: u64 = 1_000;

/// Where a stream stands that is opened again whenever it ends.
#[derive(Debug, Clone, Copy, PartialEq, Eq, Structural)]
pub enum FeedPhase {
    Opening,
    Reading,
    Pausing,
}

/// What happened to such a stream.
#[derive(Debug, Clone, Copy, PartialEq, Eq, Structural)]
pub enum FeedInput {
    Opened,
    OpenFailed,
    /// An item arrived.
    Item,
    /// The stream broke.
    Broken,
    /// The stream ended.
    Ended,
    /// The pause is over.
    Paused,
}

/// Where the stream stands after something happened.
pub open spec fn feed_next(phase: FeedPhase, input: FeedInput) -> FeedPhase {
    match (phase, input) {
        (FeedPhase::Opening, FeedInput::Opened) => FeedPhase::Reading,
        (FeedPhase::Opening, FeedInput::OpenFailed) => FeedPhase::Pausing,
        (FeedPhase::Reading, FeedInput::Broken) => FeedPhase::Pausing,
        (FeedPhase::Reading, FeedInput::Ended) => FeedPhase::Pausing,
        (FeedPhase::Pausing, FeedInput::Paused) => FeedPhase::Opening,
        _ => phase,
    }
}

/// Where the stream stands after something happened.
pub fn feed_step(phase: FeedPhase, input: FeedInput) -> (r: FeedPhase)
    ensures
        r == feed_next(phase, input),
{
    match (phase, input) {
        (FeedPhase::Opening, FeedInput::Opened) => FeedPhase::Reading,
        (FeedPhase::Opening, FeedInput::OpenFailed) => FeedPhase::Pausing,
        (FeedPhase::Reading, FeedInput::Broken) => FeedPhase::Pausing,
        (FeedPhase::Reading, FeedInput::Ended) => FeedPhase::Pausing,
        (FeedPhase::Pausing, FeedInput::Paused) => FeedPhase::Opening,
        _ => phase,
    }
}

/// However a stream ends, it is opened again after a pause.
pub proof fn law_feeds_are_reopened(phase: FeedPhase, input: FeedInput)
    ensures
        feed_next(phase, input) == FeedPhase::Pausing ==> feed_next(
            feed_next(phase, input),
            FeedInput::Paused,
        ) == FeedPhase::Opening,
        phase == FeedPhase::Reading && input == FeedInput::Item ==> feed_next(phase, input)
            == FeedPhase::Reading,
        phase == FeedPhase::Reading && (input == FeedInput::Broken || input == FeedInput::Ended)
            ==> feed_next(phase, input) == FeedPhase::Pausing,
{
}

// ---- headers ---------------------------------------------------------------------------

/// Whether an error is that of a failed response: not found for 404, otherwise the
/// code, which is 500 if missing.
pub open spec fn is_failure(e: DooverError, code: Option<i32>, message: Seq<char>) -> bool {
    let c = match code {
        Some(c) => c,
        None => 500i32,
    };
    match e {
        DooverError::NotFound(m) => c == 404 && m@ == message,
        DooverError::Http { code, message: m } => c != 404 && code == c && m@ == message,
        _ => false,
    }
}

/// The error of a failed response.
pub fn failure(code: Option<i32>, message: String) -> (e: DooverError)
    ensures
        is_failure(e, code, message@),
{
    let c = match code {
        Some(c) => c,
        None => 500i32,
    };
    if c == 404 {
        DooverError::NotFound(message)
    } else {
        DooverError::Http { code: c, message }
    }
}

/// What the header of a sidecar's response means.
pub fn check_response_header(success: bool, code: Option<i32>, message: Option<String>) -> (r: Result<
    (),
    DooverError,
>)
    ensures
        match r {
            Ok(_) => success,
            Err(e) => !success && is_failure(
                e,
                code,
                match message {
                    Some(m) => m@,
                    None => "Unknown error"@,
                },
            ),
        },
{
    if success {
        return Ok(());
    }
    let message = match message {
        Some(m) => m,
        None => "Unknown error".to_owned(),
    };
    Err(failure(code, message))
}

/// Whether a probe of a service found it serving: the number that it answered is
/// the one for serving.
pub fn is_serving(status: Option<i32>) -> (r: bool)
    ensures
        r == (status == Some(1i32)),
{
    match status {
        Some(s) => s == 1,
        None => false,
    }
}

} // verus!
