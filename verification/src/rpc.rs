//! Remote calls over channels.
//!
//! A request is a message on a channel; the responder updates the same message
//! with a final status, perhaps after intermediate ones, and the caller resolves
//! its pending call from that update.
use vstd::prelude::*;

use crate::error::DooverError;
use crate::events::{Event, MESSAGE_CREATE, MESSAGE_UPDATE, ONE_SHOT_MESSAGE};
use crate::json::{
    at, empty_obj, entries_of, field, field_or_null, lemma_at_one, lemma_first_is_position,
    lemma_position, str_field, Json, Value,
};
use crate::json_text::{json_text, to_text, written};
use crate::models::id_of;
use crate::tags::handle::opt_view;
use crate::text::{concat, opt_chars, same};

verus! {

/// The channel that calls go over by default.
pub const RPC_CHANNEL: &'static str = "dv-rpc";

/// How long a call waits by default, in milliseconds.
pub const DEFAULT_CALL_TIMEOUT_MS: u64 = 30_000;

/// An error that a handler returns.
#[derive(Debug, Clone)]
pub struct RpcError {
    pub code: String,
    pub message: String,
}

impl RpcError {
    /// An error from its code and message.
    pub fn new(code: &str, message: &str) -> (e: Self)
        ensures
            e.code@ == code@,
            e.message@ == message@,
    {
        RpcError { code: code.to_owned(), message: message.to_owned() }
    }

    /// The text of the error.
    pub open spec fn spec_text(&self) -> Seq<char> {
        self.code@ + ": "@ + self.message@
    }

    /// The text of the error.
    pub fn text(&self) -> (r: String)
        ensures
            r@ == self.spec_text(),
    {
        let mut r = concat(self.code.as_str(), ": ");
        r.append(self.message.as_str());
        r
    }
}

// ---- payloads ------------------------------------------------------------------

/// The status document with only a code.
pub open spec fn status_doc(code: Seq<char>) -> Json {
    Json::Obj(seq![("code"@, Json::Str(code))])
}

/// The parameters of a call; the empty object if there are none.
pub open spec fn request_doc(params: Option<Value>) -> Json {
    match params {
        Some(v) => v@,
        None => empty_obj(),
    }
}

fn request_or_empty(params: Option<Value>) -> (v: Value)
    ensures
        v@ == request_doc(params),
{
    match params {
        Some(v) => v,
        None => Value::empty_object(),
    }
}

/// The message that makes a call, perhaps of one app alone.
pub open spec fn call_doc(method: Seq<char>, request: Json, app_key: Option<Seq<char>>) -> Json {
    Json::Obj(
        seq![
            ("type"@, Json::Str("rpc"@)),
            ("method"@, Json::Str(method)),
            ("request"@, request),
            ("status"@, status_doc("sent"@)),
            ("response"@, empty_obj()),
        ] + (match app_key {
            Some(k) => seq![("app_key"@, Json::Str(k))],
            None => Seq::empty(),
        }),
    )
}

fn call_request(method: &str, params: Option<Value>, app_key: Option<&str>) -> (v: Value)
    ensures
        v@ == call_doc(method@, request_doc(params), opt_view(app_key)),
{
    let mut e: Vec<(String, Value)> = Vec::new();
    e.push(("type".to_owned(), Value::text("rpc")));
    e.push(("method".to_owned(), Value::text(method)));
    e.push(("request".to_owned(), request_or_empty(params)));
    e.push(("status".to_owned(), crate::api::data::single("code", Value::text("sent"))));
    e.push(("response".to_owned(), Value::empty_object()));
    let ghost head = seq![
        ("type"@, Json::Str("rpc"@)),
        ("method"@, Json::Str(method@)),
        ("request"@, request_doc(params)),
        ("status"@, status_doc("sent"@)),
        ("response"@, empty_obj()),
    ];
    assert(entries_of(e@) =~= head);
    match app_key {
        Some(k) => {
            e.push(("app_key".to_owned(), Value::text(k)));
            assert(entries_of(e@) =~= head + seq![("app_key"@, Json::Str(k@))]);
        },
        None => {
            assert(entries_of(e@) =~= head + Seq::empty());
        },
    }
    Value::object(e)
}

/// A status with a code and a message.
pub open spec fn full_status(code: Seq<char>, message: Json) -> Json {
    Json::Obj(seq![("code"@, Json::Str(code)), ("message"@, message)])
}

fn write_status(code: &str, message: Value) -> (v: Value)
    ensures
        v@ == full_status(code@, message@),
{
    let mut e: Vec<(String, Value)> = Vec::new();
    e.push(("code".to_owned(), Value::text(code)));
    e.push(("message".to_owned(), message));
    assert(entries_of(e@) =~= seq![("code"@, Json::Str(code@)), ("message"@, message@)]);
    Value::object(e)
}

/// The update that answers a call with a status and a response.
pub open spec fn reply_doc(status: Json, response: Json) -> Json {
    Json::Obj(seq![("status"@, status), ("response"@, response)])
}

fn write_reply(status: Value, response: Value) -> (v: Value)
    ensures
        v@ == reply_doc(status@, response@),
{
    let mut e: Vec<(String, Value)> = Vec::new();
    e.push(("status".to_owned(), status));
    e.push(("response".to_owned(), response));
    assert(entries_of(e@) =~= seq![("status"@, status@), ("response"@, response@)]);
    Value::object(e)
}

/// The update that answers a call with its result.
pub fn success_payload(response: Value) -> (v: Value)
    ensures
        v@ == reply_doc(full_status("success"@, Json::Null), response@),
{
    write_reply(write_status("success", Value::Null), response)
}

/// The update that answers a call with an error.
pub fn error_payload(code: &str, message: &str) -> (v: Value)
    ensures
        v@ == reply_doc(
            full_status("error"@, full_status(code@, Json::Str(message@))),
            empty_obj(),
        ),
{
    let inner = write_status(code, Value::text(message));
    write_reply(write_status("error", inner), Value::empty_object())
}

/// Which message a handler answers.
#[derive(Debug, Clone)]
pub struct RpcContext {
    pub method: String,
    pub channel: String,
    /// Missing for one-shot requests, which cannot be answered.
    pub message_id: Option<u64>,
}

impl RpcContext {
    /// The update that says that the request was received. One-shot requests
    /// cannot be acknowledged.
    pub fn acknowledge(&self, now_ms: i64) -> (r: Result<(u64, Value), DooverError>)
        ensures
            match self.message_id {
                Some(id) => r matches Ok((to, v)) && to == id && v@ == Json::Obj(
                    seq![
                        (
                            "status"@,
                            full_status(
                                "acknowledged"@,
                                Json::Obj(seq![("timestamp"@, Json::Int(now_ms as int))]),
                            ),
                        ),
                    ],
                ),
                None => r matches Err(DooverError::Other(m)) && m@
                    == "cannot acknowledge a one-shot rpc request"@,
            },
    {
        match self.message_id {
            Some(id) => {
                let stamp = crate::api::data::single("timestamp", Value::signed(now_ms));
                let status = write_status("acknowledged", stamp);
                Ok((id, crate::api::data::single("status", status)))
            },
            None => Err(
                DooverError::Other("cannot acknowledge a one-shot rpc request".to_owned()),
            ),
        }
    }

    /// The update that says when to expect the result. One-shot requests cannot
    /// be deferred.
    pub fn defer(&self, now_ms: i64, until_ms: i64) -> (r: Result<(u64, Value), DooverError>)
        ensures
            match self.message_id {
                Some(id) => r matches Ok((to, v)) && to == id && v@ == Json::Obj(
                    seq![
                        (
                            "status"@,
                            full_status(
                                "deferred"@,
                                Json::Obj(
                                    seq![
                                        ("until"@, Json::Int(until_ms as int)),
                                        ("at"@, Json::Int(now_ms as int)),
                                    ],
                                ),
                            ),
                        ),
                    ],
                ),
                None => r matches Err(DooverError::Other(m)) && m@
                    == "cannot defer a one-shot rpc request"@,
            },
    {
        match self.message_id {
            Some(id) => {
                let mut e: Vec<(String, Value)> = Vec::new();
                e.push(("until".to_owned(), Value::signed(until_ms)));
                e.push(("at".to_owned(), Value::signed(now_ms)));
                assert(entries_of(e@) =~= seq![
                    ("until"@, Json::Int(until_ms as int)),
                    ("at"@, Json::Int(now_ms as int)),
                ]);
                let status = write_status("deferred", Value::object(e));
                Ok((id, crate::api::data::single("status", status)))
            },
            None => Err(DooverError::Other("cannot defer a one-shot rpc request".to_owned())),
        }
    }
}

/// The error of a call that waited too long; `secs` is how long, as text.
pub fn timed_out(method: &str, secs: &str) -> (e: DooverError)
    ensures
        e matches DooverError::Other(m) && m@ == "TIMEOUT: RPC call '"@ + method@
            + "' timed out after "@ + secs@ + "s"@,
{
    let mut m = concat("TIMEOUT: RPC call '", method);
    m.append("' timed out after ");
    m.append(secs);
    m.append("s");
    DooverError::Other(m)
}

/// The error of a call whose answer can no longer come.
pub fn abandoned(method: &str) -> (e: DooverError)
    ensures
        e matches DooverError::Other(m) && m@ == "RPC call '"@ + method@ + "' was abandoned"@,
{
    let mut m = concat("RPC call '", method);
    m.append("' was abandoned");
    DooverError::Other(m)
}

/// What a call returns for an answer.
pub fn call_outcome(answer: Result<Value, RpcError>) -> (r: Result<Value, DooverError>)
    ensures
        match answer {
            Ok(v) => r == Ok::<Value, DooverError>(v),
            Err(e) => r matches Err(DooverError::Other(m)) && m@ == e.spec_text(),
        },
{
    match answer {
        Ok(v) => Ok(v),
        Err(e) => Err(DooverError::Other(e.text())),
    }
}

// ---- the manager ---------------------------------------------------------------

/// A registered handler: on which channel, for which method, and its number.
#[derive(Debug)]
struct Registration {
    channel: Option<String>,
    method: String,
    handler: u64,
}

/// The model of a registration.
pub type Registered = (Option<Seq<char>>, Seq<char>, u64);

/// The calls that wait, the handlers that answer, and the channels listened to.
#[derive(Debug)]
pub struct RpcManager {
    app_key: Option<String>,
    persistent: bool,
    handlers: Vec<Registration>,
    pending: Vec<u64>,
    subscribed: Vec<String>,
}

/// The model of the manager.
#[verifier::ext_equal]
pub struct ManagerView {
    pub app_key: Option<Seq<char>>,
    /// Whether events arrive at all.
    pub persistent: bool,
    pub handlers: Seq<Registered>,
    pub pending: Set<u64>,
    pub subscribed: Set<Seq<char>>,
}

impl View for RpcManager {
    type V = ManagerView;

    closed spec fn view(&self) -> ManagerView {
        ManagerView {
            app_key: opt_chars(self.app_key),
            persistent: self.persistent,
            handlers: Seq::new(
                self.handlers@.len(),
                |i: int|
                    (
                        opt_chars(self.handlers@[i].channel),
                        self.handlers@[i].method@,
                        self.handlers@[i].handler,
                    ),
            ),
            pending: self.pending@.to_set(),
            subscribed: crate::text::views(self.subscribed@).to_set(),
        }
    }
}

/// The handler of exactly this channel and method.
pub open spec fn exact_handler(
    list: Seq<Registered>,
    channel: Option<Seq<char>>,
    method: Seq<char>,
) -> Option<u64>
    decreases list.len(),
{
    if list.len() == 0 {
        None
    } else if list.last().0 == channel && list.last().1 == method {
        Some(list.last().2)
    } else {
        exact_handler(list.drop_last(), channel, method)
    }
}

/// The handler of a request: one for its channel, else one for any channel.
pub open spec fn handler_for(
    list: Seq<Registered>,
    channel: Seq<char>,
    method: Seq<char>,
) -> Option<u64> {
    match exact_handler(list, Some(channel), method) {
        Some(h) => Some(h),
        None => exact_handler(list, None, method),
    }
}

/// What is to be done with a request.
#[derive(Debug)]
pub enum RequestAction {
    /// It is not for this app, or not a request at all.
    Ignore,
    /// Run the handler on the request.
    Run { handler: u64, context: RpcContext, request: Value },
}

/// Whether a message is a request that this app answers.
pub open spec fn is_ours(app_key: Option<Seq<char>>, data: Json) -> bool {
    &&& str_field(data, "type"@) == Some("rpc"@)
    &&& str_field(data, "method"@) is Some
    &&& (str_field(data, "app_key"@) is Some ==> str_field(data, "app_key"@) == app_key)
    &&& field(data, "request"@) is Some
}

/// Whether an event is one that the manager answers.
pub open spec fn answers(v: ManagerView, e: Event) -> bool {
    match field(e.payload@, "data"@) {
        Some(data) => is_ours(v.app_key, data) && handler_for(
            v.handlers,
            e.channel@,
            str_field(data, "method"@).unwrap(),
        ) is Some,
        None => false,
    }
}

/// Whether an action is the one that a request asks for. Requests for another app, and
/// what is no request, are ignored; a one-shot request cannot be answered.
pub open spec fn acts_on(v: ManagerView, e: Event, a: RequestAction) -> bool {
    match a {
        RequestAction::Ignore => !answers(v, e),
        RequestAction::Run { handler, context, request } => {
            let data = field_or_null(e.payload@, "data"@);
            &&& answers(v, e)
            &&& Some(context.method@) == str_field(data, "method"@)
            &&& Some(handler) == handler_for(v.handlers, e.channel@, context.method@)
            &&& context.channel@ == e.channel@
            &&& context.message_id == (if e.event_name@ == ONE_SHOT_MESSAGE@ {
                None
            } else {
                id_of(field(e.payload@, "id"@))
            })
            &&& Some(request@) == field(data, "request"@)
        },
    }
}

/// What came of an event.
#[derive(Debug)]
pub enum Routed {
    /// It may be a request.
    Request(RequestAction),
    /// It may answer a call: the call's message and the answer.
    Response(Option<(u64, Result<Value, RpcError>)>),
    /// It is neither.
    Nothing,
}

/// Whether an event may carry a request.
pub open spec fn is_request(e: Event) -> bool {
    e.event_name@ == MESSAGE_CREATE@ || e.event_name@ == ONE_SHOT_MESSAGE@
}

/// The text of an error's message.
pub open spec fn message_text(j: Json) -> Seq<char> {
    match j {
        Json::Str(s) => s,
        other => json_text(written(other)),
    }
}

fn value_to_message(v: &Value) -> (r: String)
    ensures
        r@ == message_text(v@),
{
    match v.as_str() {
        Some(s) => s.to_owned(),
        None => to_text(v),
    }
}

/// The answer that an update holds.
pub enum Answer {
    /// The call is not answered yet, or the status is not known.
    Waiting,
    Success(Json),
    Error(Seq<char>, Seq<char>),
}

/// The answer that the data of an update holds.
pub open spec fn answer_of(data: Json) -> Answer {
    match field(data, "status"@) {
        None => Answer::Waiting,
        Some(status) => match str_field(status, "code"@) {
            None => Answer::Waiting,
            Some(code) => if code == "success"@ {
                Answer::Success(
                    match field(data, "response"@) {
                        Some(r) => r,
                        None => empty_obj(),
                    },
                )
            } else if code == "error"@ {
                match field(status, "message"@) {
                    Some(m) => if m is Obj {
                        Answer::Error(
                            match str_field(m, "code"@) {
                                Some(c) => c,
                                None => "UNKNOWN"@,
                            },
                            match field(m, "message"@) {
                                Some(t) => message_text(t),
                                None => Seq::empty(),
                            },
                        )
                    } else {
                        Answer::Error("UNKNOWN"@, message_text(m))
                    },
                    None => Answer::Error("UNKNOWN"@, Seq::empty()),
                }
            } else {
                Answer::Waiting
            },
        },
    }
}

fn read_answer(data: &Value) -> (r: Option<Result<Value, RpcError>>)
    ensures
        match r {
            None => answer_of(data@) is Waiting,
            Some(Ok(v)) => answer_of(data@) == Answer::Success(v@),
            Some(Err(e)) => answer_of(data@) == Answer::Error(e.code@, e.message@),
        },
{
    let status = match data.get("status") {
        Some(s) => s,
        None => {
            return None;
        },
    };
    let code = match status.get_string("code") {
        Some(c) => c,
        None => {
            return None;
        },
    };
    if same(code.as_str(), "success") {
        return Some(
            Ok(
                match data.get("response") {
                    Some(r) => r.clone(),
                    None => Value::empty_object(),
                },
            ),
        );
    }
    if !same(code.as_str(), "error") {
        return None;
    }
    let e = match status.get("message") {
        Some(m) => {
            if m.is_object() {
                let code = match m.get_string("code") {
                    Some(c) => c,
                    None => "UNKNOWN".to_owned(),
                };
                let message = match m.get("message") {
                    Some(t) => value_to_message(t),
                    None => {
                        let none = String::new();
                        assert(none@ =~= Seq::empty());
                        none
                    },
                };
                RpcError { code, message }
            } else {
                RpcError { code: "UNKNOWN".to_owned(), message: value_to_message(m) }
            }
        },
        None => {
            let none = String::new();
            assert(none@ =~= Seq::empty());
            RpcError { code: "UNKNOWN".to_owned(), message: none }
        },
    };
    Some(Err(e))
}

impl RpcManager {
    /// No call waits twice, and no channel is listened to twice.
    pub closed spec fn wf(&self) -> bool {
        &&& self.pending@.no_duplicates()
        &&& crate::text::views(self.subscribed@).no_duplicates()
    }

    /// A manager without handlers. Without a persistent connection no events
    /// arrive.
    pub fn new(app_key: Option<String>, persistent: bool) -> (m: Self)
        ensures
            m.wf(),
            m@ == (ManagerView {
                app_key: opt_chars(app_key),
                persistent,
                handlers: Seq::empty(),
                pending: Set::empty(),
                subscribed: Set::empty(),
            }),
    {
        let m = RpcManager {
            app_key,
            persistent,
            handlers: Vec::new(),
            pending: Vec::new(),
            subscribed: Vec::new(),
        };
        assert(m@.handlers =~= Seq::empty());
        assert(m@.pending =~= Set::empty());
        assert(m@.subscribed =~= Set::empty());
        m
    }

    /// Notes that a channel's requests are wanted. Returns whether its events
    /// must be asked for: the first time, if events arrive at all.
    pub fn subscribe(&mut self, channel: &str) -> (newly: bool)
        requires
            old(self).wf(),
        ensures
            final(self).wf(),
            newly == (old(self)@.persistent && !old(self)@.subscribed.contains(channel@)),
            final(self)@ == (if old(self)@.persistent {
                ManagerView {
                    subscribed: old(self)@.subscribed.insert(channel@),
                    ..old(self)@
                }
            } else {
                old(self)@
            }),
    {
        if !self.persistent {
            return false;
        }
        let ghost was = self@;
        let ghost names = crate::text::views(self.subscribed@);
        let wanted = channel.to_owned();
        let mut i: usize = 0;
        while i < self.subscribed.len()
            invariant
                i <= self.subscribed@.len(),
                names == crate::text::views(self.subscribed@),
                *self == *old(self),
                was == self@,
                old(self).wf(),
                wanted@ == channel@,
                forall|j: int| 0 <= j < i ==> #[trigger] names[j] != channel@,
            decreases self.subscribed@.len() - i,
        {
            if self.subscribed[i] == wanted {
                assert(names[i as int] == channel@);
                assert(names.contains(channel@));
                assert(self@.subscribed =~= was.subscribed.insert(channel@));
                return false;
            }
            assert(names[i as int] != channel@);
            i += 1;
        }
        assert(!names.contains(channel@));
        self.subscribed.push(wanted);
        proof {
            let after = crate::text::views(self.subscribed@);
            assert(after =~= names.push(channel@));
            assert forall|x: Seq<char>| after.to_set().contains(x) == names.to_set().insert(
                channel@,
            ).contains(x) by {
                if names.contains(x) {
                    let k = choose|k: int| 0 <= k < names.len() && names[k] == x;
                    assert(after[k] == x);
                }
                if after.contains(x) && x != channel@ {
                    let k = choose|k: int| 0 <= k < after.len() && after[k] == x;
                    assert(names[k] == x);
                }
                assert(after[names.len() as int] == channel@);
            }
            assert(after.to_set() =~= names.to_set().insert(channel@));
            assert(self@ =~= ManagerView {
                subscribed: was.subscribed.insert(channel@),
                ..was
            });
        }
        true
    }

    /// The message that makes a call without waiting; its fields stand in another
    /// order.
    pub fn fire_and_forget(method: &str, params: Option<Value>) -> (v: Value)
        ensures
            v@ == Json::Obj(
                seq![
                    ("type"@, Json::Str("rpc"@)),
                    ("request"@, request_doc(params)),
                    ("method"@, Json::Str(method@)),
                    ("status"@, status_doc("sent"@)),
                    ("response"@, empty_obj()),
                ],
            ),
    {
        let mut e: Vec<(String, Value)> = Vec::new();
        e.push(("type".to_owned(), Value::text("rpc")));
        e.push(("request".to_owned(), request_or_empty(params)));
        e.push(("method".to_owned(), Value::text(method)));
        e.push(("status".to_owned(), crate::api::data::single("code", Value::text("sent"))));
        e.push(("response".to_owned(), Value::empty_object()));
        assert(entries_of(e@) =~= seq![
            ("type"@, Json::Str("rpc"@)),
            ("request"@, request_doc(params)),
            ("method"@, Json::Str(method@)),
            ("status"@, status_doc("sent"@)),
            ("response"@, empty_obj()),
        ]);
        Value::object(e)
    }

    /// Begins a call: notes that the answers on the channel are wanted, and gives the
    /// message that makes the call. Returns, too, whether the channel's events must be
    /// asked for.
    pub fn call(
        &mut self,
        method: &str,
        params: Option<Value>,
        channel: &str,
        app_key: Option<&str>,
    ) -> (r: (bool, Value))
        requires
            old(self).wf(),
        ensures
            final(self).wf(),
            r.0 == (old(self)@.persistent && !old(self)@.subscribed.contains(channel@)),
            r.1@ == call_doc(method@, request_doc(params), opt_view(app_key)),
            final(self)@ == (if old(self)@.persistent {
                ManagerView {
                    subscribed: old(self)@.subscribed.insert(channel@),
                    ..old(self)@
                }
            } else {
                old(self)@
            }),
    {
        let newly = self.subscribe(channel);
        (newly, call_request(method, params, app_key))
    }

    /// Registers a handler, on one channel or on any; an earlier one for the same
    /// channel and method gives way. Returns whether the channel's events must be
    /// asked for.
    pub fn register_handler(&mut self, channel: Option<&str>, method: &str, handler: u64) -> (newly:
        bool)
        requires
            old(self).wf(),
        ensures
            final(self).wf(),
            final(self)@.handlers == old(self)@.handlers.push(
                (opt_view(channel), method@, handler),
            ),
            final(self)@.app_key == old(self)@.app_key,
            final(self)@.persistent == old(self)@.persistent,
            final(self)@.pending == old(self)@.pending,
            final(self)@.subscribed == (match channel {
                Some(c) => if old(self)@.persistent {
                    old(self)@.subscribed.insert(c@)
                } else {
                    old(self)@.subscribed
                },
                None => old(self)@.subscribed,
            }),
            newly == (match channel {
                Some(c) => old(self)@.persistent && !old(self)@.subscribed.contains(c@),
                None => false,
            }),
    {
        let ghost before = self@.handlers;
        let owned: Option<String> = match channel {
            Some(c) => Some(c.to_owned()),
            None => None,
        };
        self.handlers.push(Registration { channel: owned, method: method.to_owned(), handler });
        assert(self@.handlers =~= before.push(
            (opt_view(channel), method@, handler),
        ));
        match channel {
            Some(c) => self.subscribe(c),
            None => false,
        }
    }

    fn find_handler(&self, channel: &Option<String>, method: &str) -> (r: Option<u64>)
        ensures
            r == exact_handler(self@.handlers, opt_chars(*channel), method@),
    {
        let ghost all = self@.handlers;
        let wanted = method.to_owned();
        let mut i: usize = self.handlers.len();
        assert(all.take(all.len() as int) =~= all);
        while i > 0
            invariant
                i <= self.handlers@.len(),
                all == self@.handlers,
                all.len() == self.handlers@.len(),
                wanted@ == method@,
                exact_handler(all, opt_chars(*channel), method@) == exact_handler(
                    all.take(i as int),
                    opt_chars(*channel),
                    method@,
                ),
            decreases i,
        {
            i -= 1;
            proof {
                assert(all.take(i as int + 1).drop_last() =~= all.take(i as int));
                assert(all.take(i as int + 1).last() == all[i as int]);
            }
            let r = &self.handlers[i];
            let on_channel = match (&r.channel, channel) {
                (Some(a), Some(b)) => *a == *b,
                (None, None) => true,
                _ => false,
            };
            if on_channel && r.method == wanted {
                return Some(r.handler);
            }
        }
        None
    }

    /// The handler of a request: one for its channel, else one for any channel.
    pub fn get_handler(&self, channel: &str, method: &str) -> (r: Option<u64>)
        ensures
            r == handler_for(self@.handlers, channel@, method@),
    {
        let on = Some(channel.to_owned());
        match self.find_handler(&on, method) {
            Some(h) => Some(h),
            None => self.find_handler(&None, method),
        }
    }

    /// Notes that a call waits for an answer to its message.
    pub fn begin_call(&mut self, message_id: u64)
        requires
            old(self).wf(),
        ensures
            final(self).wf(),
            final(self)@ == (ManagerView {
                pending: old(self)@.pending.insert(message_id),
                ..old(self)@
            }),
    {
        let ghost was = self@;
        let ghost list = self.pending@;
        if self.is_pending(message_id) {
            assert(self@.pending =~= was.pending.insert(message_id));
            return;
        }
        self.pending.push(message_id);
        proof {
            let after = self.pending@;
            assert forall|x: u64| after.to_set().contains(x) == list.to_set().insert(
                message_id,
            ).contains(x) by {
                if list.contains(x) {
                    let k = choose|k: int| 0 <= k < list.len() && list[k] == x;
                    assert(after[k] == x);
                }
                assert(after[list.len() as int] == message_id);
            }
            assert(self@.pending =~= was.pending.insert(message_id));
        }
    }

    /// Whether a call waits for an answer to the message.
    pub fn is_pending(&self, message_id: u64) -> (r: bool)
        ensures
            r == self@.pending.contains(message_id),
    {
        let mut i: usize = 0;
        while i < self.pending.len()
            invariant
                i <= self.pending@.len(),
                forall|j: int| 0 <= j < i ==> self.pending@[j] != message_id,
            decreases self.pending@.len() - i,
        {
            if self.pending[i] == message_id {
                return true;
            }
            i += 1;
        }
        false
    }

    /// Notes that nothing waits for an answer to the message any more. Returns
    /// whether something did.
    pub fn end_call(&mut self, message_id: u64) -> (waited: bool)
        requires
            old(self).wf(),
        ensures
            final(self).wf(),
            waited == old(self)@.pending.contains(message_id),
            final(self)@ == (ManagerView {
                pending: old(self)@.pending.remove(message_id),
                ..old(self)@
            }),
    {
        let ghost was = self@;
        let ghost list = self.pending@;
        let mut i: usize = 0;
        while i < self.pending.len()
            invariant
                i <= self.pending@.len(),
                *self == *old(self),
                list == self.pending@,
                list.no_duplicates(),
                was == self@,
                old(self).wf(),
                forall|j: int| 0 <= j < i ==> list[j] != message_id,
            decreases self.pending@.len() - i,
        {
            if self.pending[i] == message_id {
                let _gone = self.pending.remove(i);
                proof {
                    let after = self.pending@;
                    assert(after == list.remove(i as int));
                    assert forall|x: u64| after.to_set().contains(x) == list.to_set().remove(
                        message_id,
                    ).contains(x) by {
                        if after.contains(x) {
                            let k = choose|k: int| 0 <= k < after.len() && after[k] == x;
                            let from = if k < i {
                                k
                            } else {
                                k + 1
                            };
                            assert(list[from] == x);
                            assert(from != i && list[from] != list[i as int]);
                        }
                        if list.contains(x) && x != message_id {
                            let k = choose|k: int| 0 <= k < list.len() && list[k] == x;
                            let to = if k < i {
                                k
                            } else {
                                k - 1
                            };
                            assert(after[to] == x);
                        }
                    }
                    assert(self@.pending =~= was.pending.remove(message_id));
                    assert(list[i as int] == message_id);
                }
                return true;
            }
            i += 1;
        }
        assert(self@.pending =~= was.pending.remove(message_id));
        false
    }

    /// Decides what is to be done with a request. Requests for another app, and
    /// what is no request, are ignored; a one-shot request cannot be answered.
    pub fn handle_request(&self, event: &Event) -> (a: RequestAction)
        ensures
            acts_on(self@, *event, a),
    {
        let data = match event.message_data() {
            Some(d) => d,
            None => {
                return RequestAction::Ignore;
            },
        };
        match data.get_string("type") {
            Some(t) => {
                if !same(t.as_str(), "rpc") {
                    return RequestAction::Ignore;
                }
            },
            None => {
                return RequestAction::Ignore;
            },
        }
        let method = match data.get_string("method") {
            Some(m) => m,
            None => {
                return RequestAction::Ignore;
            },
        };
        if let Some(target) = data.get_string("app_key") {
            let ours = match &self.app_key {
                Some(k) => *k == target,
                None => false,
            };
            if !ours {
                return RequestAction::Ignore;
            }
        }
        let request = match data.get("request") {
            Some(r) => r.clone(),
            None => {
                return RequestAction::Ignore;
            },
        };
        let handler: u64 = match self.get_handler(event.channel.as_str(), method.as_str()) {
            Some(h) => h,
            None => {
                return RequestAction::Ignore;
            },
        };
        let message_id = if event.is_one_shot() {
            None
        } else {
            event.message_id()
        };
        let context = RpcContext { method, channel: event.channel.clone(), message_id };
        RequestAction::Run { handler, context, request }
    }

    /// Resolves a pending call from an update of its message. Intermediate
    /// statuses leave the call waiting.
    pub fn handle_response(&mut self, event: &Event) -> (r: Option<(u64, Result<Value, RpcError>)>)
        requires
            old(self).wf(),
        ensures
            final(self).wf(),
            resolves(old(self)@, *event, final(self)@, r),
    {
        let data = match event.message_data() {
            Some(d) => d,
            None => {
                return None;
            },
        };
        let message_id: u64 = match event.message_id() {
            Some(id) => id,
            None => {
                return None;
            },
        };
        match read_answer(data) {
            Some(answer) => {
                let ghost was = self@;
                if self.end_call(message_id) {
                    Some((message_id, answer))
                } else {
                    assert(was.pending.remove(message_id) =~= was.pending);
                    None
                }
            },
            None => None,
        }
    }

    /// Routes an event: new messages and one-shot messages are requests, updates are
    /// responses.
    pub fn handle_event(&mut self, event: &Event) -> (r: Routed)
        requires
            old(self).wf(),
        ensures
            final(self).wf(),
            match r {
                Routed::Request(a) => is_request(*event) && *final(self) == *old(self) && acts_on(
                    old(self)@,
                    *event,
                    a,
                ),
                Routed::Response(x) => !is_request(*event) && event.event_name@ == MESSAGE_UPDATE@
                    && resolves(old(self)@, *event, final(self)@, x),
                Routed::Nothing => !is_request(*event) && event.event_name@ != MESSAGE_UPDATE@
                    && *final(self) == *old(self),
            },
    {
        if event.is_message_create() || event.is_one_shot() {
            Routed::Request(self.handle_request(event))
        } else if event.is_message_update() {
            Routed::Response(self.handle_response(event))
        } else {
            Routed::Nothing
        }
    }

    /// The channels listened to, each once, in no particular order.
    pub fn subscribed_channels(&self) -> (list: Vec<String>)
        requires
            self.wf(),
        ensures
            crate::text::views(list@).to_set() == self@.subscribed,
            crate::text::views(list@).no_duplicates(),
    {
        crate::text::copy_all(&self.subscribed)
    }
}

/// Whether an update resolves calls as it should: exactly the pending call of
/// its message, once the status is final.
pub open spec fn resolves(
    was: ManagerView,
    e: Event,
    is: ManagerView,
    r: Option<(u64, Result<Value, RpcError>)>,
) -> bool {
    match (field(e.payload@, "data"@), id_of(field(e.payload@, "id"@))) {
        (Some(data), Some(id)) => if was.pending.contains(id) && !(answer_of(data) is Waiting) {
            &&& is == (ManagerView { pending: was.pending.remove(id), ..was })
            &&& r matches Some((to, answer)) && to == id && match answer {
                Ok(v) => answer_of(data) == Answer::Success(v@),
                Err(e) => answer_of(data) == Answer::Error(e.code@, e.message@),
            }
        } else {
            r is None && is == was
        },
        _ => r is None && is == was,
    }
}

/// The update that answers a request with what its handler returned, and the message it
/// goes to. A one-shot request is not answered.
pub fn answer_request(context: &RpcContext, outcome: Result<Value, RpcError>) -> (r: Option<
    (u64, Value),
>)
    ensures
        match (context.message_id, r) {
            (Some(id), Some((to, v))) => to == id && v@ == match outcome {
                Ok(response) => reply_doc(full_status("success"@, Json::Null), response@),
                Err(e) => reply_doc(
                    full_status("error"@, full_status(e.code@, Json::Str(e.message@))),
                    empty_obj(),
                ),
            },
            (None, None) => true,
            _ => false,
        },
{
    let id: u64 = match context.message_id {
        Some(id) => id,
        None => {
            return None;
        },
    };
    match outcome {
        Ok(response) => Some((id, success_payload(response))),
        Err(e) => Some((id, error_payload(e.code.as_str(), e.message.as_str()))),
    }
}

// ---- laws -----------------------------------------------------------------------

/// The handler registered last for a channel and a method is the one that
/// answers, and a handler for the channel goes before one for any channel.
pub proof fn law_last_registration_answers(
    list: Seq<Registered>,
    channel: Seq<char>,
    method: Seq<char>,
    h: u64,
)
    ensures
        handler_for(list.push((Some(channel), method, h)), channel, method) == Some(h),
        exact_handler(list, Some(channel), method) is None ==> handler_for(
            list.push((None, method, h)),
            channel,
            method,
        ) == Some(h),
{
    let one = list.push((Some(channel), method, h));
    assert(one.drop_last() =~= list);
    let any = list.push((None, method, h));
    assert(any.drop_last() =~= list);
}

/// A call reaches exactly the app that it names, or any app if it names none, with its
/// method and its request.
pub proof fn law_calls_reach_their_app(
    ours: Option<Seq<char>>,
    method: Seq<char>,
    request: Json,
    app_key: Option<Seq<char>>,
)
    ensures
        is_ours(ours, call_doc(method, request, app_key)) == (app_key is None || app_key == ours),
        str_field(call_doc(method, request, app_key), "method"@) == Some(method),
        field(call_doc(method, request, app_key), "request"@) == Some(request),
{
    reveal_strlit("type");
    reveal_strlit("method");
    reveal_strlit("request");
    reveal_strlit("status");
    reveal_strlit("response");
    reveal_strlit("app_key");
    let e = call_doc(method, request, app_key)->Obj_0;
    assert("type"@.len() == 4 && "method"@.len() == 6 && "request"@.len() == 7);
    assert("status"@.len() == 6 && "response"@.len() == 8 && "app_key"@.len() == 7);
    assert("request"@[0] == 'r' && "app_key"@[0] == 'a');
    assert(e[0].0 == "type"@ && e[1].0 == "method"@ && e[2].0 == "request"@);
    assert(e[3].0 == "status"@ && e[4].0 == "response"@);
    lemma_first_is_position(e, "type"@, 0);
    lemma_first_is_position(e, "method"@, 1);
    lemma_first_is_position(e, "request"@, 2);
    match app_key {
        Some(k) => {
            assert(e[5] == ("app_key"@, Json::Str(k)));
            lemma_first_is_position(e, "app_key"@, 5);
        },
        None => {
            assert(e.len() == 5);
            lemma_position(e, "app_key"@);
        },
    }
}

/// A call is resolved at most once: after its answer a second one finds nothing.
pub proof fn law_a_call_is_resolved_once(
    was: ManagerView,
    e: Event,
    is: ManagerView,
    r: Option<(u64, Result<Value, RpcError>)>,
    again: ManagerView,
    r2: Option<(u64, Result<Value, RpcError>)>,
)
    requires
        resolves(was, e, is, r),
        resolves(is, e, again, r2),
    ensures
        r is Some ==> r2 is None,
        again == is,
{
}

/// What a responder writes as success or error, the caller reads as just that.
pub proof fn law_answers_read_back(response: Json, code: Seq<char>, message: Seq<char>)
    ensures
        answer_of(reply_doc(full_status("success"@, Json::Null), response)) == Answer::Success(
            response,
        ),
        answer_of(
            reply_doc(
                full_status("error"@, full_status(code, Json::Str(message))),
                empty_obj(),
            ),
        ) == Answer::Error(code, message),
{
    reveal_strlit("status");
    reveal_strlit("response");
    reveal_strlit("code");
    reveal_strlit("message");
    reveal_strlit("success");
    reveal_strlit("error");
    assert("status"@ != "response"@ && "code"@ != "message"@ && "success"@ != "error"@) by {
        assert("status"@[0] == 's' && "response"@[0] == 'r');
        assert("code"@[0] == 'c' && "message"@[0] == 'm');
        assert("success"@[0] == 's' && "error"@[0] == 'e');
    }
    lemma_pair("status"@, full_status("success"@, Json::Null), "response"@, response);
    lemma_pair("code"@, Json::Str("success"@), "message"@, Json::Null);
    let inner = full_status(code, Json::Str(message));
    lemma_pair("status"@, full_status("error"@, inner), "response"@, empty_obj());
    lemma_pair("code"@, Json::Str("error"@), "message"@, inner);
    lemma_pair("code"@, Json::Str(code), "message"@, Json::Str(message));
}

proof fn lemma_pair(a: Seq<char>, x: Json, b: Seq<char>, y: Json)
    requires
        a != b,
    ensures
        field(Json::Obj(seq![(a, x), (b, y)]), a) == Some(x),
        field(Json::Obj(seq![(a, x), (b, y)]), b) == Some(y),
{
    let e = seq![(a, x), (b, y)];
    assert(e[0].0 == a && e[1].0 == b);
    lemma_first_is_position(e, a, 0);
    lemma_first_is_position(e, b, 1);
}

/// An update resolves a call exactly if the call of its message is pending and the
/// update's status has the code `success` or `error`; the call then no longer waits, and
/// every other call waits as before. With success the answer is the update's response,
/// the empty object if it has none, and with error it is the error that the status tells.
pub proof fn law_only_final_statuses_resolve(
    was: ManagerView,
    e: Event,
    is: ManagerView,
    r: Option<(u64, Result<Value, RpcError>)>,
    id: u64,
    data: Json,
)
    requires
        resolves(was, e, is, r),
        field(e.payload@, "data"@) == Some(data),
        id_of(field(e.payload@, "id"@)) == Some(id),
    ensures
        ({
            let status = field_or_null(data, "status"@);
            let code = field_or_null(status, "code"@);
            let done = code == Json::Str("success"@) || code == Json::Str("error"@);
            &&& r is Some <==> was.pending.contains(id) && done
            &&& r is None ==> is == was
            &&& r is Some ==> r.unwrap().0 == id && is.pending.contains(id) == false && forall|other: u64|
                other != id ==> (#[trigger] is.pending.contains(other) <==> was.pending.contains(
                    other,
                ))
            &&& r is Some ==> is.handlers == was.handlers && is.subscribed == was.subscribed
                && is.app_key == was.app_key && is.persistent == was.persistent
            &&& r is Some ==> (r.unwrap().1 is Ok <==> code == Json::Str("success"@))
            &&& r matches Some((_, Ok(v))) ==> v@ == (match field(data, "response"@) {
                Some(response) => response,
                None => empty_obj(),
            })
            &&& r matches Some((_, Err(error))) ==> (match field(status, "message"@) {
                Some(Json::Obj(m)) => {
                    &&& error.code@ == (match at(m, "code"@) {
                        Some(Json::Str(c)) => c,
                        _ => "UNKNOWN"@,
                    })
                    &&& at(m, "message"@) matches Some(Json::Str(t)) ==> error.message@ == t
                    &&& at(m, "message"@) is None ==> error.message@.len() == 0
                },
                Some(Json::Str(t)) => error.code@ == "UNKNOWN"@ && error.message@ == t,
                Some(_) => error.code@ == "UNKNOWN"@,
                None => error.code@ == "UNKNOWN"@ && error.message@.len() == 0,
            })
        }),
{
    reveal_strlit("success");
    reveal_strlit("error");
    assert("success"@.len() == 7 && "error"@.len() == 5);
}

/// An update without data, or without a message, resolves nothing.
pub proof fn law_other_updates_resolve_nothing(
    was: ManagerView,
    e: Event,
    is: ManagerView,
    r: Option<(u64, Result<Value, RpcError>)>,
)
    requires
        resolves(was, e, is, r),
        field(e.payload@, "data"@) is None || id_of(field(e.payload@, "id"@)) is None,
    ensures
        r is None,
        is == was,
{
}

/// What acknowledges or defers a call leaves it waiting, and so does the status that a
/// call is sent with.
pub proof fn law_intermediate_statuses_leave_a_call_waiting(
    was: ManagerView,
    e: Event,
    is: ManagerView,
    r: Option<(u64, Result<Value, RpcError>)>,
    method: Seq<char>,
    request: Json,
    app_key: Option<Seq<char>>,
    message: Json,
    response: Json,
)
    requires
        resolves(was, e, is, r),
        ({
            let acknowledged = full_status("acknowledged"@, message);
            let deferred = full_status("deferred"@, message);
            let pending = full_status("pending"@, message);
            let data = field(e.payload@, "data"@);
            ||| data == Some(call_doc(method, request, app_key))
            ||| data == Some(Json::Obj(seq![("status"@, acknowledged)]))
            ||| data == Some(Json::Obj(seq![("status"@, deferred)]))
            ||| data == Some(Json::Obj(seq![("status"@, pending)]))
            ||| data == Some(reply_doc(acknowledged, response))
            ||| data == Some(reply_doc(deferred, response))
            ||| data == Some(reply_doc(pending, response))
        }),
    ensures
        r is None,
        is == was,
{
    reveal_strlit("success");
    reveal_strlit("error");
    reveal_strlit("acknowledged");
    reveal_strlit("deferred");
    reveal_strlit("pending");
    reveal_strlit("sent");
    reveal_strlit("code");
    reveal_strlit("message");
    reveal_strlit("status");
    reveal_strlit("response");
    reveal_strlit("type");
    reveal_strlit("method");
    reveal_strlit("request");
    assert("success"@.len() == 7 && "error"@.len() == 5 && "acknowledged"@.len() == 12);
    assert("deferred"@.len() == 8 && "sent"@.len() == 4);
    assert("pending"@.len() == 7 && "pending"@[0] == 'p' && "success"@[0] == 's');
    assert("code"@.len() == 4 && "message"@.len() == 7 && "status"@.len() == 6);
    assert("response"@.len() == 8 && "type"@.len() == 4 && "method"@.len() == 6);
    assert("request"@.len() == 7 && "status"@[0] == 's' && "method"@[0] == 'm');
    assert forall|code: Seq<char>|
        str_field(#[trigger] full_status(code, message), "code"@) == Some(code) by {
        lemma_pair("code"@, Json::Str(code), "message"@, message);
    }
    assert forall|s: Json|
        field(#[trigger] reply_doc(s, response), "status"@) == Some(s) by {
        lemma_pair("status"@, s, "response"@, response);
    }
    let a = full_status("acknowledged"@, message);
    let d = full_status("deferred"@, message);
    let p = full_status("pending"@, message);
    lemma_at_one("status"@, a, "status"@);
    lemma_at_one("status"@, d, "status"@);
    lemma_at_one("status"@, p, "status"@);
    let sent = status_doc("sent"@);
    lemma_at_one("code"@, Json::Str("sent"@), "code"@);
    let c = call_doc(method, request, app_key)->Obj_0;
    assert(c[0].0 == "type"@ && c[1].0 == "method"@ && c[2].0 == "request"@ && c[3] == (
        "status"@,
        sent,
    ));
    lemma_first_is_position(c, "status"@, 3);
    assert(answer_of(call_doc(method, request, app_key)) is Waiting);
    assert(str_field(a, "code"@) == Some("acknowledged"@));
    assert(str_field(d, "code"@) == Some("deferred"@));
    assert(str_field(p, "code"@) == Some("pending"@));
    assert(answer_of(Json::Obj(seq![("status"@, a)])) is Waiting);
    assert(answer_of(Json::Obj(seq![("status"@, d)])) is Waiting);
    assert(answer_of(Json::Obj(seq![("status"@, p)])) is Waiting);
    assert(field(reply_doc(a, response), "status"@) == Some(a));
    assert(field(reply_doc(d, response), "status"@) == Some(d));
    assert(field(reply_doc(p, response), "status"@) == Some(p));
}

/// A handler answers a method on a channel exactly if it was registered for it: the last
/// one for the channel itself, and where there is none the last one for any channel.
pub proof fn law_handlers_answer_what_they_are_registered_for(
    list: Seq<Registered>,
    channel: Seq<char>,
    method: Seq<char>,
)
    ensures
        match handler_for(list, channel, method) {
            Some(h) => exists|i: int|
                0 <= i < list.len() && (#[trigger] list[i]).1 == method && list[i].2 == h && (
                list[i].0 == Some(channel) || (list[i].0 is None && forall|j: int|
                    0 <= j < list.len() ==> !((#[trigger] list[j]).0 == Some(channel) && list[j].1
                        == method))) && forall|j: int|
                    i < j < list.len() ==> !((#[trigger] list[j]).0 == list[i].0 && list[j].1
                        == method),
            None => forall|j: int|
                0 <= j < list.len() ==> !((#[trigger] list[j]).1 == method && (list[j].0 is None
                    || list[j].0 == Some(channel))),
        },
{
    lemma_exact_handler(list, Some(channel), method);
    lemma_exact_handler(list, None, method);
}

proof fn lemma_exact_handler(list: Seq<Registered>, on: Option<Seq<char>>, method: Seq<char>)
    ensures
        match exact_handler(list, on, method) {
            Some(h) => exists|i: int|
                0 <= i < list.len() && (#[trigger] list[i]).1 == method && list[i].2 == h && list[i].0
                    == on && forall|j: int|
                    i < j < list.len() ==> !((#[trigger] list[j]).0 == on && list[j].1 == method),
            None => forall|j: int|
                0 <= j < list.len() ==> !((#[trigger] list[j]).0 == on && list[j].1 == method),
        },
    decreases list.len(),
{
    if list.len() > 0 {
        let d = list.drop_last();
        lemma_exact_handler(d, on, method);
        assert(forall|j: int| 0 <= j < d.len() ==> #[trigger] d[j] == list[j]);
        assert(list[list.len() - 1] == list.last());
        if !(list.last().0 == on && list.last().1 == method) {
            match exact_handler(d, on, method) {
                Some(h) => {
                    let i = choose|i: int|
                        0 <= i < d.len() && (#[trigger] d[i]).1 == method && d[i].2 == h && d[i].0
                            == on && forall|j: int|
                            i < j < d.len() ==> !((#[trigger] d[j]).0 == on && d[j].1 == method);
                    assert(list[i] == d[i]);
                    assert forall|j: int| i < j < list.len() implies !((#[trigger] list[j]).0 == on
                        && list[j].1 == method) by {
                        if j < d.len() {
                            assert(d[j] == list[j]);
                        }
                    }
                },
                None => {
                    assert forall|j: int| 0 <= j < list.len() implies !((#[trigger] list[j]).0 == on
                        && list[j].1 == method) by {
                        if j < d.len() {
                            assert(d[j] == list[j]);
                        }
                    }
                },
            }
        }
    }
}

/// A request runs its handler exactly if it is a call with a method and a request, names
/// this app or none, and a handler is registered for it. The handler gets the request, its
/// method and channel, and the message that it can answer, which a one-shot has not.
pub proof fn law_requests_run_their_handler(
    v: ManagerView,
    e: Event,
    a: RequestAction,
    data: Json,
    method: Seq<char>,
)
    requires
        acts_on(v, e, a),
        field(e.payload@, "data"@) == Some(data),
        field(data, "type"@) == Some(Json::Str("rpc"@)),
        field(data, "method"@) == Some(Json::Str(method)),
        field(data, "request"@) is Some,
    ensures
        ({
            let ours = match field(data, "app_key"@) {
                Some(Json::Str(k)) => v.app_key == Some(k),
                _ => true,
            };
            let runs = ours && handler_for(v.handlers, e.channel@, method) is Some;
            &&& a is Run <==> runs
            &&& a matches RequestAction::Run { handler, context, request } ==> {
                &&& Some(handler) == handler_for(v.handlers, e.channel@, method)
                &&& field(data, "request"@) == Some(request@)
                &&& context.method@ == method
                &&& context.channel@ == e.channel@
                &&& e.event_name@ == ONE_SHOT_MESSAGE@ ==> context.message_id is None
                &&& e.event_name@ != ONE_SHOT_MESSAGE@ ==> context.message_id == id_of(
                    field(e.payload@, "id"@),
                )
            }
        }),
{
}

/// What is no call, names no method or makes no request is ignored.
pub proof fn law_other_messages_are_ignored(v: ManagerView, e: Event, a: RequestAction)
    requires
        acts_on(v, e, a),
        ({
            let data = field_or_null(e.payload@, "data"@);
            ||| field_or_null(data, "type"@) != Json::Str("rpc"@)
            ||| !(field_or_null(data, "method"@) is Str)
            ||| field(data, "request"@) is None
        }),
    ensures
        a is Ignore,
{
}

/// A request without parameters carries an empty object, a status its code, and an error is
/// told as its code and its message.
pub proof fn law_requests_carry_their_parameters(params: Option<Value>, code: Seq<char>, e: RpcError)
    ensures
        params matches Some(v) ==> request_doc(params) == v@,
        params is None ==> request_doc(params) == empty_obj(),
        field(status_doc(code), "code"@) == Some(Json::Str(code)),
        e.spec_text() == e.code@ + ": "@ + e.message@,
{
    lemma_first_is_position(status_doc(code)->Obj_0, "code"@, 0);
}

} // verus!
