//! What is asked of the device agent, and what its replies mean.
use vstd::prelude::*;

use crate::channel_backend::{
    AggregateOptions, Attachment, ChannelAggregate, UpdateMessageOptions,
};
use crate::docker::grpc::{failure, is_failure};
use crate::docker::payload::{payload_fault, validate_payload};
use crate::diff::tidy;
use crate::error::{is_invalid, is_json_error, is_not_found, is_other, DooverError};
use crate::events::Event;
use crate::json::{empty_obj, opt_doc, Json, Value};
use crate::json_text::{from_text, json_parse, json_text, to_text, written};
use crate::text::{chars, concat, copy_opt, decimal, opt_chars, views, write_u64};

verus! {

/// The header of the agent's response.
#[derive(Debug)]
pub struct ResponseHeader {
    pub success: bool,
    /// Whether the agent is synced with the cloud.
    pub cloud_synced: bool,
    pub response_code: Option<i32>,
    pub response_message: Option<String>,
}

/// The state of the connection, as the headers of the agent's responses tell it.
#[derive(Debug, Clone, Copy, PartialEq, Eq, Structural)]
pub struct DdaStatus {
    /// Whether the last request succeeded.
    pub available: bool,
    /// Whether the agent is synced with the cloud.
    pub online: bool,
    /// Whether it has been, at least once.
    pub been_online: bool,
}

impl Default for DdaStatus {
    fn default() -> (s: Self)
        ensures
            s == (DdaStatus { available: false, online: false, been_online: false }),
    {
        DdaStatus { available: false, online: false, been_online: false }
    }
}

/// The state after a response.
pub open spec fn status_after(s: DdaStatus, header: Option<ResponseHeader>) -> DdaStatus {
    match header {
        Some(h) => DdaStatus {
            available: h.success,
            online: h.cloud_synced,
            been_online: s.been_online || h.cloud_synced,
        },
        None => s,
    }
}

impl DdaStatus {
    /// Whether the last request succeeded.
    pub fn is_available(&self) -> (r: bool)
        ensures
            r == self.available,
    {
        self.available
    }

    /// Whether the agent is synced with the cloud.
    pub fn is_online(&self) -> (r: bool)
        ensures
            r == self.online,
    {
        self.online
    }

    /// Whether the agent has been synced with the cloud.
    pub fn has_been_online(&self) -> (r: bool)
        ensures
            r == self.been_online,
    {
        self.been_online
    }

    /// Takes in a response.
    pub fn update(&mut self, header: &Option<ResponseHeader>)
        ensures
            *final(self) == status_after(*old(self), *header),
    {
        if let Some(h) = header {
            self.available = h.success;
            if h.cloud_synced {
                self.been_online = true;
                self.online = true;
            } else {
                self.online = false;
            }
        }
    }
}

/// An agent that has been online stays one that has, and being online counts as
/// having been.
pub proof fn law_been_online_stays(s: DdaStatus, header: Option<ResponseHeader>)
    ensures
        s.been_online ==> status_after(s, header).been_online,
        (s.online ==> s.been_online) ==> (status_after(s, header).online ==> status_after(
            s,
            header,
        ).been_online),
{
}

/// The message of a header; empty if missing.
pub open spec fn header_text(h: ResponseHeader) -> Seq<char> {
    match h.response_message {
        Some(m) => m@,
        None => Seq::empty(),
    }
}

/// Whether a check of a header came out as it should.
pub open spec fn is_header_verdict(r: Result<(), DooverError>, header: Option<ResponseHeader>) -> bool {
    match header {
        None => r is Ok,
        Some(h) => match r {
            Ok(_) => h.success,
            Err(e) => !h.success && is_failure(e, h.response_code, header_text(h)),
        },
    }
}

fn text_or_empty(s: &Option<String>) -> (r: String)
    ensures
        r@ == (match *s {
            Some(t) => t@,
            None => Seq::empty(),
        }),
{
    match s {
        Some(t) => t.clone(),
        None => {
            let r = String::new();
            assert(r@ =~= Seq::empty());
            r
        },
    }
}

/// What the header of a response means.
pub fn check_header(header: &Option<ResponseHeader>) -> (r: Result<(), DooverError>)
    ensures
        is_header_verdict(r, *header),
{
    match header {
        None => Ok(()),
        Some(h) => {
            if h.success {
                Ok(())
            } else {
                Err(failure(h.response_code, text_or_empty(&h.response_message)))
            }
        },
    }
}

// ---- what is asked ---------------------------------------------------------------------

/// Bounds on the messages that are listed.
#[derive(Debug, Clone)]
pub struct ListMessagesOptions {
    /// Only messages with a smaller id.
    pub before: Option<u64>,
    /// Only messages with a greater id.
    pub after: Option<u64>,
    pub limit: Option<u32>,
    /// Only these fields of the payloads.
    pub field_names: Vec<String>,
}

impl Default for ListMessagesOptions {
    fn default() -> (o: Self)
        ensures
            o.before is None,
            o.after is None,
            o.limit is None,
            o.field_names@.len() == 0,
    {
        ListMessagesOptions { before: None, after: None, limit: None, field_names: Vec::new() }
    }
}

/// A request. Payloads are JSON texts.
#[derive(Debug)]
pub enum AgentOp {
    TestComms { message: String },
    UpdateAggregate {
        channel: String,
        data_json: String,
        clear_attachments: bool,
        replace_data: bool,
        max_age_ms: u64,
        save_log: bool,
        return_aggregate: bool,
    },
    GetAggregate { channel: String },
    CreateMessage { channel: String, data_json: String, timestamp_ms: u64 },
    SendOneShot { channel: String, data_json: String },
    GetMessage { channel: String, message_id: u64 },
    GetMessages {
        channel: String,
        before: Option<u64>,
        after: Option<u64>,
        limit: Option<u32>,
        field_names: Vec<String>,
    },
    UpdateMessage {
        channel: String,
        id_text: String,
        data_json: String,
        clear_attachments: bool,
        replace_data: bool,
    },
    GetTurnCredential { camera_name: String },
    Subscribe { channel: String },
    ListChannels { include_aggregate: bool },
}

/// A request with the application it comes from.
#[derive(Debug)]
pub struct AgentCall {
    pub app_id: Option<String>,
    pub op: AgentOp,
}

/// A request to merge into, or replace, an aggregate, which may be sent back.
pub open spec fn is_update(
    op: AgentOp,
    to: Seq<char>,
    data: Json,
    opts: AggregateOptions,
    echo: bool,
) -> bool {
    match op {
        AgentOp::UpdateAggregate {
            channel,
            data_json,
            clear_attachments,
            replace_data,
            max_age_ms,
            save_log,
            return_aggregate,
        } => {
            &&& channel@ == to
            &&& data_json@ == json_text(written(data))
            &&& clear_attachments == opts.clear_attachments
            &&& replace_data == opts.replace_data
            &&& max_age_ms == opts.max_age_ms
            &&& save_log == opts.save_log
            &&& return_aggregate == echo
        },
        _ => false,
    }
}

/// A request to create a message with a time.
pub open spec fn is_create(op: AgentOp, to: Seq<char>, data: Json, at_ms: u64) -> bool {
    match op {
        AgentOp::CreateMessage { channel, data_json, timestamp_ms } => channel@ == to
            && data_json@ == json_text(written(data)) && timestamp_ms == at_ms,
        _ => false,
    }
}

/// A request to send a message that is not kept.
pub open spec fn is_one_shot(op: AgentOp, to: Seq<char>, data: Json) -> bool {
    match op {
        AgentOp::SendOneShot { channel, data_json } => channel@ == to && data_json@ == json_text(
            written(data),
        ),
        _ => false,
    }
}

/// A request to update a message, whose id is sent as text.
pub open spec fn is_message_update(
    op: AgentOp,
    to: Seq<char>,
    id: u64,
    data: Json,
    opts: UpdateMessageOptions,
) -> bool {
    match op {
        AgentOp::UpdateMessage {
            channel,
            id_text,
            data_json,
            clear_attachments,
            replace_data,
        } => {
            &&& channel@ == to
            &&& id_text@ == decimal(id as nat)
            &&& data_json@ == json_text(written(data))
            &&& clear_attachments == opts.clear_attachments
            &&& replace_data == opts.replace_data
        },
        _ => false,
    }
}

/// A request to list messages.
pub open spec fn is_listing(op: AgentOp, of: Seq<char>, opts: ListMessagesOptions) -> bool {
    match op {
        AgentOp::GetMessages { channel, before, after, limit, field_names } => {
            &&& channel@ == of
            &&& before == opts.before
            &&& after == opts.after
            &&& limit == opts.limit
            &&& views(field_names@) == views(opts.field_names@)
        },
        _ => false,
    }
}

/// Whether an error is the refusal of a payload.
pub open spec fn is_refusal(e: DooverError, data: Json) -> bool {
    match payload_fault(data) {
        Some(m) => is_invalid(e, m),
        None => false,
    }
}

/// Whether a request asks for the aggregate of a channel.
pub open spec fn is_fetch(op: AgentOp, of: Seq<char>) -> bool {
    op matches AgentOp::GetAggregate { channel } && channel@ == of
}

/// Whether a request asks for a message.
pub open spec fn is_message_fetch(op: AgentOp, of: Seq<char>, id: u64) -> bool {
    op matches AgentOp::GetMessage { channel, message_id } && channel@ == of && message_id == id
}

/// Whether a request asks for the events of a channel.
pub open spec fn is_subscription(op: AgentOp, of: Seq<char>) -> bool {
    op matches AgentOp::Subscribe { channel } && channel@ == of
}

/// Whether a request asks for an echo.
pub open spec fn is_echo(op: AgentOp, text: Seq<char>) -> bool {
    op matches AgentOp::TestComms { message } && message@ == text
}

/// Whether a request asks for TURN credentials.
pub open spec fn is_turn_request(op: AgentOp, camera: Seq<char>) -> bool {
    op matches AgentOp::GetTurnCredential { camera_name } && camera_name@ == camera
}

/// A client of the device agent.
#[derive(Debug)]
pub struct DeviceAgentClient {
    app_id: Option<String>,
    status: DdaStatus,
}

impl DeviceAgentClient {
    /// The application that requests come from.
    pub closed spec fn app(&self) -> Option<Seq<char>> {
        opt_chars(self.app_id)
    }

    /// The state of the connection.
    pub closed spec fn state(&self) -> DdaStatus {
        self.status
    }

    /// A client that has not heard from the agent yet.
    pub fn new() -> (c: Self)
        ensures
            c.app() is None,
            c.state() == (DdaStatus { available: false, online: false, been_online: false }),
    {
        DeviceAgentClient { app_id: None, status: DdaStatus::default() }
    }

    /// The client for an application.
    pub fn with_app_id(self, app_id: &str) -> (c: Self)
        ensures
            c.app() == Some(app_id@),
            c.state() == self.state(),
    {
        DeviceAgentClient { app_id: Some(app_id.to_owned()), status: self.status }
    }

    /// The state of the connection.
    pub fn status(&self) -> (s: &DdaStatus)
        ensures
            *s == self.state(),
    {
        &self.status
    }

    fn call(&self, op: AgentOp) -> (c: AgentCall)
        ensures
            opt_chars(c.app_id) == self.app(),
            c.op == op,
    {
        AgentCall { app_id: copy_opt(&self.app_id), op }
    }

    /// Asks for an echo.
    pub fn test_comms(&self, message: &str) -> (c: AgentCall)
        ensures
            opt_chars(c.app_id) == self.app(),
            is_echo(c.op, message@),
    {
        self.call(AgentOp::TestComms { message: message.to_owned() })
    }

    /// Writes to the aggregate of a channel, without having it sent back.
    pub fn update_channel_aggregate(
        &self,
        channel: &str,
        data: &Value,
        opts: &AggregateOptions,
    ) -> (r: Result<AgentCall, DooverError>)
        ensures
            match r {
                Ok(c) => payload_fault(data@) is None && opt_chars(c.app_id) == self.app()
                    && is_update(c.op, channel@, data@, *opts, false),
                Err(e) => is_refusal(e, data@),
            },
    {
        self.write_aggregate(channel, data, opts, false)
    }

    /// Writes to the aggregate of a channel, and has it sent back if asked to.
    pub fn write_aggregate(
        &self,
        channel: &str,
        data: &Value,
        opts: &AggregateOptions,
        return_aggregate: bool,
    ) -> (r: Result<AgentCall, DooverError>)
        ensures
            match r {
                Ok(c) => payload_fault(data@) is None && opt_chars(c.app_id) == self.app()
                    && is_update(c.op, channel@, data@, *opts, return_aggregate),
                Err(e) => is_refusal(e, data@),
            },
    {
        if let Err(e) = validate_payload(data) {
            return Err(e);
        }
        Ok(
            self.call(
                AgentOp::UpdateAggregate {
                    channel: channel.to_owned(),
                    data_json: to_text(data),
                    clear_attachments: opts.clear_attachments,
                    replace_data: opts.replace_data,
                    max_age_ms: opts.max_age_ms,
                    save_log: opts.save_log,
                    return_aggregate,
                },
            ),
        )
    }

    /// Asks for the aggregate of a channel.
    pub fn fetch_channel_aggregate(&self, channel: &str) -> (c: AgentCall)
        ensures
            opt_chars(c.app_id) == self.app(),
            is_fetch(c.op, channel@),
    {
        self.call(AgentOp::GetAggregate { channel: channel.to_owned() })
    }

    /// Appends a message with the time it is now, in milliseconds since the epoch.
    pub fn create_message(&self, channel: &str, data: &Value, now_ms: u64) -> (r: Result<
        AgentCall,
        DooverError,
    >)
        ensures
            match r {
                Ok(c) => payload_fault(data@) is None && opt_chars(c.app_id) == self.app()
                    && is_create(c.op, channel@, data@, now_ms),
                Err(e) => is_refusal(e, data@),
            },
    {
        self.create_message_at(channel, data, now_ms)
    }

    /// Appends a message with a time, in milliseconds since the epoch.
    pub fn create_message_at(&self, channel: &str, data: &Value, timestamp_ms: u64) -> (r: Result<
        AgentCall,
        DooverError,
    >)
        ensures
            match r {
                Ok(c) => payload_fault(data@) is None && opt_chars(c.app_id) == self.app()
                    && is_create(c.op, channel@, data@, timestamp_ms),
                Err(e) => is_refusal(e, data@),
            },
    {
        if let Err(e) = validate_payload(data) {
            return Err(e);
        }
        Ok(
            self.call(
                AgentOp::CreateMessage {
                    channel: channel.to_owned(),
                    data_json: to_text(data),
                    timestamp_ms,
                },
            ),
        )
    }

    /// Sends a message that is not kept.
    pub fn send_one_shot_message(&self, channel: &str, data: &Value) -> (r: Result<
        AgentCall,
        DooverError,
    >)
        ensures
            match r {
                Ok(c) => payload_fault(data@) is None && opt_chars(c.app_id) == self.app()
                    && is_one_shot(c.op, channel@, data@),
                Err(e) => is_refusal(e, data@),
            },
    {
        if let Err(e) = validate_payload(data) {
            return Err(e);
        }
        Ok(
            self.call(
                AgentOp::SendOneShot { channel: channel.to_owned(), data_json: to_text(data) },
            ),
        )
    }

    /// Asks for a message.
    pub fn fetch_message(&self, channel: &str, message_id: u64) -> (c: AgentCall)
        ensures
            opt_chars(c.app_id) == self.app(),
            is_message_fetch(c.op, channel@, message_id),
    {
        self.call(AgentOp::GetMessage { channel: channel.to_owned(), message_id })
    }

    /// Asks for the messages of a channel.
    pub fn list_messages(&self, channel: &str, opts: &ListMessagesOptions) -> (c: AgentCall)
        ensures
            opt_chars(c.app_id) == self.app(),
            is_listing(c.op, channel@, *opts),
    {
        let mut names: Vec<String> = Vec::new();
        let mut i: usize = 0;
        while i < opts.field_names.len()
            invariant
                i <= opts.field_names@.len(),
                names@.len() == i,
                forall|j: int| 0 <= j < i ==> (#[trigger] names@[j])@ == opts.field_names@[j]@,
            decreases opts.field_names@.len() - i,
        {
            names.push(opts.field_names[i].clone());
            i += 1;
        }
        assert(views(names@) =~= views(opts.field_names@));
        self.call(
            AgentOp::GetMessages {
                channel: channel.to_owned(),
                before: opts.before,
                after: opts.after,
                limit: opts.limit,
                field_names: names,
            },
        )
    }

    /// Updates the payload of a message.
    pub fn update_message(
        &self,
        channel: &str,
        message_id: u64,
        data: &Value,
        opts: &UpdateMessageOptions,
    ) -> (r: Result<AgentCall, DooverError>)
        ensures
            match r {
                Ok(c) => payload_fault(data@) is None && opt_chars(c.app_id) == self.app()
                    && is_message_update(c.op, channel@, message_id, data@, *opts),
                Err(e) => is_refusal(e, data@),
            },
    {
        if let Err(e) = validate_payload(data) {
            return Err(e);
        }
        Ok(
            self.call(
                AgentOp::UpdateMessage {
                    channel: channel.to_owned(),
                    id_text: write_u64(message_id),
                    data_json: to_text(data),
                    clear_attachments: opts.clear_attachments,
                    replace_data: opts.replace_data,
                },
            ),
        )
    }

    /// Asks for TURN credentials.
    pub fn fetch_turn_token(&self, camera_name: &str) -> (c: AgentCall)
        ensures
            opt_chars(c.app_id) == self.app(),
            is_turn_request(c.op, camera_name@),
    {
        self.call(AgentOp::GetTurnCredential { camera_name: camera_name.to_owned() })
    }

    /// Asks for the events of a channel.
    pub fn subscribe_events(&self, channel: &str) -> (c: AgentCall)
        ensures
            opt_chars(c.app_id) == self.app(),
            is_subscription(c.op, channel@),
    {
        self.call(AgentOp::Subscribe { channel: channel.to_owned() })
    }

    /// Asks for the channels, with or without their aggregates.
    pub fn list_channels(&self, include_aggregate: bool) -> (c: AgentCall)
        ensures
            opt_chars(c.app_id) == self.app(),
            c.op == (AgentOp::ListChannels { include_aggregate }),
    {
        self.call(AgentOp::ListChannels { include_aggregate })
    }

    // ---- what the replies mean ---------------------------------------------------------

    /// Takes in the header of a response.
    pub fn check(&mut self, header: &Option<ResponseHeader>) -> (r: Result<(), DooverError>)
        ensures
            final(self).app() == old(self).app(),
            final(self).state() == status_after(old(self).state(), *header),
            is_header_verdict(r, *header),
    {
        self.status.update(header);
        check_header(header)
    }

    /// The aggregate that was fetched; nothing if there is no such channel.
    pub fn read_aggregate(
        &mut self,
        header: &Option<ResponseHeader>,
        aggregate: Option<AggregateParts>,
    ) -> (r: Result<Option<ChannelAggregate>, DooverError>)
        ensures
            final(self).app() == old(self).app(),
            final(self).state() == status_after(old(self).state(), *header),
            match r {
                Ok(a) => (header_passes(*header) && is_aggregate_of(a, aggregate)) || (
                header_is_not_found(*header) && a is None),
                Err(e) => !header_passes(*header) && !header_is_not_found(*header)
                    && is_header_failure(e, *header),
            },
            r matches Ok(Some(a)) ==> tidy(a.data@),
    {
        match self.check(header) {
            Ok(()) => match aggregate {
                Some(p) => Ok(Some(aggregate_from(p))),
                None => Ok(None),
            },
            Err(DooverError::NotFound(_)) => Ok(None),
            Err(e) => Err(e),
        }
    }

    /// The aggregate that a write sent back, if it was asked to.
    pub fn read_written_aggregate(
        &mut self,
        header: &Option<ResponseHeader>,
        aggregate: Option<AggregateParts>,
    ) -> (r: Result<Option<ChannelAggregate>, DooverError>)
        ensures
            final(self).app() == old(self).app(),
            final(self).state() == status_after(old(self).state(), *header),
            match r {
                Ok(a) => header_passes(*header) && is_aggregate_of(a, aggregate),
                Err(e) => !header_passes(*header) && is_header_failure(e, *header),
            },
            r matches Ok(Some(a)) ==> tidy(a.data@),
    {
        match self.check(header) {
            Ok(()) => match aggregate {
                Some(p) => Ok(Some(aggregate_from(p))),
                None => Ok(None),
            },
            Err(e) => Err(e),
        }
    }

    /// The data of an aggregate that was fetched; nothing if there is no such
    /// channel.
    pub fn read_channel_data(
        &mut self,
        header: &Option<ResponseHeader>,
        data_json: Option<&str>,
    ) -> (r: Result<Option<Value>, DooverError>)
        ensures
            final(self).app() == old(self).app(),
            final(self).state() == status_after(old(self).state(), *header),
            match r {
                Ok(v) => (header_passes(*header) && opt_doc(v) == aggregate_doc(data_json)) || (
                header_is_not_found(*header) && v is None),
                Err(e) => !header_passes(*header) && !header_is_not_found(*header) && is_header_failure(
                    e,
                    *header,
                ),
            },
            r matches Ok(Some(v)) ==> tidy(v@),
    {
        match self.check(header) {
            Ok(()) => match data_json {
                Some(text) => Ok(Some(decode_aggregate(text))),
                None => Ok(None),
            },
            Err(DooverError::NotFound(_)) => Ok(None),
            Err(e) => Err(e),
        }
    }

    /// The id of a created message.
    pub fn read_message_id(&mut self, header: &Option<ResponseHeader>, message_id: u64) -> (r: Result<
        u64,
        DooverError,
    >)
        ensures
            final(self).app() == old(self).app(),
            final(self).state() == status_after(old(self).state(), *header),
            match r {
                Ok(id) => header_passes(*header) && id == message_id,
                Err(e) => !header_passes(*header) && is_header_failure(e, *header),
            },
    {
        match self.check(header) {
            Ok(()) => Ok(message_id),
            Err(e) => Err(e),
        }
    }

    /// The message that was asked for.
    pub fn read_message(
        &mut self,
        header: &Option<ResponseHeader>,
        message: Option<MessageParts>,
        channel: &str,
        message_id: u64,
    ) -> (r: Result<Message, DooverError>)
        ensures
            final(self).app() == old(self).app(),
            final(self).state() == status_after(old(self).state(), *header),
            match r {
                Ok(m) => message matches Some(p) && m.is_from(p) && header_passes(*header),
                Err(e) => if header_passes(*header) {
                    message is None && is_not_found(
                        e,
                        "message "@ + decimal(message_id as nat) + " on '"@ + channel@ + "'"@,
                    )
                } else {
                    is_header_failure(e, *header)
                },
            },
    {
        match self.check(header) {
            Ok(()) => match message {
                Some(p) => Ok(Message::from_parts(p)),
                None => {
                    let mut t = concat("message ", write_u64(message_id).as_str());
                    t.append(" on '");
                    t.append(channel);
                    t.append("'");
                    Err(DooverError::NotFound(t))
                },
            },
            Err(e) => Err(e),
        }
    }

    /// The message that was updated.
    pub fn read_updated_message(
        &mut self,
        header: &Option<ResponseHeader>,
        message: Option<MessageParts>,
    ) -> (r: Result<Message, DooverError>)
        ensures
            final(self).app() == old(self).app(),
            final(self).state() == status_after(old(self).state(), *header),
            match r {
                Ok(m) => message matches Some(p) && m.is_from(p) && header_passes(*header),
                Err(e) => if header_passes(*header) {
                    message is None && is_other(e, "update_message returned no message"@)
                } else {
                    is_header_failure(e, *header)
                },
            },
    {
        match self.check(header) {
            Ok(()) => match message {
                Some(p) => Ok(Message::from_parts(p)),
                None => Err(DooverError::Other("update_message returned no message".to_owned())),
            },
            Err(e) => Err(e),
        }
    }

    /// The messages that were listed, in their order.
    pub fn read_messages(
        &mut self,
        header: &Option<ResponseHeader>,
        messages: Vec<MessageParts>,
    ) -> (r: Result<Vec<Message>, DooverError>)
        ensures
            final(self).app() == old(self).app(),
            final(self).state() == status_after(old(self).state(), *header),
            match r {
                Ok(list) => header_passes(*header) && list@.len() == messages@.len() && forall|
                    i: int,
                |
                    0 <= i < list@.len() ==> (#[trigger] list@[i]).is_from(messages@[i]),
                Err(e) => !header_passes(*header) && is_header_failure(e, *header),
            },
    {
        if let Err(e) = self.check(header) {
            return Err(e);
        }
        let ghost all = messages@;
        let mut rest = messages;
        let mut out: Vec<Message> = Vec::new();
        while rest.len() > 0
            invariant
                rest@.len() + out@.len() == all.len(),
                forall|i: int| 0 <= i < rest@.len() ==> #[trigger] rest@[i] == all[i + out@.len()],
                forall|i: int| 0 <= i < out@.len() ==> (#[trigger] out@[i]).is_from(all[i]),
            decreases rest@.len(),
        {
            let p = rest.remove(0);
            assert(p == all[out@.len() as int]);
            out.push(Message::from_parts(p));
        }
        Ok(out)
    }

    /// A part of a reply that has to be there, such as a file or credentials.
    pub fn read_part<T>(&mut self, header: &Option<ResponseHeader>, part: Option<T>, what: &str) -> (r:
        Result<T, DooverError>)
        ensures
            final(self).app() == old(self).app(),
            final(self).state() == status_after(old(self).state(), *header),
            match r {
                Ok(x) => header_passes(*header) && part == Some(x),
                Err(e) => if header_passes(*header) {
                    part is None && is_not_found(e, what@)
                } else {
                    is_header_failure(e, *header)
                },
            },
    {
        match self.check(header) {
            Ok(()) => match part {
                Some(x) => Ok(x),
                None => Err(DooverError::NotFound(what.to_owned())),
            },
            Err(e) => Err(e),
        }
    }

    /// The event that an item of a subscription holds. A failed header ends the
    /// subscription.
    pub fn read_event(
        &mut self,
        header: &Option<ResponseHeader>,
        channel: &str,
        event_name: &str,
        data_json: &str,
    ) -> (r: Result<Event, DooverError>)
        ensures
            final(self).app() == old(self).app(),
            final(self).state() == status_after(old(self).state(), *header),
            match r {
                Ok(e) => header_passes(*header) && e.event_name@ == event_name@ && e.channel@
                    == channel@ && event_doc(data_json@) == Ok::<Json, Seq<char>>(e.payload@),
                Err(e) => if header_passes(*header) {
                    event_doc(data_json@) matches Err(m) && is_json_error(e, m)
                } else {
                    header matches Some(h) && is_other(
                        e,
                        "subscription to '"@ + channel@ + "' rejected: "@ + header_text(*h),
                    )
                },
            },
            r matches Ok(e) ==> tidy(e.payload@),
    {
        self.status.update(header);
        if let Some(h) = header {
            if !h.success {
                let mut m = concat("subscription to '", channel);
                m.append("' rejected: ");
                m.append(text_or_empty(&h.response_message).as_str());
                return Err(DooverError::Other(m));
            }
        }
        let empty = chars(data_json).len() == 0;
        let payload = if empty {
            Value::empty_object()
        } else {
            match from_text(data_json) {
                Ok(v) => v,
                Err(m) => {
                    return Err(DooverError::Json(m));
                },
            }
        };
        Ok(Event { event_name: event_name.to_owned(), channel: channel.to_owned(), payload })
    }
}

/// Whether a header says that the request succeeded. A missing one does.
pub open spec fn header_passes(header: Option<ResponseHeader>) -> bool {
    match header {
        Some(h) => h.success,
        None => true,
    }
}

/// Whether an error is that of a failed header.
pub open spec fn is_header_failure(e: DooverError, header: Option<ResponseHeader>) -> bool {
    match header {
        Some(h) => is_failure(e, h.response_code, header_text(h)),
        None => false,
    }
}

/// Whether a header says that there is no such thing.
pub open spec fn header_is_not_found(header: Option<ResponseHeader>) -> bool {
    match header {
        Some(h) => !h.success && h.response_code == Some(404i32),
        None => false,
    }
}

/// The payload of an event: empty text stands for the empty object.
pub open spec fn event_doc(text: Seq<char>) -> Result<Json, Seq<char>> {
    if text.len() == 0 {
        Ok(empty_obj())
    } else {
        json_parse(text)
    }
}

/// The data that a text holds: null if it is empty or no document.
pub open spec fn decoded(text: Seq<char>) -> Json {
    if text.len() == 0 {
        Json::Null
    } else {
        match json_parse(text) {
            Ok(d) => d,
            Err(_) => Json::Null,
        }
    }
}

/// The data of an aggregate that may be missing.
pub open spec fn aggregate_doc(text: Option<&str>) -> Option<Json> {
    match text {
        Some(t) => Some(decoded(t@)),
        None => None,
    }
}

/// The data of an aggregate.
pub fn decode_aggregate(data_json: &str) -> (v: Value)
    ensures
        v@ == decoded(data_json@),
        tidy(v@),
{
    if chars(data_json).len() == 0 {
        Value::Null
    } else {
        match from_text(data_json) {
            Ok(v) => v,
            Err(_) => Value::Null,
        }
    }
}

/// An attachment as the agent sends it.
#[derive(Debug)]
pub struct AttachmentParts {
    pub filename: String,
    /// Empty if it is not known.
    pub content_type: String,
    pub size_bytes: u64,
    pub url: String,
}

/// An aggregate as the agent sends it.
#[derive(Debug)]
pub struct AggregateParts {
    pub data_json: String,
    pub attachments: Vec<AttachmentParts>,
    /// Milliseconds since the epoch.
    pub last_updated: Option<u64>,
}

/// Whether an attachment is the one that was sent.
pub open spec fn is_attachment_of(a: Attachment, p: AttachmentParts) -> bool {
    &&& a.filename@ == p.filename@
    &&& opt_chars(a.content_type) == (if p.content_type@.len() == 0 {
        None
    } else {
        Some(p.content_type@)
    })
    &&& a.size == p.size_bytes
    &&& a.url@ == p.url@
}

/// Whether an aggregate is the one that was sent.
pub open spec fn is_whole(a: ChannelAggregate, p: AggregateParts) -> bool {
    &&& a.data@ == decoded(p.data_json@)
    &&& a.attachments@.len() == p.attachments@.len()
    &&& forall|i: int|
        0 <= i < a.attachments@.len() ==> is_attachment_of(
            #[trigger] a.attachments@[i],
            p.attachments@[i],
        )
    &&& a.last_updated == p.last_updated
}

/// Whether an aggregate that may be missing is the one that was sent.
pub open spec fn is_aggregate_of(a: Option<ChannelAggregate>, p: Option<AggregateParts>) -> bool {
    match (a, p) {
        (Some(a), Some(p)) => is_whole(a, p),
        (None, None) => true,
        _ => false,
    }
}

fn aggregate_from(p: AggregateParts) -> (a: ChannelAggregate)
    ensures
        is_whole(a, p),
        tidy(a.data@),
{
    let ghost all = p.attachments@;
    let mut rest = p.attachments;
    let mut out: Vec<Attachment> = Vec::new();
    while rest.len() > 0
        invariant
            rest@.len() + out@.len() == all.len(),
            forall|i: int| 0 <= i < rest@.len() ==> #[trigger] rest@[i] == all[i + out@.len()],
            forall|i: int|
                0 <= i < out@.len() ==> is_attachment_of(#[trigger] out@[i], all[i]),
        decreases rest@.len(),
    {
        let part = rest.remove(0);
        assert(part == all[out@.len() as int]);
        let known = chars(part.content_type.as_str()).len() > 0;
        let content_type = if known {
            Some(part.content_type)
        } else {
            None
        };
        out.push(
            Attachment {
                filename: part.filename,
                content_type,
                size: part.size_bytes,
                url: part.url,
            },
        );
    }
    ChannelAggregate {
        data: decode_aggregate(p.data_json.as_str()),
        attachments: out,
        last_updated: p.last_updated,
    }
}

/// A message as the agent sends it.
#[derive(Debug)]
pub struct MessageParts {
    pub message_id: u64,
    pub author_id: u64,
    pub channel_name: Option<String>,
    pub data_json: String,
}

/// A message of a channel.
#[derive(Debug, Clone)]
pub struct Message {
    pub message_id: u64,
    pub author_id: u64,
    pub channel_name: String,
    pub data: Value,
}

impl Message {
    /// Whether the message is the one that was sent.
    pub open spec fn is_from(&self, p: MessageParts) -> bool {
        &&& self.message_id == p.message_id
        &&& self.author_id == p.author_id
        &&& self.channel_name@ == (match p.channel_name {
            Some(n) => n@,
            None => Seq::empty(),
        })
        &&& self.data@ == decoded(p.data_json@)
    }

    /// The message that was sent.
    pub fn from_parts(p: MessageParts) -> (m: Message)
        ensures
            m.is_from(p),
            tidy(m.data@),
    {
        let data = decode_aggregate(p.data_json.as_str());
        Message {
            message_id: p.message_id,
            author_id: p.author_id,
            channel_name: text_or_empty(&p.channel_name),
            data,
        }
    }
}

/// TURN credentials for a camera.
#[derive(Debug, Clone)]
pub struct TurnCredential {
    pub username: String,
    pub credential: String,
    pub ttl: u64,
    pub expires_at: u64,
    pub uris: Vec<String>,
}

} // verus!
