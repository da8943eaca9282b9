//! The pipeline of an invocation: read the event, filter it, trade the token,
//! guard against loops, handle the event, commit the tags, and publish a
//! summary.
use vstd::prelude::*;

use crate::api::data::{agent_for, may_write, ClientView, DataClient};
use crate::error::DooverError;
use crate::json::{entries_of, field, field_or_null, members, str_field, Json, Value};
use crate::models::{id_of, value_as_id, SubscriptionInfo};
use crate::processor::application::{Handled, SkipReason};
use crate::processor::config::{config_of, default_config, ConfigView, ProcConfig, Target};
use crate::processor::events::{
    channel_fault, id_string, id_text, message_doc, AggregateUpdateEvent, DeploymentEvent,
    EventPayload, IngestionEndpointEvent, ManualInvokeEvent, MessageCreateEvent, ScheduleEvent,
};
use crate::tags::runtime::TAG_CHANNEL_NAME;
use crate::text::{copy_opt, decimal, opt_chars, replace, replaced, same, write_u64};

verus! {

/// What the platform says of an invocation.
#[derive(Debug, Clone)]
pub struct LambdaMeta {
    pub request_id: Option<String>,
    pub function_name: Option<String>,
    pub function_version: Option<String>,
}

impl Default for LambdaMeta {
    fn default() -> (m: Self)
        ensures
            m.request_id is None,
            m.function_name is None,
            m.function_version is None,
    {
        LambdaMeta { request_id: None, function_name: None, function_version: None }
    }
}

/// What an invocation learns on its way, for the summary.
#[derive(Debug)]
pub struct InvocationState {
    pub subscription_id: Option<String>,
    pub schedule_id: Option<String>,
    pub ingestion_id: Option<String>,
    pub event_type: Option<String>,
    pub agent_id: Option<u64>,
    pub app_key: Option<String>,
    pub app_id: Option<String>,
    pub proc_config: ProcConfig,
}

/// How an invocation ended that did not succeed.
#[derive(Debug)]
pub enum DispatchEnd {
    Skipped(SkipReason),
    Failed { error_type: String, message: String },
}

/// Whether an end is the failure that an error leads to.
pub open spec fn fails_with(end: DispatchEnd, e: DooverError) -> bool {
    end matches DispatchEnd::Failed { error_type, message } && error_type@ == e.kind() && message@
        == e.text()
}

/// Whether an end is a failure of the given kind and text.
pub open spec fn fails_as(end: DispatchEnd, kind: Seq<char>, text: Seq<char>) -> bool {
    end matches DispatchEnd::Failed { error_type, message } && error_type@ == kind && message@
        == text
}

/// The failure that an error leads to.
pub fn failed(e: &DooverError) -> (end: DispatchEnd)
    ensures
        fails_with(end, *e),
{
    DispatchEnd::Failed { error_type: e.kind_name().to_owned(), message: e.message() }
}

impl InvocationState {
    /// The state at the start of an invocation.
    pub fn new(event: &Value, subscription_id: Option<String>) -> (s: Self)
        ensures
            s.subscription_id == subscription_id,
            s.schedule_id is None,
            s.ingestion_id is None,
            opt_chars(s.event_type) == str_field(event@, "op"@),
            s.agent_id is None,
            s.app_key is None,
            s.app_id is None,
            s.proc_config@ == default_config(),
    {
        InvocationState {
            subscription_id,
            schedule_id: None,
            ingestion_id: None,
            event_type: event.get_string("op"),
            agent_id: None,
            app_key: None,
            app_id: None,
            proc_config: ProcConfig::default(),
        }
    }
}

// ---- the payload ----------------------------------------------------------------

/// The kinds of events.
#[derive(Debug, Clone, Copy, PartialEq, Eq, Structural)]
pub enum Op {
    MessageCreate,
    AggregateUpdate,
    Deployment,
    Schedule,
    IngestionEndpoint,
    ManualInvoke,
}

/// The kind that an operation names.
pub open spec fn op_of(name: Seq<char>) -> Option<Op> {
    if name == "on_message_create"@ {
        Some(Op::MessageCreate)
    } else if name == "on_aggregate_update"@ {
        Some(Op::AggregateUpdate)
    } else if name == "on_deployment"@ {
        Some(Op::Deployment)
    } else if name == "on_schedule"@ {
        Some(Op::Schedule)
    } else if name == "on_ingestion_endpoint"@ {
        Some(Op::IngestionEndpoint)
    } else if name == "on_manual_invoke"@ {
        Some(Op::ManualInvoke)
    } else {
        None
    }
}

/// The kind that an operation names.
pub fn read_op(name: &str) -> (r: Option<Op>)
    ensures
        r == op_of(name@),
{
    if same(name, "on_message_create") {
        Some(Op::MessageCreate)
    } else if same(name, "on_aggregate_update") {
        Some(Op::AggregateUpdate)
    } else if same(name, "on_deployment") {
        Some(Op::Deployment)
    } else if same(name, "on_schedule") {
        Some(Op::Schedule)
    } else if same(name, "on_ingestion_endpoint") {
        Some(Op::IngestionEndpoint)
    } else if same(name, "on_manual_invoke") {
        Some(Op::ManualInvoke)
    } else {
        None
    }
}

/// Whether a payload is what an operation and its data describe.
pub open spec fn describes(
    op: Op,
    d: Json,
    ingested: Result<Value, DooverError>,
    p: EventPayload,
) -> bool {
    match (op, p) {
        (Op::MessageCreate, EventPayload::MessageCreate(e)) => e.reads(d),
        (Op::AggregateUpdate, EventPayload::AggregateUpdate(e)) => e.reads(d),
        (Op::Deployment, EventPayload::Deployment(e)) => e.reads(d),
        (Op::Schedule, EventPayload::Schedule(e)) => e.schedule_id@
            == crate::processor::events::id_text_or_empty(field(d, "schedule_id"@)),
        (Op::IngestionEndpoint, EventPayload::IngestionEndpoint(e)) => match ingested {
            Ok(v) => e.reads(d, v@),
            Err(_) => false,
        },
        (Op::ManualInvoke, EventPayload::ManualInvoke(e)) => e.organisation_id == id_of(
            field(d, "organisation_id"@),
        ) && e.payload@ == field_or_null(d, "payload"@),
        _ => false,
    }
}

/// Why data of an operation cannot be read, if it cannot.
pub open spec fn payload_fault(op: Op, d: Json) -> Option<Seq<char>> {
    match op {
        Op::MessageCreate => channel_fault(message_doc(d), "message missing channel"@),
        Op::AggregateUpdate => channel_fault(d, "event missing channel"@),
        _ => None,
    }
}

/// Whether an end is the failure of data that cannot be read.
pub open spec fn payload_failure(
    op: Op,
    d: Json,
    ingested: Result<Value, DooverError>,
    end: DispatchEnd,
) -> bool {
    match payload_fault(op, d) {
        Some(m) => fails_as(end, "InvalidPayload"@, "invalid payload: "@ + m),
        None => op == Op::IngestionEndpoint && (ingested matches Err(e) && fails_with(end, e)),
    }
}

/// Reads the payload of an operation; there is none for an unknown one.
/// `ingested` is what an ingestion endpoint's payload was decoded to.
pub fn decode_payload(
    op: &str,
    d: &Value,
    ingested: Result<Value, DooverError>,
) -> (r: Result<Option<EventPayload>, DispatchEnd>)
    ensures
        match op_of(op@) {
            None => r matches Ok(None),
            Some(kind) => match r {
                Ok(Some(p)) => describes(kind, d@, ingested, p),
                Ok(None) => false,
                Err(end) => payload_failure(kind, d@, ingested, end),
            },
        },
{
    let kind = match read_op(op) {
        Some(kind) => kind,
        None => {
            return Ok(None);
        },
    };
    match kind {
        Op::MessageCreate => match MessageCreateEvent::from_value(d) {
            Ok(e) => Ok(Some(EventPayload::MessageCreate(e))),
            Err(e) => Err(failed(&e)),
        },
        Op::AggregateUpdate => match AggregateUpdateEvent::from_value(d) {
            Ok(e) => Ok(Some(EventPayload::AggregateUpdate(e))),
            Err(e) => Err(failed(&e)),
        },
        Op::Deployment => Ok(Some(EventPayload::Deployment(DeploymentEvent::from_value(d)))),
        Op::Schedule => Ok(Some(EventPayload::Schedule(ScheduleEvent::from_value(d)))),
        Op::IngestionEndpoint => match ingested {
            Ok(v) => Ok(
                Some(EventPayload::IngestionEndpoint(IngestionEndpointEvent::from_value(d, v))),
            ),
            Err(e) => Err(failed(&e)),
        },
        Op::ManualInvoke => Ok(Some(EventPayload::ManualInvoke(ManualInvokeEvent::from_value(d)))),
    }
}

/// What an invocation starts with.
#[derive(Debug)]
pub struct Opening {
    pub payload: EventPayload,
    /// The token that is traded for the full one.
    pub token: String,
    pub organisation_id: Option<u64>,
    /// The channel that triggered the invocation.
    pub invoking_channel: Option<String>,
}

/// The data of an event.
pub open spec fn event_data(event: Json) -> Json {
    match field(event, "d"@) {
        Some(d) => d,
        None => crate::json::empty_obj(),
    }
}

/// The data of an event.
pub fn read_event_data(event: &Value) -> (d: Value)
    ensures
        d@ == event_data(event@),
{
    match event.get("d") {
        Some(d) => d.clone(),
        None => Value::empty_object(),
    }
}

/// The operation of an event; the empty one if it names none.
pub open spec fn op_name(s: InvocationState) -> Seq<char> {
    match s.event_type {
        Some(op) => op@,
        None => Seq::empty(),
    }
}

/// Whether opening an invocation ends it as it should: without a token, with
/// data that cannot be read, or with an operation that has no handler.
pub open spec fn opening_end(
    s: InvocationState,
    event: Json,
    ingested: Result<Value, DooverError>,
    end: DispatchEnd,
) -> bool {
    if str_field(event, "token"@) is None {
        fails_as(end, "RuntimeError"@, "Initial token has not been set."@)
    } else {
        match op_of(op_name(s)) {
            Some(kind) => payload_failure(kind, event_data(event), ingested, end),
            None => end == DispatchEnd::Skipped(SkipReason::NoHandler),
        }
    }
}

/// Opens an invocation: notes the ids of the event, and reads its token and its
/// payload.
pub fn open_invocation(
    state: &mut InvocationState,
    event: &Value,
    ingested: Result<Value, DooverError>,
) -> (r: Result<Opening, DispatchEnd>)
    ensures
        final(state).subscription_id == old(state).subscription_id,
        final(state).event_type == old(state).event_type,
        final(state).app_key == old(state).app_key,
        final(state).app_id == old(state).app_id,
        final(state).proc_config == old(state).proc_config,
        opt_chars(final(state).schedule_id) == id_text(
            field(event_data(event@), "schedule_id"@),
        ),
        opt_chars(final(state).ingestion_id) == id_text(
            field(event_data(event@), "ingestion_id"@),
        ),
        final(state).agent_id == (if str_field(event@, "token"@) is Some {
            id_of(field(event@, "agent_id"@))
        } else {
            old(state).agent_id
        }),
        match r {
            Ok(o) => op_of(op_name(*old(state))) matches Some(kind) && describes(
                kind,
                event_data(event@),
                ingested,
                o.payload,
            ) && str_field(event@, "token"@) == Some(o.token@) && o.organisation_id == id_of(
                field(event_data(event@), "organisation_id"@),
            ) && opt_chars(o.invoking_channel) == o.payload.channel(),
            Err(end) => opening_end(*old(state), event@, ingested, end),
        },
{
    let d = read_event_data(event);
    state.schedule_id = id_string(d.get("schedule_id"));
    state.ingestion_id = id_string(d.get("ingestion_id"));
    let organisation_id = value_as_id(d.get("organisation_id"));
    let token = match event.get_string("token") {
        Some(t) => t,
        None => {
            return Err(
                DispatchEnd::Failed {
                    error_type: "RuntimeError".to_owned(),
                    message: "Initial token has not been set.".to_owned(),
                },
            );
        },
    };
    state.agent_id = value_as_id(event.get("agent_id"));
    let op = match &state.event_type {
        Some(op) => op.clone(),
        None => {
            let none = String::new();
            assert(none@ =~= Seq::empty());
            none
        },
    };
    match decode_payload(op.as_str(), &d, ingested) {
        Ok(Some(payload)) => {
            let invoking_channel = match payload.invoking_channel() {
                Some(c) => Some(c.to_owned()),
                None => None,
            };
            Ok(Opening { payload, token, organisation_id, invoking_channel })
        },
        Ok(None) => Err(DispatchEnd::Skipped(SkipReason::NoHandler)),
        Err(end) => Err(end),
    }
}

// ---- the token upgrade ------------------------------------------------------------

/// Where the full token comes from.
#[derive(Debug)]
pub enum InfoSource {
    /// The event carries it.
    Inline(Value),
    /// A subscription has it.
    Subscription(String),
    /// A schedule has it.
    Schedule(String),
}

/// What an event carries inline, if anything.
pub open spec fn inline_upgrade(d: Json) -> Option<Json> {
    match field(d, "upgrade"@) {
        Some(Json::Null) => None,
        other => other,
    }
}

/// Decides where the full token comes from: what the event carries comes first,
/// then the subscription, then the schedule.
pub fn info_source(d: &Value, state: &InvocationState) -> (r: Result<InfoSource, DispatchEnd>)
    ensures
        match r {
            Ok(InfoSource::Inline(v)) => inline_upgrade(d@) == Some(v@),
            Ok(InfoSource::Subscription(s)) => inline_upgrade(d@) is None && opt_chars(
                state.subscription_id,
            ) == Some(s@),
            Ok(InfoSource::Schedule(s)) => inline_upgrade(d@) is None && state.subscription_id
                is None && opt_chars(state.schedule_id) == Some(s@),
            Err(end) => inline_upgrade(d@) is None && state.subscription_id is None
                && state.schedule_id is None && fails_as(
                end,
                "ValueError"@,
                "No subscription or schedule ID provided."@,
            ),
        },
{
    if let Some(u) = d.get("upgrade") {
        if !u.is_null() {
            return Ok(InfoSource::Inline(u.clone()));
        }
    }
    if let Some(s) = &state.subscription_id {
        return Ok(InfoSource::Subscription(s.clone()));
    }
    match &state.schedule_id {
        Some(s) => Ok(InfoSource::Schedule(s.clone())),
        None => Err(
            DispatchEnd::Failed {
                error_type: "ValueError".to_owned(),
                message: "No subscription or schedule ID provided.".to_owned(),
            },
        ),
    }
}

/// What a handler knows of its invocation.
#[derive(Debug)]
pub struct ProcessorContext {
    pub agent_id: u64,
    pub app_key: String,
    pub app_id: Option<String>,
    pub organisation_id: Option<u64>,
    pub display_name: Option<String>,
    pub deployment_config: Value,
    pub connection_config: Value,
    pub connection_status: Value,
    pub tag_values: Value,
    pub token: String,
    /// The config of the framework.
    pub proc_config: ProcConfig,
}

/// What a key holds, or the empty object for null and nothing.
pub open spec fn object_or_empty(j: Json, k: Seq<char>) -> Json {
    match field(j, k) {
        Some(Json::Null) | None => crate::json::empty_obj(),
        Some(v) => v,
    }
}

fn read_or_empty(v: &Value, key: &str) -> (r: Value)
    ensures
        r@ == object_or_empty(v@, key@),
{
    match v.get(key) {
        Some(x) => if x.is_null() {
            Value::empty_object()
        } else {
            x.clone()
        },
        None => Value::empty_object(),
    }
}

/// The config that a deployment config carries for the framework.
pub open spec fn proc_config_of(deployment: Json) -> ConfigView {
    match field(deployment, "dv_proc_config"@) {
        Some(v) => if v is Obj && config_of(v) is Some {
            config_of(v).unwrap()
        } else {
            default_config()
        },
        None => default_config(),
    }
}

/// Takes the token upgrade over. Where the upgrade and the event disagree on the
/// organisation, the upgrade is right.
pub fn setup_context(
    state: &mut InvocationState,
    info: SubscriptionInfo,
    event_organisation_id: Option<u64>,
) -> (c: ProcessorContext)
    ensures
        final(state).subscription_id == old(state).subscription_id,
        final(state).schedule_id == old(state).schedule_id,
        final(state).ingestion_id == old(state).ingestion_id,
        final(state).event_type == old(state).event_type,
        final(state).agent_id == Some(info.agent_id),
        opt_chars(final(state).app_key) == Some(info.app_key@),
        opt_chars(final(state).app_id) == str_field(info.deployment_config@, "APP_ID"@),
        final(state).proc_config@ == proc_config_of(info.deployment_config@),
        c.agent_id == info.agent_id,
        c.app_key@ == info.app_key@,
        opt_chars(c.app_id) == str_field(info.deployment_config@, "APP_ID"@),
        c.organisation_id == (if info.organisation_id is Some {
            info.organisation_id
        } else {
            event_organisation_id
        }),
        opt_chars(c.display_name) == str_field(info.deployment_config@, "APP_DISPLAY_NAME"@),
        c.deployment_config@ == info.deployment_config@,
        c.connection_config@ == object_or_empty(info.connection_data@, "config"@),
        c.connection_status@ == object_or_empty(info.connection_data@, "status"@),
        c.tag_values@ == info.tag_values@,
        c.token@ == info.token@,
        c.proc_config@ == proc_config_of(info.deployment_config@),
{
    state.agent_id = Some(info.agent_id);
    state.app_key = Some(info.app_key.clone());
    let organisation_id = match info.organisation_id {
        Some(o) => Some(o),
        None => event_organisation_id,
    };
    let app_id = info.deployment_config.get_string("APP_ID");
    let display_name = info.deployment_config.get_string("APP_DISPLAY_NAME");
    state.app_id = copy_opt(&app_id);
    let proc_config = ProcConfig::from_value(info.deployment_config.get("dv_proc_config"));
    state.proc_config = ProcConfig::from_value(info.deployment_config.get("dv_proc_config"));
    let connection_config = read_or_empty(&info.connection_data, "config");
    let connection_status = read_or_empty(&info.connection_data, "status");
    ProcessorContext {
        agent_id: info.agent_id,
        app_key: info.app_key,
        app_id,
        organisation_id,
        display_name,
        deployment_config: info.deployment_config,
        connection_config,
        connection_status,
        tag_values: info.tag_values,
        token: info.token,
        proc_config,
    }
}

/// A client that an invocation was opened on: while it runs, nothing is written to
/// the channel that triggered it.
pub open spec fn opened(v: ClientView, channel: Option<Seq<char>>) -> ClientView {
    ClientView { invoking_channel: channel, ..v }
}

/// A client that makes its requests with the event's token.
pub open spec fn entering(v: ClientView, token: Seq<char>) -> ClientView {
    ClientView { token: Some(token), ..v }
}

/// A client that makes its requests as the app that the token was traded for. It keeps
/// its organisation where the context has none.
pub open spec fn upgraded(v: ClientView, c: ProcessorContext) -> ClientView {
    ClientView {
        agent_id: Some(c.agent_id),
        token: Some(c.token@),
        app_key: Some(c.app_key@),
        organisation_id: match c.organisation_id {
            Some(o) => Some(decimal(o as nat)),
            None => v.organisation_id,
        },
        ..v
    }
}

impl Opening {
    /// Tells the client which channel triggered the invocation. This comes before the
    /// early filter.
    pub fn install_channel(&self, client: &mut DataClient)
        ensures
            final(client)@ == opened(old(client)@, opt_chars(self.invoking_channel)),
    {
        client.set_invoking_channel(copy_opt(&self.invoking_channel));
    }

    /// Lets the client make its requests with the event's token. This comes after the
    /// early filter, before the token is traded.
    pub fn install_token(&self, client: &mut DataClient)
        ensures
            final(client)@ == entering(old(client)@, self.token@),
    {
        client.set_token(self.token.as_str());
    }
}

impl ProcessorContext {
    /// Lets the client make its requests as the app that the token was traded for.
    pub fn install(&self, client: &mut DataClient)
        ensures
            final(client)@ == upgraded(old(client)@, *self),
    {
        client.set_agent_id(self.agent_id);
        client.set_token(self.token.as_str());
        client.set_app_key(self.app_key.as_str());
        if let Some(o) = self.organisation_id {
            client.set_organisation_id(write_u64(o).as_str());
        }
    }
}

/// From the token upgrade on, requests go to the upgrade's agent with its token, the
/// channel that triggered the invocation is closed to writes but for this app's own
/// tags, and nothing of the event's token is left.
pub proof fn law_invocations_are_guarded(
    v: ClientView,
    o: Opening,
    c: ProcessorContext,
    channel: Seq<char>,
    data: Json,
)
    requires
        opt_chars(o.invoking_channel) == Some(channel),
    ensures
        ({
            let w = upgraded(entering(opened(v, opt_chars(o.invoking_channel)), o.token@), c);
            &&& w.token == Some(c.token@)
            &&& agent_for(w, None) == Some(c.agent_id)
            &&& channel != TAG_CHANNEL_NAME@ ==> !may_write(w, channel, data)
            &&& channel == TAG_CHANNEL_NAME@ ==> (may_write(w, channel, data)
                <==> forall|i: int|
                0 <= i < members(data).len() ==> (#[trigger] members(data)[i]).0 == c.app_key@)
        }),
{
}

// ---- the pipeline ----------------------------------------------------------------

/// Whether an event was caused by this app's own tag write.
pub open spec fn self_loop(p: EventPayload, app_key: Seq<char>) -> bool {
    match p {
        EventPayload::AggregateUpdate(e) => e.channel.name@ == TAG_CHANNEL_NAME@ && field(
            e.request_data@,
            app_key,
        ) is Some,
        EventPayload::MessageCreate(e) => e.channel.name@ == TAG_CHANNEL_NAME@ && field(
            e.message.data@,
            app_key,
        ) is Some,
        _ => false,
    }
}

/// Whether an event was caused by this app's own tag write.
pub fn is_tag_values_self_loop(payload: &EventPayload, app_key: &str) -> (r: bool)
    ensures
        r == self_loop(*payload, app_key@),
{
    match payload {
        EventPayload::AggregateUpdate(e) => same(e.channel.name.as_str(), TAG_CHANNEL_NAME)
            && e.request_data.get(app_key).is_some(),
        EventPayload::MessageCreate(e) => same(e.channel.name.as_str(), TAG_CHANNEL_NAME)
            && e.message.data.get(app_key).is_some(),
        _ => false,
    }
}

/// Where a dispatch is: what is to be done next.
#[derive(Debug, Clone, Copy, PartialEq, Eq, Structural)]
pub enum Stage {
    /// Ask the early filter.
    PreHookFilter,
    /// Trade the token.
    Upgrade,
    /// Let the processor set itself up.
    Setup,
    /// Ask the late filter.
    PostSetupFilter,
    /// Run the handler.
    Handle,
    /// Commit the tags.
    Commit,
    /// Let the processor close.
    Close,
    /// All is done.
    Finished,
}

/// How the current stage went.
#[derive(Debug)]
pub enum StageResult {
    /// What a filter answered.
    Filter(bool),
    /// Whether the event was caused by this app, once the token was traded.
    Upgraded { own_write: bool },
    /// The token could not be traded.
    UpgradeFailed(DooverError),
    /// What a handler answered; an error counts as handled.
    Handler(Result<Handled, DooverError>),
    /// How the commit went.
    Committed(Result<(), DooverError>),
    /// A step of the processor's own, whose errors are only logged.
    Ran,
}

/// Whether a result is one that the stage can have.
pub open spec fn fits(stage: Stage, r: StageResult) -> bool {
    match stage {
        Stage::PreHookFilter | Stage::PostSetupFilter => r is Filter,
        Stage::Upgrade => r is Upgraded || r is UpgradeFailed,
        Stage::Handle => r is Handler,
        Stage::Commit => r is Committed,
        Stage::Setup | Stage::Close => r is Ran,
        Stage::Finished => false,
    }
}

/// Whether the pipeline goes on as it should.
pub open spec fn goes_on(
    stage: Stage,
    r: StageResult,
    deployment: bool,
    next: Result<Stage, DispatchEnd>,
) -> bool {
    match (stage, r) {
        (Stage::PreHookFilter, StageResult::Filter(passed)) => if passed {
            next == Ok::<Stage, DispatchEnd>(Stage::Upgrade)
        } else {
            next matches Err(end) && end == DispatchEnd::Skipped(SkipReason::PreHookFilter)
        },
        (Stage::Upgrade, StageResult::Upgraded { own_write }) => if own_write {
            next matches Err(end) && end == DispatchEnd::Skipped(SkipReason::TagValuesSelfLoop)
        } else {
            next == Ok::<Stage, DispatchEnd>(Stage::Setup)
        },
        (Stage::Upgrade, StageResult::UpgradeFailed(e)) => next matches Err(end) && fails_with(
            end,
            e,
        ),
        (Stage::Setup, StageResult::Ran) => next == Ok::<Stage, DispatchEnd>(
            Stage::PostSetupFilter,
        ),
        (Stage::PostSetupFilter, StageResult::Filter(passed)) => if passed {
            next == Ok::<Stage, DispatchEnd>(Stage::Handle)
        } else {
            next matches Err(end) && end == DispatchEnd::Skipped(SkipReason::PostSetupFilter)
        },
        (Stage::Handle, StageResult::Handler(outcome)) => if outcome
            == Ok::<Handled, DooverError>(Handled::NotImplemented) && !deployment {
            next matches Err(end) && end == DispatchEnd::Skipped(SkipReason::NoHandler)
        } else {
            next == Ok::<Stage, DispatchEnd>(Stage::Commit)
        },
        (Stage::Commit, StageResult::Committed(outcome)) => match outcome {
            Ok(_) => next == Ok::<Stage, DispatchEnd>(Stage::Close),
            Err(e) => next matches Err(end) && fails_with(end, e),
        },
        (Stage::Close, StageResult::Ran) => next == Ok::<Stage, DispatchEnd>(Stage::Finished),
        _ => false,
    }
}

/// Decides how the pipeline goes on. A deployment runs to its end even without a
/// handler.
pub fn advance(stage: Stage, result: StageResult, payload: &EventPayload) -> (next: Result<
    Stage,
    DispatchEnd,
>)
    requires
        fits(stage, result),
    ensures
        goes_on(stage, result, *payload is Deployment, next),
{
    match (stage, result) {
        (Stage::PreHookFilter, StageResult::Filter(passed)) => if passed {
            Ok(Stage::Upgrade)
        } else {
            Err(DispatchEnd::Skipped(SkipReason::PreHookFilter))
        },
        (Stage::Upgrade, StageResult::Upgraded { own_write }) => if own_write {
            Err(DispatchEnd::Skipped(SkipReason::TagValuesSelfLoop))
        } else {
            Ok(Stage::Setup)
        },
        (Stage::Upgrade, StageResult::UpgradeFailed(e)) => Err(failed(&e)),
        (Stage::Setup, StageResult::Ran) => Ok(Stage::PostSetupFilter),
        (Stage::PostSetupFilter, StageResult::Filter(passed)) => if passed {
            Ok(Stage::Handle)
        } else {
            Err(DispatchEnd::Skipped(SkipReason::PostSetupFilter))
        },
        (Stage::Handle, StageResult::Handler(outcome)) => {
            let deployment = match payload {
                EventPayload::Deployment(_) => true,
                _ => false,
            };
            match outcome {
                Ok(Handled::NotImplemented) => if deployment {
                    Ok(Stage::Commit)
                } else {
                    Err(DispatchEnd::Skipped(SkipReason::NoHandler))
                },
                _ => Ok(Stage::Commit),
            }
        },
        (Stage::Commit, StageResult::Committed(outcome)) => match outcome {
            Ok(_) => Ok(Stage::Close),
            Err(e) => Err(failed(&e)),
        },
        (_, _) => {
            if stage == Stage::Close {
                Ok(Stage::Finished)
            } else {
                Ok(stage)
            }
        },
    }
}

// ---- the summary -----------------------------------------------------------------

/// A string document, or null.
pub open spec fn str_or_null(s: Option<String>) -> Json {
    match s {
        Some(t) => Json::Str(t@),
        None => Json::Null,
    }
}

/// The document of an invocation's summary.
pub open spec fn summary_doc(
    s: InvocationState,
    started_at: u64,
    duration: u64,
    outcome: Result<(), DispatchEnd>,
    lambda: LambdaMeta,
) -> Json {
    Json::Obj(
        seq![
            ("app_key"@, str_or_null(s.app_key)),
            ("app_id"@, str_or_null(s.app_id)),
            (
                "agent_id"@,
                match s.agent_id {
                    Some(a) => Json::Str(decimal(a as nat)),
                    None => Json::Null,
                },
            ),
            ("event_type"@, str_or_null(s.event_type)),
            ("subscription_id"@, str_or_null(s.subscription_id)),
            ("schedule_id"@, str_or_null(s.schedule_id)),
            ("ingestion_id"@, str_or_null(s.ingestion_id)),
            ("started_at"@, Json::Int(started_at as int)),
            ("duration_ms"@, Json::Int(duration as int)),
            (
                "status"@,
                Json::Str(
                    match outcome {
                        Ok(_) => "success"@,
                        Err(DispatchEnd::Skipped(_)) => "skipped"@,
                        Err(DispatchEnd::Failed { .. }) => "error"@,
                    },
                ),
            ),
            (
                "skip_reason"@,
                match outcome {
                    Err(DispatchEnd::Skipped(reason)) => Json::Str(reason.name()),
                    _ => Json::Null,
                },
            ),
            (
                "error"@,
                match outcome {
                    Err(DispatchEnd::Failed { error_type, message }) => Json::Obj(
                        seq![
                            ("type"@, Json::Str(error_type@)),
                            ("message"@, Json::Str(message@)),
                        ],
                    ),
                    _ => Json::Null,
                },
            ),
            ("requestId"@, str_or_null(lambda.request_id)),
            ("function_name"@, str_or_null(lambda.function_name)),
            ("function_version"@, str_or_null(lambda.function_version)),
        ],
    )
}

/// The summary of an invocation. The agent's id is text, because readers that
/// hold numbers as doubles would round it.
pub fn summary(
    state: &InvocationState,
    started_at: u64,
    duration: u64,
    outcome: &Result<(), DispatchEnd>,
    lambda: &LambdaMeta,
) -> (v: Value)
    ensures
        v@ == summary_doc(*state, started_at, duration, *outcome, *lambda),
{
    let agent = match state.agent_id {
        Some(a) => Value::String(write_u64(a)),
        None => Value::Null,
    };
    let (status, skip_reason, error): (&str, Value, Value) = match outcome {
        Ok(_) => ("success", Value::Null, Value::Null),
        Err(DispatchEnd::Skipped(reason)) => ("skipped", Value::text(reason.as_str()), Value::Null),
        Err(DispatchEnd::Failed { error_type, message }) => {
            let mut inner: Vec<(String, Value)> = Vec::new();
            inner.push(("type".to_owned(), Value::text(error_type.as_str())));
            inner.push(("message".to_owned(), Value::text(message.as_str())));
            assert(entries_of(inner@) =~= seq![
                ("type"@, Json::Str(error_type@)),
                ("message"@, Json::Str(message@)),
            ]);
            ("error", Value::Null, Value::object(inner))
        },
    };
    let mut e: Vec<(String, Value)> = Vec::new();
    e.push(("app_key".to_owned(), Value::opt_text(&state.app_key)));
    e.push(("app_id".to_owned(), Value::opt_text(&state.app_id)));
    e.push(("agent_id".to_owned(), agent));
    e.push(("event_type".to_owned(), Value::opt_text(&state.event_type)));
    e.push(("subscription_id".to_owned(), Value::opt_text(&state.subscription_id)));
    e.push(("schedule_id".to_owned(), Value::opt_text(&state.schedule_id)));
    e.push(("ingestion_id".to_owned(), Value::opt_text(&state.ingestion_id)));
    e.push(("started_at".to_owned(), Value::unsigned(started_at)));
    e.push(("duration_ms".to_owned(), Value::unsigned(duration)));
    e.push(("status".to_owned(), Value::text(status)));
    e.push(("skip_reason".to_owned(), skip_reason));
    e.push(("error".to_owned(), error));
    e.push(("requestId".to_owned(), Value::opt_text(&lambda.request_id)));
    e.push(("function_name".to_owned(), Value::opt_text(&lambda.function_name)));
    e.push(("function_version".to_owned(), Value::opt_text(&lambda.function_version)));
    let v = Value::object(e);
    assert(v@->Obj_0 =~= summary_doc(*state, started_at, duration, *outcome, *lambda)->Obj_0);
    v
}

/// Where a summary goes: the channel with the app's id put in, and the agent.
pub open spec fn summary_targets(targets: Seq<Target>, app_id: Seq<char>) -> Seq<Target> {
    Seq::new(targets.len(), |i: int| (targets[i].0, replaced(targets[i].1, "$app_id"@, app_id)))
}

/// The channels, and the agents, that the summary is published to; none without
/// an app id.
pub fn publish_targets(state: &InvocationState) -> (r: Vec<(Option<u64>, String)>)
    ensures
        Seq::new(r@.len(), |i: int| (r@[i].0, r@[i].1@)) == (match state.app_id {
            Some(id) => summary_targets(state.proc_config@.inv_targets, id@),
            None => Seq::empty(),
        }),
{
    let mut r: Vec<(Option<u64>, String)> = Vec::new();
    assert(Seq::new(r@.len(), |i: int| (r@[i].0, r@[i].1@)) =~= Seq::empty());
    let app_id = match &state.app_id {
        Some(id) => id,
        None => {
            return r;
        },
    };
    let list = &state.proc_config.inv_targets;
    let ghost all = summary_targets(state.proc_config@.inv_targets, app_id@);
    let mut i: usize = 0;
    assert(all.take(0) =~= Seq::empty());
    while i < list.len()
        invariant
            i <= list@.len(),
            *list == state.proc_config.inv_targets,
            all == summary_targets(state.proc_config@.inv_targets, app_id@),
            Seq::new(r@.len(), |j: int| (r@[j].0, r@[j].1@)) == all.take(i as int),
        decreases list@.len() - i,
    {
        let ghost before = Seq::new(r@.len(), |j: int| (r@[j].0, r@[j].1@));
        proof {
            reveal_strlit("$app_id");
        }
        let channel = replace(list[i].channel.as_str(), "$app_id", app_id.as_str());
        let agent = list[i].agent_id;
        r.push((agent, channel));
        proof {
            assert(all[i as int] == (agent, channel@));
            assert(Seq::new(r@.len(), |j: int| (r@[j].0, r@[j].1@)) =~= before.push(all[i as int]));
            assert(all.take(i as int + 1) =~= before.push(all[i as int]));
        }
        i += 1;
    }
    assert(all.take(all.len() as int) =~= all);
    r
}

// ---- laws -----------------------------------------------------------------------

/// How far a stage is from the end.
pub open spec fn stages_left(stage: Stage) -> nat {
    match stage {
        Stage::PreHookFilter => 7,
        Stage::Upgrade => 6,
        Stage::Setup => 5,
        Stage::PostSetupFilter => 4,
        Stage::Handle => 3,
        Stage::Commit => 2,
        Stage::Close => 1,
        Stage::Finished => 0,
    }
}

/// Every stage that goes on comes exactly one nearer to the end, so each stage
/// runs at most once, and the tags are committed at most once.
pub proof fn law_pipeline_moves_forward(
    stage: Stage,
    r: StageResult,
    deployment: bool,
    next: Result<Stage, DispatchEnd>,
)
    requires
        fits(stage, r),
        goes_on(stage, r, deployment, next),
    ensures
        next matches Ok(to) ==> stages_left(to) + 1 == stages_left(stage),
{
}

/// An event that this app's own tag write caused is skipped before its handler.
pub proof fn law_own_writes_are_not_handled(r: StageResult, deployment: bool, next: Result<
    Stage,
    DispatchEnd,
>)
    requires
        r == (StageResult::Upgraded { own_write: true }),
        goes_on(Stage::Upgrade, r, deployment, next),
    ensures
        next matches Err(end) && end == DispatchEnd::Skipped(SkipReason::TagValuesSelfLoop),
{
}

/// A handler that fails does not fail the invocation: the tags are committed.
pub proof fn law_handler_errors_do_not_stop_the_commit(
    e: DooverError,
    deployment: bool,
    next: Result<Stage, DispatchEnd>,
)
    requires
        goes_on(Stage::Handle, StageResult::Handler(Err(e)), deployment, next),
    ensures
        next == Ok::<Stage, DispatchEnd>(Stage::Commit),
{
}

} // verus!
