//! What an invocation promises: which events are handled, what their handlers get, and
//! what is said of them afterwards.
use vstd::prelude::*;

use crate::error::DooverError;
use crate::json::{
    empty_obj, field, field2, field_or_null, item, lemma_first_is_position, str_field, Json, Value,
};
use crate::json_text::json_parse;
use crate::models::id_of;
use crate::processor::application::{
    changed_config, changes_config, is_offline, offline_after, online_at, Handled, PingOptions,
    SkipReason,
};
use crate::processor::config::{targets_of, target_of, Target};
use crate::processor::events::{channel_fault, id_or_zero, id_text, id_text_or_empty, EventPayload};
use crate::processor::handler::{
    is_refusal, is_unreadable, record_message, record_source, record_subscription,
};
use crate::processor::runner::{
    describes, event_data, fits, goes_on, inline_upgrade, object_or_empty, op_of, opening_end,
    proc_config_of, self_loop, summary_doc, summary_targets, DispatchEnd, InvocationState, LambdaMeta, Op, Stage, StageResult,
};
use crate::text::{decimal, law_replacing, opt_chars};

verus! {

// ---- the pipeline --------------------------------------------------------------------------

/// An event goes on past each stage exactly if the stage lets it: past a filter that
/// passes it, past the token upgrade unless that fails or the event is the app's own
/// write, past a handler that there is, and past a commit that succeeds. Where it ends the
/// reason is told. The stages come in a fixed order.
pub proof fn law_stages_let_events_pass(
    stage: Stage,
    r: StageResult,
    deployment: bool,
    next: Result<Stage, DispatchEnd>,
)
    requires
        fits(stage, r),
        goes_on(stage, r, deployment, next),
    ensures
        (stage == Stage::PreHookFilter && r == StageResult::Filter(true)) ==> next == Ok::<
            Stage,
            DispatchEnd,
        >(Stage::Upgrade),
        (stage == Stage::PreHookFilter && r == StageResult::Filter(false)) ==> next == Err::<
            Stage,
            DispatchEnd,
        >(DispatchEnd::Skipped(SkipReason::PreHookFilter)),
        (stage == Stage::Upgrade && r == (StageResult::Upgraded { own_write: false })) ==> next
            == Ok::<Stage, DispatchEnd>(Stage::Setup),
        (stage == Stage::Upgrade && r == (StageResult::Upgraded { own_write: true })) ==> next
            == Err::<Stage, DispatchEnd>(DispatchEnd::Skipped(SkipReason::TagValuesSelfLoop)),
        (stage == Stage::Upgrade && r is UpgradeFailed) ==> (next matches Err(
            DispatchEnd::Failed { error_type, message },
        ) && error_type@ == r->UpgradeFailed_0.kind() && message@ == r->UpgradeFailed_0.text()),
        stage == Stage::Setup ==> next == Ok::<Stage, DispatchEnd>(Stage::PostSetupFilter),
        (stage == Stage::PostSetupFilter && r == StageResult::Filter(true)) ==> next == Ok::<
            Stage,
            DispatchEnd,
        >(Stage::Handle),
        (stage == Stage::PostSetupFilter && r == StageResult::Filter(false)) ==> next == Err::<
            Stage,
            DispatchEnd,
        >(DispatchEnd::Skipped(SkipReason::PostSetupFilter)),
        (stage == Stage::Handle && r == StageResult::Handler(Ok(Handled::NotImplemented))) ==> next
            == (if deployment {
            Ok::<Stage, DispatchEnd>(Stage::Commit)
        } else {
            Err::<Stage, DispatchEnd>(DispatchEnd::Skipped(SkipReason::NoHandler))
        }),
        (stage == Stage::Handle && r != StageResult::Handler(Ok(Handled::NotImplemented))) ==> next
            == Ok::<Stage, DispatchEnd>(Stage::Commit),
        (stage == Stage::Commit && r == StageResult::Committed(Ok(()))) ==> next == Ok::<
            Stage,
            DispatchEnd,
        >(Stage::Close),
        (stage == Stage::Commit && (r matches StageResult::Committed(o) && o is Err)) ==> (
        next matches Err(DispatchEnd::Failed { error_type, message }) && error_type@
            == r->Committed_0->Err_0.kind() && message@ == r->Committed_0->Err_0.text()),
        stage == Stage::Close ==> next == Ok::<Stage, DispatchEnd>(Stage::Finished),
{
}

/// An event counts as the app's own write exactly if it came over the tag channel and what
/// was written there names the app.
pub proof fn law_own_writes_are_known(p: EventPayload, app_key: Seq<char>)
    ensures
        self_loop(p, app_key) <==> (match p {
            EventPayload::MessageCreate(e) => e.channel.name@ == "tag_values"@ && field(
                e.message.data@,
                app_key,
            ) is Some,
            EventPayload::AggregateUpdate(e) => e.channel.name@ == "tag_values"@ && field(
                e.request_data@,
                app_key,
            ) is Some,
            EventPayload::Deployment(_) => false,
            EventPayload::Schedule(_) => false,
            EventPayload::IngestionEndpoint(_) => false,
            EventPayload::ManualInvoke(_) => false,
        }),
{
}

// ---- what handlers get -----------------------------------------------------------------------

proof fn lemma_operations()
    ensures
        "on_message_create"@.len() == 17,
        "on_aggregate_update"@.len() == 19,
        "on_deployment"@.len() == 13,
        "on_schedule"@.len() == 11,
        "on_ingestion_endpoint"@.len() == 21,
        "on_manual_invoke"@.len() == 16,
{
    reveal_strlit("on_message_create");
    reveal_strlit("on_aggregate_update");
    reveal_strlit("on_deployment");
    reveal_strlit("on_schedule");
    reveal_strlit("on_ingestion_endpoint");
    reveal_strlit("on_manual_invoke");
}

/// Every operation has a payload of its own kind, and a name that is no operation has
/// none.
pub proof fn law_operations_have_their_payload(
    name: Seq<char>,
    op: Op,
    d: Json,
    ingested: Result<Value, DooverError>,
    p: EventPayload,
)
    requires
        op_of(name) == Some(op),
        describes(op, d, ingested, p),
    ensures
        name == "on_message_create"@ <==> p is MessageCreate,
        name == "on_aggregate_update"@ <==> p is AggregateUpdate,
        name == "on_deployment"@ <==> p is Deployment,
        name == "on_schedule"@ <==> p is Schedule,
        name == "on_ingestion_endpoint"@ <==> p is IngestionEndpoint,
        name == "on_manual_invoke"@ <==> p is ManualInvoke,
{
    lemma_operations();
}

/// A payload holds what the event's data says: a message with its channel, data and ids, an
/// aggregate update with what was written and what came of it, a deployment's app, a
/// schedule's id, what was ingested, or what was invoked with.
pub proof fn law_payloads_hold_what_the_event_says(
    op: Op,
    d: Json,
    ingested: Result<Value, DooverError>,
    p: EventPayload,
)
    requires
        describes(op, d, ingested, p),
    ensures
        p matches EventPayload::MessageCreate(e) ==> ({
            let m = match field(d, "message"@) {
                Some(m) => m,
                None => d,
            };
            let channel = field_or_null(m, "channel"@);
            &&& str_field(channel, "name"@) == Some(e.channel.name@)
            &&& e.message.channel.name@ == e.channel.name@
            &&& e.message.data@ == field_or_null(m, "data"@)
            &&& id_of(field(m, "id"@)) matches Some(n) ==> e.message.id == n
            &&& id_of(field(m, "author_id"@)) matches Some(n) ==> e.message.author_id == n
            &&& id_of(field(channel, "agent_id"@)) matches Some(n) ==> e.channel.agent_id == n
        }),
        p matches EventPayload::AggregateUpdate(e) ==> ({
            &&& str_field(field_or_null(d, "channel"@), "name"@) == Some(e.channel.name@)
            &&& field2(d, "aggregate"@, "data"@) matches Some(x) ==> e.aggregate_data@ == x
            &&& field2(d, "aggregate"@, "data"@) is None ==> e.aggregate_data@ is Null
            &&& field2(d, "request_data"@, "data"@) matches Some(x) ==> e.request_data@ == x
            &&& field2(d, "request_data"@, "data"@) is None ==> e.request_data@ is Null
            &&& id_of(field(d, "author_id"@)) matches Some(n) ==> e.author_id == n
            &&& e.organisation_id == id_of(field(d, "organisation_id"@))
        }),
        p matches EventPayload::Deployment(e) ==> ({
            &&& id_of(field(d, "agent_id"@)) matches Some(n) ==> e.agent_id == n
            &&& e.app_id@ == field_or_null(d, "app_id"@)
            &&& e.app_install_id@ == field_or_null(d, "app_install_id"@)
            &&& str_field(d, "app_key"@) matches Some(k) ==> e.app_key@ == k
            &&& str_field(d, "app_display_name"@) matches Some(k) ==> e.app_display_name@ == k
        }),
        p matches EventPayload::Schedule(e) ==> (id_text(
            field(d, "schedule_id"@),
        ) matches Some(t) ==> e.schedule_id@ == t),
        p matches EventPayload::IngestionEndpoint(e) ==> ({
            &&& ingested matches Ok(v) && e.data@ == v@
            &&& str_field(d, "payload"@) matches Some(t) ==> e.payload@ == t
            &&& id_text(field(d, "ingestion_id"@)) matches Some(t) ==> e.ingestion_id@ == t
            &&& id_of(field(d, "agent_id"@)) matches Some(n) ==> e.agent_id == n
            &&& e.organisation_id == id_of(field(d, "organisation_id"@))
            &&& opt_chars(e.invocation_url) == str_field(d, "invocation_url"@)
            &&& opt_chars(e.content_type) == str_field(d, "content_type"@)
        }),
        p matches EventPayload::ManualInvoke(e) ==> e.organisation_id == id_of(
            field(d, "organisation_id"@),
        ) && e.payload@ == field_or_null(d, "payload"@),
{
}

/// An id is read as its own text, whether it is written as a text or as a number.
pub proof fn law_ids_are_read_as_text(s: Seq<char>, n: nat)
    ensures
        id_text(Some(Json::Str(s))) == Some(s),
        id_text(Some(Json::Int(n as int))) == Some(decimal(n)),
        id_text(Some(Json::Null)) is None,
        id_text(None) is None,
{
}

/// The connection data of an invocation is what the upgrade says of it, and the empty
/// object where it says nothing or null.
pub proof fn law_missing_connection_data_is_empty(j: Json, k: Seq<char>)
    ensures
        field(j, k) is None ==> object_or_empty(j, k) == empty_obj(),
        field(j, k) == Some(Json::Null) ==> object_or_empty(j, k) == empty_obj(),
        field(j, k) matches Some(v) && !(v is Null) ==> Some(object_or_empty(j, k)) == field(j, k),
{
}

/// A delivery's event is the text in the message of its first record, and its
/// subscription the one that the record names; an event without a record's source is
/// itself.
pub proof fn law_records_hold_the_event(event: Json, record: Json)
    requires
        item(field_or_null(event, "Records"@), 0) == Some(record),
    ensures
        record_source(event) == str_field(record, "EventSource"@),
        record_subscription(event) == str_field(record, "EventSubscriptionArn"@),
        field2(record, "Sns"@, "Message"@) matches Some(Json::Str(t)) ==> record_message(event)
            == Some(t),
        !(field2(record, "Sns"@, "Message"@) matches Some(m) && m is Str) ==> record_message(event)
            is None,
{
}

// ---- the framework's configuration -------------------------------------------------------------

/// The framework's configuration is taken as it is written: each setting that is missing
/// has its default, and if one has the wrong kind all of them do.
pub proof fn law_settings_have_defaults(deployment: Json)
    ensures
        ({
            let c = proc_config_of(deployment);
            let j = field_or_null(deployment, "dv_proc_config"@);
            let level = field(j, "log_level"@);
            let overrides = field(j, "log_overrides"@);
            let targets = field(j, "inv_targets"@);
            let live = field(j, "live_logs"@);
            let right = j is Obj && (level matches Some(x) ==> x is Str) && (
            overrides matches Some(x) ==> x is Obj) && (targets matches Some(x) ==> x is Arr
                && targets_of(x->Arr_0) is Some) && (live matches Some(x) ==> x is Bool);
            &&& c.log_level == (if right && level is Some {
                level.unwrap()->Str_0
            } else {
                "INFO"@
            })
            &&& c.live_logs == (right && live == Some(Json::Bool(true)))
            &&& right && overrides is Some ==> c.log_overrides == overrides.unwrap()->Obj_0
            &&& !(right && overrides is Some) ==> c.log_overrides.len() == 0
            &&& right && targets is Some ==> Some(c.inv_targets) == targets_of(
                targets.unwrap()->Arr_0,
            )
            &&& !(right && targets is Some) ==> c.inv_targets == seq![
                (None::<u64>, "dv-proc-inv-$app_id"@),
            ]
        }),
{
}

/// A destination is an object with a channel and perhaps an agent, or a pair of agent and
/// channel.
pub proof fn law_destinations_have_two_forms(agent: Json, channel: Seq<char>, j: Json)
    ensures
        target_of(Json::Arr(seq![agent, Json::Str(channel)])) == Some((id_of(Some(agent)), channel)),
        field(j, "channel"@) == Some(Json::Str(channel)) ==> target_of(j) == Some(
            (id_of(field(j, "agent_id"@)), channel),
        ),
        j is Obj && !(field_or_null(j, "channel"@) is Str) ==> target_of(j) is None,
        !(j is Obj) && !(j is Arr) ==> target_of(j) is None,
{
}

/// Destinations are read in their order, each as an object with a channel and perhaps an
/// agent, or as a pair of agent and channel; one that is neither spoils them all.
pub proof fn law_destinations_are_read_in_order(a: Seq<Json>)
    ensures
        match targets_of(a) {
            Some(list) => list.len() == a.len() && forall|i: int|
                0 <= i < a.len() ==> Some(#[trigger] list[i]) == target_of(a[i]),
            None => exists|i: int| 0 <= i < a.len() && target_of(#[trigger] a[i]) is None,
        },
    decreases a.len(),
{
    if a.len() > 0 {
        let d = a.drop_last();
        law_destinations_are_read_in_order(d);
        assert(forall|i: int| 0 <= i < d.len() ==> #[trigger] d[i] == a[i]);
        assert(a[a.len() - 1] == a.last());
        match targets_of(a) {
            Some(list) => {
                let before = targets_of(d).unwrap();
                assert forall|i: int| 0 <= i < a.len() implies Some(#[trigger] list[i]) == target_of(
                    a[i],
                ) by {
                    if i < d.len() {
                        assert(list[i] == before[i]);
                        assert(d[i] == a[i]);
                    }
                }
            },
            None => {
                if targets_of(d) is None {
                    let i = choose|i: int| 0 <= i < d.len() && target_of(#[trigger] d[i]) is None;
                    assert(a[i] == d[i]);
                }
            },
        }
    }
}

// ---- the summary ---------------------------------------------------------------------------------

proof fn lemma_summary_words()
    ensures
        "app_key"@.len() == 7 && "app_key"@[0] == 'a',
        "app_id"@.len() == 6 && "app_id"@[0] == 'a',
        "agent_id"@.len() == 8,
        "event_type"@.len() == 10 && "event_type"@[0] == 'e',
        "subscription_id"@.len() == 15,
        "schedule_id"@.len() == 11 && "schedule_id"@[0] == 's' && "schedule_id"@[1] == 'c',
        "ingestion_id"@.len() == 12,
        "started_at"@.len() == 10 && "started_at"@[0] == 's',
        "duration_ms"@.len() == 11 && "duration_ms"@[0] == 'd',
        "status"@.len() == 6 && "status"@[0] == 's',
        "skip_reason"@.len() == 11 && "skip_reason"@[0] == 's' && "skip_reason"@[1] == 'k',
        "error"@.len() == 5,
        "requestId"@.len() == 9,
        "function_name"@.len() == 13,
        "function_version"@.len() == 16,
        "type"@.len() == 4,
        "message"@.len() == 7,
{
    reveal_strlit("app_key");
    reveal_strlit("app_id");
    reveal_strlit("agent_id");
    reveal_strlit("event_type");
    reveal_strlit("subscription_id");
    reveal_strlit("schedule_id");
    reveal_strlit("ingestion_id");
    reveal_strlit("started_at");
    reveal_strlit("duration_ms");
    reveal_strlit("status");
    reveal_strlit("skip_reason");
    reveal_strlit("error");
    reveal_strlit("requestId");
    reveal_strlit("function_name");
    reveal_strlit("function_version");
    reveal_strlit("type");
    reveal_strlit("message");
}

/// A summary says how the invocation ended: with success, skipped for a reason, or with an
/// error and its kind and text; and it says of what, for whom, when and how long it was.
pub proof fn law_summaries_say_how_it_ended(
    s: InvocationState,
    started_at: u64,
    duration: u64,
    outcome: Result<(), DispatchEnd>,
    lambda: LambdaMeta,
)
    ensures
        ({
            let d = summary_doc(s, started_at, duration, outcome, lambda);
            &&& outcome is Ok ==> field(d, "status"@) == Some(Json::Str("success"@)) && field(
                d,
                "skip_reason"@,
            ) == Some(Json::Null) && field(d, "error"@) == Some(Json::Null)
            &&& outcome matches Err(DispatchEnd::Skipped(reason)) ==> field(d, "status"@) == Some(
                Json::Str("skipped"@),
            ) && field(d, "error"@) == Some(Json::Null) && field(d, "skip_reason"@) == Some(
                Json::Str(
                    match reason {
                        SkipReason::NoHandler => "no_handler"@,
                        SkipReason::PreHookFilter => "pre_hook_filter"@,
                        SkipReason::TagValuesSelfLoop => "tag_values_self_loop"@,
                        SkipReason::PostSetupFilter => "post_setup_filter"@,
                    },
                ),
            )
            &&& outcome matches Err(DispatchEnd::Failed { error_type, message }) ==> field(
                d,
                "status"@,
            ) == Some(Json::Str("error"@)) && field(d, "skip_reason"@) == Some(Json::Null)
                && field2(d, "error"@, "type"@) == Some(Json::Str(error_type@)) && field2(
                d,
                "error"@,
                "message"@,
            ) == Some(Json::Str(message@))
            &&& field(d, "started_at"@) == Some(Json::Int(started_at as int))
            &&& field(d, "duration_ms"@) == Some(Json::Int(duration as int))
            &&& field(d, "app_key"@) == Some(text_or_null(opt_chars(s.app_key)))
            &&& field(d, "app_id"@) == Some(text_or_null(opt_chars(s.app_id)))
            &&& field(d, "event_type"@) == Some(text_or_null(opt_chars(s.event_type)))
            &&& field(d, "subscription_id"@) == Some(text_or_null(opt_chars(s.subscription_id)))
            &&& field(d, "schedule_id"@) == Some(text_or_null(opt_chars(s.schedule_id)))
            &&& field(d, "ingestion_id"@) == Some(text_or_null(opt_chars(s.ingestion_id)))
            &&& field(d, "requestId"@) == Some(text_or_null(opt_chars(lambda.request_id)))
            &&& field(d, "function_name"@) == Some(text_or_null(opt_chars(lambda.function_name)))
            &&& field(d, "function_version"@) == Some(
                text_or_null(opt_chars(lambda.function_version)),
            )
            &&& field(d, "agent_id"@) == Some(
                match s.agent_id {
                    Some(a) => Json::Str(decimal(a as nat)),
                    None => Json::Null,
                },
            )
        }),
{
    lemma_summary_words();
    let e = summary_doc(s, started_at, duration, outcome, lambda)->Obj_0;
    assert(e.len() == 15);
    assert(e[0].0 == "app_key"@ && e[1].0 == "app_id"@ && e[2].0 == "agent_id"@ && e[3].0
        == "event_type"@ && e[4].0 == "subscription_id"@ && e[5].0 == "schedule_id"@ && e[6].0
        == "ingestion_id"@ && e[7].0 == "started_at"@ && e[8].0 == "duration_ms"@ && e[9].0
        == "status"@ && e[10].0 == "skip_reason"@ && e[11].0 == "error"@ && e[12].0
        == "requestId"@ && e[13].0 == "function_name"@ && e[14].0 == "function_version"@);
    lemma_first_is_position(e, "app_key"@, 0);
    lemma_first_is_position(e, "app_id"@, 1);
    lemma_first_is_position(e, "agent_id"@, 2);
    lemma_first_is_position(e, "event_type"@, 3);
    lemma_first_is_position(e, "subscription_id"@, 4);
    lemma_first_is_position(e, "schedule_id"@, 5);
    lemma_first_is_position(e, "ingestion_id"@, 6);
    lemma_first_is_position(e, "started_at"@, 7);
    lemma_first_is_position(e, "duration_ms"@, 8);
    lemma_first_is_position(e, "status"@, 9);
    lemma_first_is_position(e, "skip_reason"@, 10);
    lemma_first_is_position(e, "error"@, 11);
    lemma_first_is_position(e, "requestId"@, 12);
    lemma_first_is_position(e, "function_name"@, 13);
    lemma_first_is_position(e, "function_version"@, 14);
    if let Err(DispatchEnd::Failed { error_type, message }) = outcome {
        let inner = seq![("type"@, Json::Str(error_type@)), ("message"@, Json::Str(message@))];
        assert(inner[0].0 == "type"@ && inner[1].0 == "message"@);
        lemma_first_is_position(inner, "type"@, 0);
        lemma_first_is_position(inner, "message"@, 1);
        assert(e[11].1 == Json::Obj(inner));
    }
}

/// A text, or null where there is none.
pub open spec fn text_or_null(s: Option<Seq<char>>) -> Json {
    match s {
        Some(t) => Json::Str(t),
        None => Json::Null,
    }
}

/// A summary goes to every destination, to the same agent and with the app's id in the
/// place of `$app_id`; a channel without that is left as it is, and the default channel
/// ends in the app's id.
pub proof fn law_summaries_go_to_every_destination(
    targets: Seq<Target>,
    app_id: Seq<char>,
    i: int,
    before: Seq<char>,
    after: Seq<char>,
)
    requires
        0 <= i < targets.len(),
        !before.contains('$'),
        !after.contains('$'),
    ensures
        summary_targets(targets, app_id).len() == targets.len(),
        summary_targets(targets, app_id)[i].0 == targets[i].0,
        targets[i].1 == before + "$app_id"@ + after ==> summary_targets(targets, app_id)[i].1
            == before + app_id + after,
        targets[i].1 == before ==> summary_targets(targets, app_id)[i].1 == before,
        targets[i].1 == "dv-proc-inv-$app_id"@ ==> summary_targets(targets, app_id)[i].1
            == "dv-proc-inv-"@ + app_id,
{
    reveal_strlit("$app_id");
    reveal_strlit("dv-proc-inv-$app_id");
    reveal_strlit("dv-proc-inv-");
    assert("$app_id"@[0] == '$');
    law_replacing(before, "$app_id"@, after, app_id);
    let none = Seq::<char>::empty();
    let head = "dv-proc-inv-"@;
    assert forall|k: int| 0 <= k < head.len() implies head[k] != '$' by {}
    law_replacing(head, "$app_id"@, none, app_id);
    assert("dv-proc-inv-$app_id"@ =~= head + "$app_id"@ + none);
    assert(head + app_id + none =~= head + app_id);
}

// ---- pings -----------------------------------------------------------------------------------------

/// A device counts as online while its last sign of life is no older than it may stay
/// silent: as long as the ping says, else as the connection's configuration says, else an
/// hour.
pub proof fn law_devices_go_offline_after_silence(o: PingOptions, now: u64, config: Json)
    ensures
        ({
            let seen = match o.online_at_ms {
                Some(t) => t,
                None => now,
            };
            let allowed = match o.offline_at_ms {
                Some(at) => if at >= seen {
                    (at - seen) / 1000
                } else {
                    0
                },
                None => match field(config, "offline_after"@) {
                    Some(Json::Int(n)) => if 0 <= n <= u64::MAX {
                        n
                    } else {
                        3600
                    },
                    _ => 3600,
                },
            };
            &&& online_at(o, now) == seen
            &&& offline_after(o, now, config) == allowed
            &&& is_offline(o, now, config) <==> now - seen > allowed * 1000
            &&& o.offline_at_ms is None ==> !changes_config(o, now, config)
            &&& changes_config(o, now, config) ==> field(
                changed_config(o, now, config),
                "offline_after"@,
            ) == Some(Json::Int(allowed as int))
        }),
{
    let members = crate::json::members(config);
    crate::json::lemma_put(
        members,
        "offline_after"@,
        Json::Int(offline_after(o, now, config) as int),
    );
}

// ---- opening an invocation -----------------------------------------------------------------

/// The data of an event stand under `d`; an event without any has empty data. What is needed
/// beyond them comes with them unless it is missing or null.
pub proof fn law_events_carry_their_data(event: Json, d: Json, upgrade: Json)
    ensures
        field(event, "d"@) == Some(d) ==> event_data(event) == d,
        field(event, "d"@) is None ==> event_data(event) == empty_obj(),
        field(d, "upgrade"@) == Some(upgrade) && !(upgrade is Null) ==> inline_upgrade(d) == Some(
            upgrade,
        ),
        field(d, "upgrade"@) is None || field(d, "upgrade"@) == Some(Json::Null) ==> inline_upgrade(
            d,
        ) is None,
{
}

/// An invocation that cannot be opened says why: without a token it fails, an operation that
/// is not known is skipped, and data that cannot be read are an invalid payload.
pub proof fn law_openings_end_for_a_reason(
    s: InvocationState,
    event: Json,
    ingested: Result<Value, DooverError>,
    end: DispatchEnd,
)
    requires
        opening_end(s, event, ingested, end),
    ensures
        str_field(event, "token"@) is None ==> (end matches DispatchEnd::Failed {
            error_type,
            message,
        } && error_type@ == "RuntimeError"@ && message@ == "Initial token has not been set."@),
        str_field(event, "token"@) is Some && (s.event_type matches Some(op) && op_of(op@) is None)
            ==> end == DispatchEnd::Skipped(SkipReason::NoHandler),
        str_field(event, "token"@) is Some && (s.event_type matches Some(op) && op_of(op@) is Some)
            ==> end is Failed,
{
}

/// What comes in a record counts only if it says that SNS sent it and what was sent can be
/// read; a record from elsewhere is refused, and so is one without a message.
pub proof fn law_records_are_refused_for_a_reason(event: Json, e: DooverError)
    ensures
        is_refusal(event, e) && record_source(event) == Some("aws:sns"@) ==> record_message(event)
            is None && e.text() == "invalid payload: "@ + "SNS record missing Sns.Message"@,
        is_refusal(event, e) && record_source(event) != Some("aws:sns"@) ==> record_source(event)
            is Some && e.text()
            == "Unknown event. Must originate from SNS or EventBridge Schedules"@,
        is_unreadable(event, e) ==> record_source(event) == Some("aws:sns"@) && (record_message(
            event,
        ) matches Some(text) && (json_parse(text) matches Err(m) && e.text() == "JSON error: "@
            + m)),
{
}

/// The name of a channel is needed where an event has a channel; a channel that is missing is
/// told as the event tells it.
pub proof fn law_channels_need_a_name(j: Json, c: Json, missing: Seq<char>)
    ensures
        field(j, "channel"@) is None ==> channel_fault(j, missing) == Some(missing),
        field(j, "channel"@) == Some(c) && str_field(c, "name"@) is None ==> channel_fault(
            j,
            missing,
        ) == Some("channel missing name"@),
        field(j, "channel"@) == Some(c) && str_field(c, "name"@) is Some ==> channel_fault(
            j,
            missing,
        ) is None,
{
}

/// An id that is missing or cannot be read is zero, and its text is empty.
pub proof fn law_missing_ids_are_zero(j: Option<Json>, n: u64, s: Seq<char>)
    ensures
        id_of(j) == Some(n) ==> id_or_zero(j) == n,
        id_of(j) is None ==> id_or_zero(j) == 0,
        id_text(j) == Some(s) ==> id_text_or_empty(j) == s,
        id_text(j) is None ==> id_text_or_empty(j).len() == 0,
{
}

} // verus!
