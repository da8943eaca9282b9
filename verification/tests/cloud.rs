use std::io::Read;

use doover::api::auth::BearerAuth;
use doover::api::data::{
    choose_endpoint, compressed_body, ping_payload, prepare_body, Channel, DataClient,
    ListMessagesQuery, Method, PingConnectionArgs, RequestBody, DEFAULT_DATA_ENDPOINT,
};
use doover::api::reply::{
    after_attempt, created_id, is_success, map_status, never_tried, read_aggregate, read_info, read_messages,
    read_reply, required, Attempt, Step,
};
use doover::channel_backend::{AggregateOptions, UpdateMessageOptions};
use doover::error::DooverError;
use doover::json::Value;
use doover::json_text::{from_text, to_text};
use doover::models::{
    ConnectionDetermination, ConnectionStatus, Notification, NotificationSeverity,
    SubscriptionInfo,
};
use doover::processor::application::{
    parse_decoded, parse_ingestion_payload, plan_ping, Handled, PingOptions, SkipReason,
};
use doover::processor::config::ProcConfig;
use doover::processor::events::{ChannelId, EventPayload, MessageCreateEvent};
use doover::processor::handler::{non_empty, unwrap_event};
use doover::processor::runner::{
    advance, info_source, is_tag_values_self_loop, open_invocation, publish_targets, setup_context,
    summary, DispatchEnd, InfoSource, InvocationState, LambdaMeta, Stage, StageResult,
};
use doover::processor::tags::{LogMode, ProcessorTags, SetProcessorTagOptions};

fn json(text: &str) -> Value {
    from_text(text).unwrap()
}

// ---- processor configuration

#[test]
fn defaults_match_pydoover() {
    let cfg = ProcConfig::from_value(None);
    assert_eq!(cfg.log_level, "INFO");
    assert_eq!(cfg.inv_targets.len(), 1);
    assert_eq!(cfg.inv_targets[0].agent_id, None);
    assert_eq!(cfg.inv_targets[0].channel, "dv-proc-inv-$app_id");
    assert!(!cfg.live_logs);
}

#[test]
fn empty_targets_disable_summaries() {
    let cfg = ProcConfig::from_value(Some(&json(r#"{"inv_targets": []}"#)));
    assert!(cfg.inv_targets.is_empty());
}

#[test]
fn explicit_target_with_string_agent_id() {
    let cfg = ProcConfig::from_value(Some(&json(
        r#"{
            "inv_targets": [{"agent_id": "12345678901234567", "channel": "audit"}],
            "log_level": "DEBUG"
        }"#,
    )));
    assert_eq!(cfg.inv_targets[0].agent_id, Some(12345678901234567));
    assert_eq!(cfg.inv_targets[0].channel, "audit");
    assert_eq!(cfg.log_level, "DEBUG");
}

#[test]
fn a_wrong_field_gives_the_defaults() {
    let cfg = ProcConfig::from_value(Some(&json(r#"{"log_level": "DEBUG", "live_logs": "x"}"#)));
    assert_eq!(cfg.log_level, "INFO");
}

// ---- deliveries

#[test]
fn sns_records_unwrap() {
    let inner = r#"{"op":"on_schedule","token":"t","d":{}}"#;
    let quoted = to_text(&Value::String(inner.to_string()));
    let event = json(&format!(
        r#"{{"Records": [{{
            "EventSource": "aws:sns",
            "EventSubscriptionArn": "arn:aws:sns:ap-southeast-2:1:topic:uuid",
            "Sns": {{"Message": {quoted}}}
        }}]}}"#
    ));
    let (data, sub) = unwrap_event(event).unwrap();
    assert_eq!(to_text(&data), inner);
    assert_eq!(sub.as_deref(), Some("arn:aws:sns:ap-southeast-2:1:topic:uuid"));
}

#[test]
fn raw_events_pass_through() {
    let text = r#"{"op":"on_schedule","token":"t","d":{"schedule_id":"s-1"}}"#;
    let (data, sub) = unwrap_event(json(text)).unwrap();
    assert_eq!(to_text(&data), text);
    assert_eq!(sub, None);
}

#[test]
fn unknown_record_source_errors() {
    let event = json(r#"{"Records": [{"EventSource": "aws:s3"}]}"#);
    assert!(unwrap_event(event).is_err());
}

#[test]
fn broken_deliveries_are_told_apart() {
    let event = json(r#"{"Records": [{"EventSource": "aws:sns"}]}"#);
    assert!(matches!(unwrap_event(event), Err(DooverError::InvalidPayload(_))));
    let event = json(r#"{"Records": [{"EventSource": "aws:sns", "Sns": {"Message": "{"}}]}"#);
    assert!(matches!(unwrap_event(event), Err(DooverError::Json(_))));
    assert_eq!(choose_endpoint(None, Some(String::new())), DEFAULT_DATA_ENDPOINT);
    assert_eq!(DataClient::new(None).base_url(), DEFAULT_DATA_ENDPOINT);
    assert_eq!(DataClient::new(Some("http://x//".to_string())).base_url(), "http://x");
    assert_eq!(choose_endpoint(None, Some("e".to_string())), "e");
    assert_eq!(non_empty(String::new()), None);
    assert_eq!(non_empty("r".to_string()).as_deref(), Some("r"));
    assert_eq!(choose_endpoint(Some("x".to_string()), Some("e".to_string())), "x");
}

#[test]
fn ingested_payloads_are_decoded() {
    let v = parse_ingestion_payload("eyJhIjoxfQ==").unwrap();
    assert_eq!(to_text(&v), r#"{"a":1}"#);
    let e = parse_ingestion_payload("!").unwrap_err();
    assert!(e.message().starts_with("invalid payload: bad base64: "), "{}", e.message());
    assert!(matches!(parse_ingestion_payload("eyJh"), Err(DooverError::Json(_))));
    assert_eq!(to_text(&parse_decoded(Ok(b"[1]".to_vec())).unwrap()), "[1]");
    assert!(parse_decoded(Err("bad".to_string())).is_err());
}

// ---- an invocation

fn no_ingestion() -> Result<Value, DooverError> {
    Err(DooverError::Other("none".to_string()))
}

#[test]
fn invocations_open_and_upgrade() {
    let event = json(
        r#"{"op":"on_schedule","token":"t","agent_id":5,"d":{"schedule_id":"s-1"}}"#,
    );
    let mut state = InvocationState::new(&event, None);
    let opening = open_invocation(&mut state, &event, no_ingestion()).unwrap();
    assert_eq!(opening.token, "t");
    assert!(matches!(opening.payload, EventPayload::Schedule(_)));
    assert_eq!(state.schedule_id.as_deref(), Some("s-1"));
    match info_source(event.get("d").unwrap(), &state).unwrap() {
        InfoSource::Schedule(s) => assert_eq!(s, "s-1"),
        other => panic!("{other:?}"),
    }
    let info = SubscriptionInfo::from_value(&json(
        r#"{
            "agent_id": "5", "app_key": "app", "token": "full",
            "deployment_config": {"APP_ID": "77", "APP_DISPLAY_NAME": "App"},
            "connection_data": {"config": {"offline_after": 60}}
        }"#,
    ))
    .unwrap();
    let ctx = setup_context(&mut state, info, Some(9));
    assert_eq!((ctx.agent_id, ctx.organisation_id), (5, Some(9)));
    assert_eq!(ctx.token, "full");
    assert_eq!(ctx.proc_config.log_level, "INFO");
    let mut client = DataClient::with_base_url("http://x");
    opening.install_token(&mut client);
    assert_eq!(client.token().as_deref(), Some("t"));
    ctx.install(&mut client);
    assert_eq!(client.token().as_deref(), Some("full"));
    assert_eq!(client.agent_id(), Some(5));
    assert_eq!(client.app_key().as_deref(), Some("app"));
    assert_eq!(client.organisation_id().as_deref(), Some("9"));
    let (data, opts) = ctx.publish_ui_schema(&json("{}"), true);
    assert_eq!(to_text(&data), r#"{"state":{"children":{"app":{}}}}"#);
    assert_eq!(opts.replace_keys, vec!["state.children.app"]);
    assert!(ctx.publish_ui_schema(&json("{}"), false).1.replace_keys.is_empty());
    assert_eq!(to_text(&ctx.connection_status), "{}");
    assert_eq!(publish_targets(&state), vec![(None, "dv-proc-inv-77".to_string())]);
    let meta = LambdaMeta::default();
    let text = to_text(&summary(&state, 1, 2, &Ok(()), &meta));
    assert!(text.starts_with(r#"{"app_key":"app","app_id":"77","agent_id":"5","#), "{text}");
    assert!(text.contains(r#""status":"success""#));
    let skipped = Err(DispatchEnd::Skipped(SkipReason::NoHandler));
    assert!(to_text(&summary(&state, 1, 2, &skipped, &meta)).contains(r#""status":"skipped""#));
}

#[test]
fn the_invoking_channel_is_closed_to_writes() {
    let event = json(
        r#"{"op":"on_message_create","token":"t","d":{
            "owner_id":"5","channel":{"agent_id":"5","name":"ch"},"channel_name":"ch",
            "author_id":"5","organisation_id":"3",
            "message":{"id":"1","author_id":"5","channel":{"agent_id":"5","name":"ch"},"data":{},
                "attachments":[],"timestamp":0}
        }}"#,
    );
    let mut state = InvocationState::new(&event, None);
    let opening = open_invocation(&mut state, &event, no_ingestion()).unwrap();
    let mut client = DataClient::with_base_url("http://x");
    client.set_agent_id(5);
    let opts = AggregateOptions::default();
    assert!(client.update_channel_aggregate_http("ch", &json("{}"), &opts, None).is_ok());
    opening.install_channel(&mut client);
    let e = client.update_channel_aggregate_http("ch", &json("{}"), &opts, None).unwrap_err();
    assert_eq!(e.message(), "Cannot publish to the invoking channel.");
    assert!(client.update_channel_aggregate_http("other", &json("{}"), &opts, None).is_ok());
    assert!(client.token().is_none());
}

#[test]
fn invocations_need_a_token_and_a_known_operation() {
    let event = json(r#"{"op":"on_schedule","d":{}}"#);
    let mut state = InvocationState::new(&event, None);
    assert!(matches!(
        open_invocation(&mut state, &event, no_ingestion()),
        Err(DispatchEnd::Failed { message, .. }) if message == "Initial token has not been set."
    ));
    let event = json(r#"{"op":"on_whim","token":"t","d":{}}"#);
    let mut state = InvocationState::new(&event, None);
    assert!(matches!(
        open_invocation(&mut state, &event, no_ingestion()),
        Err(DispatchEnd::Skipped(SkipReason::NoHandler))
    ));
    let event = json(r#"{"op":"on_message_create","token":"t","d":{}}"#);
    let mut state = InvocationState::new(&event, None);
    assert!(matches!(
        open_invocation(&mut state, &event, no_ingestion()),
        Err(DispatchEnd::Failed { error_type, .. }) if error_type == "InvalidPayload"
    ));
    assert!(info_source(&json("{}"), &state).is_err());
    assert!(matches!(
        info_source(&json(r#"{"upgrade":{"x":1}}"#), &state),
        Ok(InfoSource::Inline(_))
    ));
}

fn own_write() -> EventPayload {
    let d = json(
        r#"{"channel":{"name":"tag_values","agent_id":1},
            "message":{"id":1,"channel":{"name":"tag_values"},"data":{"app":{"a":1}}}}"#,
    );
    EventPayload::MessageCreate(MessageCreateEvent::from_value(&d).unwrap())
}

#[test]
fn own_writes_are_not_handled() {
    let p = own_write();
    assert!(is_tag_values_self_loop(&p, "app"));
    assert!(!is_tag_values_self_loop(&p, "other"));
    assert_eq!(p.invoking_channel(), Some("tag_values"));
    let own = StageResult::Upgraded { own_write: true };
    assert!(matches!(
        advance(Stage::Upgrade, own, &p),
        Err(DispatchEnd::Skipped(SkipReason::TagValuesSelfLoop))
    ));
}

#[test]
fn the_pipeline_moves_forward() {
    let p = own_write();
    let mut stage = Stage::PreHookFilter;
    for (result, next) in [
        (StageResult::Filter(true), Stage::Upgrade),
        (StageResult::Upgraded { own_write: false }, Stage::Setup),
        (StageResult::Ran, Stage::PostSetupFilter),
        (StageResult::Filter(true), Stage::Handle),
        (StageResult::Handler(Err(DooverError::Other("x".into()))), Stage::Commit),
        (StageResult::Committed(Ok(())), Stage::Close),
        (StageResult::Ran, Stage::Finished),
    ] {
        stage = advance(stage, result, &p).unwrap();
        assert_eq!(stage, next);
    }
    assert!(matches!(
        advance(Stage::Handle, StageResult::Handler(Ok(Handled::NotImplemented)), &p),
        Err(DispatchEnd::Skipped(SkipReason::NoHandler))
    ));
    assert_eq!(SkipReason::PreHookFilter.as_str(), "pre_hook_filter");
}

#[test]
fn pings_tell_offline_agents() {
    let now = 10_000_000u64;
    let mut config = json(r#"{"offline_after": 60}"#);
    let opts = PingOptions { online_at_ms: Some(now - 61_000), ..PingOptions::default() };
    let plan = plan_ping(&opts, now, &mut config, "app", 5);
    assert_eq!(plan.ping.determination, ConnectionDetermination::Offline);
    assert!(plan.config.is_none());
    let opts = PingOptions {
        online_at_ms: Some(now),
        offline_at_ms: Some(now + 120_000),
        ..PingOptions::default()
    };
    let plan = plan_ping(&opts, now, &mut config, "app", 5);
    assert_eq!(plan.ping.determination, ConnectionDetermination::Online);
    assert_eq!(to_text(&plan.config.unwrap()), r#"{"offline_after":120}"#);
    assert_eq!(to_text(&config), r#"{"offline_after":120}"#);
}

// ---- the tags of an invocation

#[test]
fn processor_tags_commit_once() {
    let mut tags = ProcessorTags::new("app", 5, &json(r#"{"app":{"a":1}}"#), false);
    assert_eq!(to_text(&tags.get_tag("a").unwrap()), "1");
    tags.set_tag("a", json("2"));
    assert_eq!(to_text(&tags.get_tag("a").unwrap()), "2");
    let commit = tags.commit_tags_with(true);
    assert_eq!(to_text(&commit.aggregate.unwrap()), r#"{"app":{"a":2}}"#);
    assert_eq!(to_text(&commit.log.unwrap()), r#"{"app":{"a":2}}"#);
    let again = tags.commit_tags();
    assert!(again.aggregate.is_none() && again.log.is_none());
    assert_eq!((tags.app_key(), tags.agent_id()), ("app", 5));
}

#[test]
fn log_modes_select_what_is_logged() {
    for (mode, expected) in [
        (LogMode::Always, Some(r#"{"app":{"a":1,"b":2}}"#)),
        (LogMode::Never, None),
        (LogMode::OnlyChanged, Some(r#"{"app":{"b":2}}"#)),
        (LogMode::OnlySet, Some(r#"{"app":{"a":1,"b":2}}"#)),
    ] {
        let mut tags = ProcessorTags::new("app", 5, &json(r#"{"app":{"a":1,"b":1}}"#), true);
        tags.set_log_mode(mode);
        assert_eq!(tags.log_mode(), mode);
        tags.set_tag("a", json("1"));
        tags.set_tag("b", json("2"));
        let log = tags.commit_tags().log.map(|v| to_text(&v));
        assert_eq!(log.as_deref(), expected, "{mode:?}");
    }
    let mut tags = ProcessorTags::new("app", 5, &json("{}"), false);
    let external = SetProcessorTagOptions { app_key: Some("other".to_string()), log: false };
    tags.set_tag_with("x", json("1"), &external);
    assert_eq!(to_text(&tags.get_tag_scoped("other", "x").unwrap()), "1");
    assert_eq!(to_text(&tags.commit_tags().aggregate.unwrap()), r#"{"other":{"x":1}}"#);
}

// ---- the data API

fn client() -> DataClient {
    let mut c = DataClient::with_base_url("https://x/api//");
    c.set_agent_id(7);
    c
}

#[test]
fn requests_name_their_agent() {
    let c = client();
    assert_eq!(c.base_url(), "https://x/api");
    let q = c.fetch_channel_with("ch", true, None).unwrap();
    assert_eq!(q.method, Method::Get);
    assert!(q.path.contains("7") && q.path.ends_with("/ch"), "{}", q.path);
    assert!(DataClient::with_base_url("x").fetch_message("ch", 1, None).is_err());
    assert_eq!(c.resolve_agent_id(Some(8)).unwrap(), 8);
    assert_eq!(c.agent_id(), Some(7));
}

#[test]
fn writes_become_requests() {
    let c = client();
    let opts = AggregateOptions {
        replace_data: true,
        save_log: true,
        replace_keys: vec!["a.b".to_string()],
        ..AggregateOptions::default()
    };
    let q = c.update_channel_aggregate_http("ch", &json("{}"), &opts, None).unwrap();
    assert_eq!(q.method, Method::Put);
    assert!(q.query.contains(&("replace".to_string(), "a.b".to_string())));
    let q = c.create_message_http("ch", &json("{}"), Some(9), None).unwrap();
    assert_eq!(to_text(&q.body.unwrap()), r#"{"data":{},"ts":9}"#);
    let q = c
        .update_message_http("ch", 3, &json("{}"), &UpdateMessageOptions::default(), None)
        .unwrap();
    assert!(q.path.ends_with("/messages/3"), "{}", q.path);
    let list = ListMessagesQuery { limit: Some(2), ..ListMessagesQuery::default() };
    let q = c.list_messages("ch", &list, None).unwrap();
    assert_eq!(q.query, vec![("limit".to_string(), "2".to_string())]);
    let q = c.send_notification(&Notification::new("hi"), None).unwrap();
    assert_eq!(to_text(&q.body.unwrap()), r#"{"data":{"message":"hi"}}"#);
    assert_eq!(c.fetch_subscription_info("s").path, "/processors/subscriptions/s");
    assert_eq!(c.fetch_schedule_info("s").path, "/processors/schedules/s");
    assert!(c.fetch_channel_aggregate_raw("ch", None).is_ok());
}

#[test]
fn the_invoking_channel_is_guarded() {
    let mut c = client();
    c.set_app_key("app");
    c.set_organisation_id("org");
    c.set_token("tok");
    assert_eq!(c.authorization().as_deref(), Some("Bearer tok"));
    assert_eq!(c.app_key().as_deref(), Some("app"));
    assert_eq!(c.organisation_id().as_deref(), Some("org"));
    c.set_invoking_channel(Some("ch".to_string()));
    assert!(c.check_invoking_channel("ch", &json("{}")).is_err());
    assert!(c.check_invoking_channel("other", &json("{}")).is_ok());
    c.set_invoking_channel(Some("tag_values".to_string()));
    assert!(c.check_invoking_channel("tag_values", &json(r#"{"app":{}}"#)).is_ok());
    assert!(c.check_invoking_channel("tag_values", &json(r#"{"x":{}}"#)).is_err());
}

#[test]
fn large_bodies_are_compressed() {
    assert!(matches!(prepare_body(None, true), Ok(RequestBody::Empty)));
    assert!(matches!(
        prepare_body(Some(&json("{}")), true),
        Ok(RequestBody::Plain(t)) if t == "{}"
    ));
    let text = format!("\"{}\"", "x".repeat(100));
    match prepare_body(Some(&json(&text)), true).unwrap() {
        RequestBody::Gzip(bytes) => {
            let mut back = String::new();
            flate2::read::GzDecoder::new(&bytes[..]).read_to_string(&mut back).unwrap();
            assert_eq!(back, text);
        }
        other => panic!("{other:?}"),
    }
    assert!(matches!(prepare_body(Some(&json(&text)), false), Ok(RequestBody::Plain(_))));
    assert!(compressed_body(Err("no".to_string())).is_err());
}

#[test]
fn tries_are_repeated_with_longer_pauses() {
    let failed = |status| Attempt::Failed(status, "text".to_string());
    assert!(matches!(after_attempt(0, 3, 500, failed(503)), Step::Retry(500)));
    assert!(matches!(after_attempt(1, 3, 500, failed(503)), Step::Retry(1000)));
    assert!(matches!(
        after_attempt(2, 3, 500, failed(503)),
        Step::Finish(Err(DooverError::Http { code: 503, .. }))
    ));
    assert!(matches!(
        after_attempt(0, 3, 500, failed(404)),
        Step::Finish(Err(DooverError::NotFound(_)))
    ));
    match after_attempt(0, 3, 500, failed(304)) {
        Step::Finish(Err(DooverError::Http { code, message })) => {
            assert_eq!(code, 304);
            assert_eq!(message, "text");
        }
        other => panic!("{other:?}"),
    }
    assert!(matches!(
        after_attempt(0, 3, 500, Attempt::Unreachable("x".to_string())),
        Step::Retry(500)
    ));
    assert!(matches!(
        after_attempt(0, 3, 500, Attempt::Replied(Vec::new())),
        Step::Finish(Ok(None))
    ));
    assert!(matches!(
        after_attempt(0, 3, 500, Attempt::Broken("x".to_string())),
        Step::Finish(Err(DooverError::Request(_)))
    ));
    assert_eq!(never_tried("b", "/p").message(), "request to b/p failed");
}

#[test]
fn only_two_hundreds_are_successes() {
    for status in [200, 204, 299] {
        assert!(is_success(status), "{status}");
    }
    for status in [0, 100, 199, 300, 304, 399, 400, 404, 500, u16::MAX] {
        assert!(!is_success(status), "{status}");
    }
}

#[test]
fn replies_are_read() {
    assert!(read_reply(&Vec::new()).unwrap().is_none());
    assert_eq!(to_text(&read_reply(&b"{\"a\":1}".to_vec()).unwrap().unwrap()), r#"{"a":1}"#);
    assert!(matches!(read_reply(&b"{".to_vec()), Err(DooverError::Json(_))));
    assert!(matches!(map_status(404, "m".to_string()), DooverError::NotFound(_)));
    assert!(required(None, "missing").is_err());
    assert!(read_info(None, "missing").is_err());
    assert!(read_info(Some(json("{}")), "missing").is_err());
    assert_eq!(read_messages(Some(json("[1,2]"))).unwrap().len(), 2);
    assert!(read_messages(Some(json("{}"))).is_err());
    assert!(read_messages(None).unwrap().is_empty());
    assert_eq!(to_text(&read_aggregate(Ok(json(r#"{"data":1}"#))).unwrap().unwrap()), "1");
    assert!(read_aggregate(Err(DooverError::NotFound(String::new()))).unwrap().is_none());
    assert_eq!(created_id(&json(r#"{"id":"12"}"#)), 12);
    assert_eq!(created_id(&json("{}")), 0);
    let ch = Channel::from_value(json(r#"{"name":"ch","owner_id":3}"#)).unwrap();
    assert_eq!(ch.name, "ch");
    assert!(ChannelId::from_value(&json("{}")).is_err());
}

#[test]
fn ping_payloads_are_whole() {
    let args = PingConnectionArgs {
        online_at_ms: 5,
        connection_status: ConnectionStatus::PeriodicUnknown,
        determination: ConnectionDetermination::Online,
        ping_at_ms: None,
        user_agent: None,
        ip_address: None,
        agent_id: None,
    };
    assert_eq!(
        to_text(&ping_payload(&args, 9)),
        r#"{"status":{"status":"PeriodicUnknown","last_online":5,"last_ping":9,"user_agent":"doover-rs-processor","ip":null},"determination":"Online"}"#
    );
    let (message, aggregate) = client().ping_connection_at(&args, 9).unwrap();
    assert_eq!((message.method, aggregate.method), (Method::Post, Method::Patch));
    assert!(message.path.ends_with("/doover_connection/messages"), "{}", message.path);
    let (_, aggregate) = client().update_connection_config(&json("{}"), None).unwrap();
    assert_eq!(to_text(&aggregate.body.unwrap()), r#"{"config":{}}"#);
    assert!(client().fetch_channel("ch").is_ok());
    let mut a = BearerAuth::default();
    assert_eq!(a.authorization(), None);
    a.set_token("t");
    assert_eq!(a.token().as_deref(), Some("t"));
    assert_eq!(BearerAuth::new(Some("u".into())).authorization().as_deref(), Some("Bearer u"));
}

#[test]
fn payload_shape_matches_pydoover() {
    let n = Notification::new("tank low")
        .title("Level alert")
        .severity(NotificationSeverity::Warn)
        .topic("levels");
    assert_eq!(
        to_text(&n.to_json()),
        r#"{"message":"tank low","title":"Level alert","severity":6,"topic":"levels"}"#
    );
    assert_eq!(to_text(&Notification::new("hi").to_json()), r#"{"message":"hi"}"#);
    assert_eq!(to_text(&Notification::from("hi").to_json()), r#"{"message":"hi"}"#);
    assert_eq!(to_text(&Notification::from("ho".to_string()).to_json()), r#"{"message":"ho"}"#);
}
