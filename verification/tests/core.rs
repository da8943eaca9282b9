use doover::application::{
    load_deployment_config, run_app_with, AppInput, AppPhase, RunOptions, TagState,
};
use doover::channel_backend::{
    time_value, AggregateOptions, Attachment, ChannelAggregate, UpdateMessageOptions,
};
use doover::diff::{apply_diff, equal, generate_diff};
use doover::error::{invalid, DooverError};
use doover::events::{Event, EventSubscription};
use doover::json::Value;
use doover::json_text::{
    from_bytes, from_serde, from_text, map_from_text, nearest_double, to_pretty, to_serde, to_text,
};
use doover::models::value_as_id;
use doover::rpc::{
    abandoned, answer_request, call_outcome, error_payload, success_payload, timed_out,
    RequestAction, Routed, RpcContext, RpcError, RpcManager, RPC_CHANNEL,
};
use doover::testing::MockBackend;

fn json(text: &str) -> Value {
    from_text(text).unwrap()
}

fn event(name: &str, payload: &str) -> Event {
    Event {
        event_name: name.to_string(),
        channel: RPC_CHANNEL.to_string(),
        payload: json(payload),
    }
}

// ---- documents

#[test]
fn documents_read_back() {
    for text in [
        "null",
        "true",
        "-5",
        "18446744073709551615",
        "2.5",
        "\"a\\\"b\"",
        r#"[1,[2],{"a":{}}]"#,
        r#"{"b":1,"a":2}"#,
    ] {
        assert_eq!(to_text(&json(text)), text);
    }
    assert_eq!(to_text(&from_bytes(&b"[1, 2]".to_vec()).unwrap()), "[1,2]");
    assert!(from_text("{").is_err());
    assert!(from_bytes(&vec![0xff]).is_err());
    assert!(map_from_text("[1]").is_err());
    assert_eq!(to_text(&map_from_text(r#"{"a":1}"#).unwrap()), r#"{"a":1}"#);
    assert_eq!(to_pretty(&json(r#"{"a":[]}"#), b"  "), Ok(b"{\n  \"a\": []\n}".to_vec()));
}

#[test]
fn values_are_reached() {
    let v = json(r#"{"a":{"b":7},"l":[1,2],"s":"x","n":null}"#);
    assert_eq!(v.get2("a", "b").unwrap().as_i64(), Some(7));
    assert_eq!(v.get("l").unwrap().get_item(1).unwrap().as_u64(), Some(2));
    assert_eq!(v.get_string("s").as_deref(), Some("x"));
    assert!(v.get_or_null("missing").is_null());
    assert!(json("{}").is_blank() && !v.is_blank());
    assert_eq!(json("true").as_bool(), Some(true));
    assert_eq!(json("-1").as_u64(), None);
    assert_eq!(value_as_id(Some(&json("\"12\""))), Some(12));
    assert_eq!(value_as_id(Some(&json("12"))), Some(12));
    assert_eq!(value_as_id(Some(&json("\"x\""))), None);
}

#[test]
fn merges_work_key_by_key() {
    let base = json(r#"{"a":{"x":1,"y":2},"b":1}"#);
    let merged = apply_diff(&base, &json(r#"{"a":{"y":null,"z":3},"c":4}"#), false);
    assert_eq!(to_text(&merged), r#"{"a":{"x":1,"y":null,"z":3},"b":1,"c":4}"#);
    let cut = apply_diff(&base, &json(r#"{"a":{"y":null}}"#), true);
    assert_eq!(to_text(&cut), r#"{"a":{"x":1},"b":1}"#);
    assert_eq!(to_text(&apply_diff(&base, &json("5"), false)), "5");
}

#[test]
fn diffs_hold_what_changed() {
    let old = json(r#"{"a":{"x":1,"y":2},"b":1}"#);
    let new = json(r#"{"a":{"x":1,"y":3},"b":1}"#);
    let d = generate_diff(&old, &new);
    assert_eq!(to_text(&d), r#"{"a":{"y":3}}"#);
    let merged = apply_diff(&old, &d, false);
    assert!(equal(&merged, &new));
    assert!(generate_diff(&merged, &new).is_blank());
    assert!(equal(&json(r#"{"a":1,"b":2}"#), &json(r#"{"b":2,"a":1}"#)));
    assert!(!equal(&json("1"), &json("1.0")));
    assert!(equal(&json("0.0"), &json("-0.0")));
}

// ---- events and errors

#[test]
fn subscriptions_cover_their_parts() {
    let both = EventSubscription::message_create().union(EventSubscription::channel_sync());
    assert!(both.contains(EventSubscription::message_create()));
    assert!(!both.contains(EventSubscription::aggregate_update()));
    assert!(both.intersects(EventSubscription::all()));
    assert!(!both.intersects(EventSubscription::oneshot_message()));
    assert!(EventSubscription::all().contains(both));
}

#[test]
fn events_are_told_apart() {
    let e = event("AggregateUpdate", r#"{"aggregate":{"data":{"a":1}},"request_data":{"data":{"b":2}}}"#);
    assert!(e.is_aggregate_update());
    assert_eq!(e.subscription_flag(), EventSubscription::aggregate_update());
    assert_eq!(to_text(e.aggregate_data().unwrap()), r#"{"a":1}"#);
    assert_eq!(to_text(e.aggregate_diff().unwrap()), r#"{"b":2}"#);
    let m = event("MessageCreate", r#"{"id":"5","author_id":6,"data":{"x":1}}"#);
    assert_eq!((m.message_id(), m.author_id()), (Some(5), Some(6)));
    assert_eq!(to_text(m.message_data().unwrap()), r#"{"x":1}"#);
    assert_eq!(event("Gossip", "{}").subscription_flag(), EventSubscription::none());
}

#[test]
fn errors_have_names_and_texts() {
    for (e, kind, text) in [
        (DooverError::Transport("x".into()), "TransportError", "gRPC transport error: x"),
        (DooverError::Status("x".into()), "StatusError", "gRPC status: x"),
        (DooverError::NotFound("x".into()), "NotFoundError", "not found: x"),
        (DooverError::Http { code: 503, message: "x".into() }, "HTTPError", "agent error 503: x"),
        (DooverError::Request("x".into()), "RequestError", "HTTP request error: x"),
        (DooverError::Json("x".into()), "JSONError", "JSON error: x"),
        (invalid("x"), "InvalidPayload", "invalid payload: x"),
        (DooverError::Other("x".into()), "RuntimeError", "x"),
    ] {
        assert_eq!(e.kind_name(), kind);
        assert_eq!(e.message(), text);
    }
}

#[test]
fn aggregates_are_written() {
    let mut a = ChannelAggregate {
        data: json(r#"{"a":1}"#),
        attachments: vec![Attachment {
            filename: "f".to_string(),
            content_type: None,
            size: 3,
            url: "u".to_string(),
        }],
        last_updated: None,
    };
    let text = to_text(&a.to_json());
    assert!(text.starts_with(r#"{"data":{"a":1},"attachments":[{"filename":"f""#), "{text}");
    for (ms, written) in [
        (0, "0.0"),
        (1_784_504_229_751, "1784504229751.0"),
        (9_007_199_254_740_991, "9007199254740991.0"),
        (9_007_199_254_740_993, "9007199254740992.0"),
        (u64::MAX, "1.8446744073709552e+19"),
    ] {
        a.last_updated = Some(ms);
        let text = to_text(&a.to_json());
        assert!(text.ends_with(&format!(r#""last_updated":{written}}}"#)), "{text}");
    }
    assert_eq!(to_text(&time_value(7, None)), "7.0");
    assert_eq!(to_text(&time_value(u64::MAX, Some(json("1e3")))), "1000.0");
}

#[test]
fn documents_have_every_key_once() {
    assert_eq!(to_text(&json(r#"{"a":1,"b":{"c":1,"c":2},"a":3}"#)), r#"{"a":3,"b":{"c":2}}"#);
}

#[test]
fn doubles_are_written_as_they_are() {
    for x in [0.1 + 0.2, 9_007_199_254_740_991.0, 1.7976931348623157e308, 5e-324, -0.0, 2.5e-7] {
        let document = serde_json::Value::from(x);
        let text = document.to_string();
        let value = from_serde(document.clone());
        assert_eq!(to_text(&value), text);
        assert_eq!(to_serde(&value), document);
        assert_eq!(to_text(&nearest_double(&text).unwrap()), text);
    }
    assert!(nearest_double("no number").is_none());
    assert!(nearest_double("1e999").is_none());
}

// ---- remote calls

#[test]
fn call_request_shape_matches_pydoover() {
    let mut m = RpcManager::new(None, true);
    let (newly, v) = m.call("get_di", Some(json(r#"{"pin": 1}"#)), RPC_CHANNEL, None);
    assert!(newly);
    assert_eq!(
        to_text(&v),
        r#"{"type":"rpc","method":"get_di","request":{"pin":1},"status":{"code":"sent"},"response":{}}"#
    );
}

#[test]
fn error_payload_shape() {
    assert_eq!(
        to_text(&error_payload("INTERNAL_ERROR", "boom")),
        r#"{"status":{"code":"error","message":{"code":"INTERNAL_ERROR","message":"boom"}},"response":{}}"#
    );
}

#[test]
fn success_payload_shape() {
    assert_eq!(
        to_text(&success_payload(json(r#"{"ok": true}"#))),
        r#"{"status":{"code":"success","message":null},"response":{"ok":true}}"#
    );
}

#[test]
fn requests_may_name_an_app() {
    let mut caller = RpcManager::new(None, false);
    let (newly, v) = caller.call("m", None, RPC_CHANNEL, Some("app"));
    assert!(!newly);
    assert!(to_text(&v).ends_with(r#""response":{},"app_key":"app"}"#));
    assert_eq!(
        to_text(&RpcManager::fire_and_forget("m", None)),
        r#"{"type":"rpc","request":{},"method":"m","status":{"code":"sent"},"response":{}}"#
    );
    let payload = to_text(&doover::api::data::single("data", v));
    let request = event("MessageCreate", &payload);
    for (key, answered) in [("app", true), ("other", false)] {
        let mut callee = RpcManager::new(Some(key.to_string()), true);
        callee.register_handler(None, "m", 4);
        let action = callee.handle_request(&request);
        assert_eq!(matches!(action, RequestAction::Run { handler: 4, .. }), answered, "{key}");
    }
}

#[test]
fn calls_are_resolved_once() {
    let mut m = RpcManager::new(None, true);
    m.begin_call(5);
    assert!(m.is_pending(5));
    let waiting = event("MessageUpdate", r#"{"id":5,"data":{"status":{"code":"acknowledged"}}}"#);
    assert!(matches!(m.handle_event(&waiting), Routed::Response(None)));
    let done = event(
        "MessageUpdate",
        r#"{"id":5,"data":{"status":{"code":"success"},"response":{"ok":1}}}"#,
    );
    match m.handle_event(&done) {
        Routed::Response(Some((5, Ok(v)))) => assert_eq!(to_text(&v), r#"{"ok":1}"#),
        other => panic!("{other:?}"),
    }
    assert!(!m.is_pending(5));
    assert!(matches!(m.handle_event(&done), Routed::Response(None)));
    assert!(matches!(m.handle_event(&event("ChannelSync", "{}")), Routed::Nothing));
}

#[test]
fn errors_read_back() {
    let mut m = RpcManager::new(None, true);
    m.begin_call(6);
    let payload = to_text(&error_payload("BUSY", "later"));
    let e = event("MessageUpdate", &format!(r#"{{"id":6,"data":{payload}}}"#));
    match m.handle_event(&e) {
        Routed::Response(Some((6, Err(e)))) => {
            assert_eq!(e.text(), "BUSY: later");
            assert_eq!(call_outcome(Err(e)).unwrap_err().message(), "BUSY: later");
        }
        other => panic!("{other:?}"),
    }
    assert_eq!(timed_out("m", "30").message(), "TIMEOUT: RPC call 'm' timed out after 30s");
    assert_eq!(abandoned("m").message(), "RPC call 'm' was abandoned");
    assert!(!m.end_call(6));
}

#[test]
fn requests_reach_their_handler() {
    let mut m = RpcManager::new(Some("app".to_string()), true);
    assert!(!m.register_handler(None, "m", 1));
    assert!(m.register_handler(Some(RPC_CHANNEL), "m", 2));
    assert_eq!(m.get_handler(RPC_CHANNEL, "m"), Some(2));
    assert_eq!(m.get_handler("other", "m"), Some(1));
    assert_eq!(m.subscribed_channels(), vec![RPC_CHANNEL]);
    let request = event(
        "MessageCreate",
        r#"{"id":9,"data":{"type":"rpc","method":"m","request":{"a":1},"app_key":"app"}}"#,
    );
    match m.handle_event(&request) {
        Routed::Request(RequestAction::Run { handler, context, request }) => {
            assert_eq!(handler, 2);
            assert_eq!(to_text(&request), r#"{"a":1}"#);
            let (to, v) = answer_request(&context, Ok(json("{}"))).unwrap();
            assert_eq!(to, 9);
            assert!(to_text(&v).contains(r#""code":"success""#));
            let (_, v) = answer_request(&context, Err(RpcError::new("C", "m"))).unwrap();
            assert!(to_text(&v).contains(r#""code":"C""#));
            assert_eq!(context.acknowledge(3).unwrap().0, 9);
            assert!(to_text(&context.defer(3, 8).unwrap().1).contains(r#""until":8"#));
        }
        other => panic!("{other:?}"),
    }
    let other_app = event(
        "MessageCreate",
        r#"{"id":9,"data":{"type":"rpc","method":"m","request":{},"app_key":"x"}}"#,
    );
    assert!(matches!(m.handle_request(&other_app), RequestAction::Ignore));
}

#[test]
fn one_shots_are_not_answered() {
    let c = RpcContext { method: "m".into(), channel: "ch".into(), message_id: None };
    assert!(answer_request(&c, Ok(json("{}"))).is_none());
    assert!(c.acknowledge(1).is_err());
    assert!(c.defer(1, 2).is_err());
    let mut m = RpcManager::new(None, false);
    assert!(!m.subscribe("ch"));
    assert!(m.subscribed_channels().is_empty());
}

// ---- channels in memory

#[test]
fn reads_see_writes() {
    let mut b = MockBackend::new();
    b.seed_aggregate("ch", json(r#"{"a":{"x":1}}"#));
    b.update_channel_aggregate("ch", &json(r#"{"a":{"y":2}}"#), &AggregateOptions::default());
    assert_eq!(to_text(&b.fetch_channel_data("ch").unwrap()), r#"{"a":{"x":1,"y":2}}"#);
    let replace = AggregateOptions { replace_data: true, ..AggregateOptions::default() };
    b.update_channel_aggregate("ch", &json("{}"), &replace);
    assert_eq!(to_text(&b.fetch_channel_data("ch").unwrap()), "{}");
    assert!(b.fetch_channel_data("other").is_none());
    assert_eq!(b.aggregate_writes().len(), 2);
    assert_eq!(b.create_message("ch", &json("{}")), 1);
    b.messages.clear();
    assert_eq!(b.create_message("ch", &json("{}")), 2);
    assert_eq!(b.messages().len(), 1);
    b.update_message("ch", 1, &json("{}"), &UpdateMessageOptions::default());
    assert_eq!(b.message_updates[0].message_id, 1);
    assert!(!b.has_persistent_connection());
}

// ---- plain applications

#[test]
fn plain_tags_stream_while_watched() {
    let now = 1_750_000_000_000u64;
    let mut t = TagState::new("app", vec!["level".to_string()]);
    let doc = t.set_tags(&vec![("level".to_string(), json("5")), ("x".to_string(), json("1"))]);
    assert_eq!(to_text(&doc), r#"{"app":{"level":5,"x":1}}"#);
    assert!(t.flush_live_tags(now).is_none());
    t.on_ui_sub(json(&format!(
        r#"{{"live_tag_open":{{"u":{{"ts":{now},"tags":["app.level"]}}}}}}"#
    )));
    assert!(t.is_live_tag_open("level", now) && t.is_being_observed(now));
    assert_eq!(to_text(&t.flush_live_tags(now).unwrap()), r#"{"app":{"level":5}}"#);
}

#[test]
fn failed_loops_are_survived() {
    let mut p = AppPhase::Connecting;
    for (input, next) in [
        (AppInput::Done, AppPhase::Loading),
        (AppInput::Done, AppPhase::SettingUp),
        (AppInput::Done, AppPhase::Idle),
        (AppInput::Tick, AppPhase::Looping),
        (AppInput::Failed, AppPhase::Pausing),
        (AppInput::Done, AppPhase::Idle),
        (AppInput::Stop, AppPhase::Ended),
    ] {
        p = run_app_with(p, input);
        assert_eq!(p, next);
    }
    let o = RunOptions::from_env(&None, &Some("k".to_string()), &None);
    assert_eq!((o.dda_uri.as_str(), o.app_key.as_str()), ("http://127.0.0.1:50051", "k"));
    let full = json(r#"{"applications":{"k":{"a":1}}}"#);
    assert_eq!(to_text(&load_deployment_config(Some(&full), "k")), r#"{"a":1}"#);
    assert!(load_deployment_config(None, "k").is_null());
}
