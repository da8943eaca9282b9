use doover::channel_backend::{AggregateOptions, UpdateMessageOptions};
use doover::docker::application::{
    after_command, after_failed_connect, after_write_back, callback_failure, command_events,
    config_source, handle_runner_event, rpc_events, AppContext, Callback, CommandAnswer,
    CommandFollowUp, ConfigSource,
    ConnectStep, RunInput, RunPhase, RunState, RunnerAction, RunnerEvent, UiCommand,
    CONNECT_DEADLINE_MS,
};
use doover::docker::device_agent::{
    decode_aggregate, AgentOp, AggregateParts, AttachmentParts, DeviceAgentClient,
    ListMessagesOptions, MessageParts, ResponseHeader,
};
use doover::docker::grpc::{
    after_call, check_response_header, feed_step, is_serving, timeout_message, CallEnd, FeedInput,
    FeedPhase,
};
use doover::docker::healthcheck::HealthState;
use doover::docker::modbus::{
    bus_is_open, bus_to_wire, poll_result, read_value, read_values, two_words_to_32bit_float,
    BusSettings, ModbusClient, ModbusHeader, ModbusOp, RegisterRange, SerialBusSettings,
    TcpBusSettings, WireBus,
};
use doover::docker::options::{command, export_message, Command, Environment, RunOptions};
use doover::docker::payload::validate_payload;
use doover::docker::platform::{
    broadcast_values, first_level, first_value, read_di_events, read_io_table, reply,
    DiConfigUpdate, Edge, Gap, PlatformEvent, PlatformHeader, PlatformOp, PulseCounter,
    PulseCounterUpdate, PulseListener,
};
use doover::docker::platform_client::PlatformClient;
use doover::docker::subscriptions::{
    new_stream, StreamInput, StreamPhase, SubscriptionHub, FIRST_BACKOFF_MS, MAX_BACKOFF_MS,
};
use doover::error::DooverError;
use doover::events::{Event, EventSubscription};
use doover::json::Value;
use doover::json_text::{from_text, to_text};

fn json(text: &str) -> Value {
    from_text(text).unwrap()
}

fn event(name: &str, channel: &str, payload: &str) -> Event {
    Event { event_name: name.to_string(), channel: channel.to_string(), payload: json(payload) }
}

// ---- payloads

#[test]
fn client_validate_ok() {
    assert!(validate_payload(&json(r#"{"a_b-1": 1, "n": {"x": [1, "s", true, null]}}"#)).is_ok());
}

#[test]
fn client_validate_rejects_non_object_root() {
    assert!(validate_payload(&json("[1, 2, 3]")).is_err());
    assert!(validate_payload(&json("5")).is_err());
}

#[test]
fn client_validate_rejects_bad_keys() {
    assert!(validate_payload(&json(r#"{"bad key": 1}"#)).is_err());
    assert!(validate_payload(&json(r#"{"dots.bad": 1}"#)).is_err());
}

#[test]
fn device_agent_validate_ok() {
    let data = json(r#"{"a_b-1": 1, "n": {"x": [1, "s", true, null]}}"#);
    let client = DeviceAgentClient::new();
    assert!(client.update_channel_aggregate("ch", &data, &AggregateOptions::default()).is_ok());
}

#[test]
fn device_agent_validate_rejects_non_object_root() {
    let client = DeviceAgentClient::new();
    for text in ["[1, 2, 3]", "5"] {
        let r = client.update_channel_aggregate("ch", &json(text), &AggregateOptions::default());
        assert!(matches!(r, Err(DooverError::InvalidPayload(_))));
    }
}

#[test]
fn device_agent_validate_rejects_bad_keys() {
    let client = DeviceAgentClient::new();
    for text in [r#"{"bad key": 1}"#, r#"{"dots.bad": 1}"#, r#"{"a":[{"":1}]}"#] {
        assert!(client.send_one_shot_message("ch", &json(text)).is_err());
    }
}

// ---- sidecars

#[test]
fn header_maps_to_typed_errors() {
    assert!(check_response_header(true, None, None).is_ok());
    assert!(matches!(
        check_response_header(false, Some(404), Some("missing".into())),
        Err(DooverError::NotFound(m)) if m == "missing"
    ));
    assert!(matches!(
        check_response_header(false, Some(503), None),
        Err(DooverError::Http { code: 503, .. })
    ));
    assert!(matches!(
        check_response_header(false, None, None),
        Err(DooverError::Http { code: 500, .. })
    ));
}

#[test]
fn calls_are_retried_once() {
    assert!(after_call(true, CallEnd::Unavailable).retry);
    assert!(after_call(true, CallEnd::Unavailable).discard);
    assert!(!after_call(false, CallEnd::Unavailable).retry);
    assert!(!after_call(true, CallEnd::TimedOut).retry);
    assert!(after_call(true, CallEnd::TimedOut).discard);
    assert!(!after_call(true, CallEnd::Answered).discard);
    assert_eq!(timeout_message("svc", 7), "request to svc did not complete within 7s");
    assert!(is_serving(Some(1)) && !is_serving(Some(2)) && !is_serving(None));
}

#[test]
fn feeds_are_reopened() {
    let mut phase = FeedPhase::Opening;
    for (input, then) in [
        (FeedInput::Opened, FeedPhase::Reading),
        (FeedInput::Item, FeedPhase::Reading),
        (FeedInput::Ended, FeedPhase::Pausing),
        (FeedInput::Paused, FeedPhase::Opening),
        (FeedInput::OpenFailed, FeedPhase::Pausing),
    ] {
        phase = feed_step(phase, input);
        assert_eq!(phase, then);
    }
}

#[test]
fn two_words_combine_low_high() {
    assert_eq!(two_words_to_32bit_float(0x1234, 0x5678, false), 0x5678_1234);
    assert_eq!(two_words_to_32bit_float(0x1234, 0x5678, true), 0x1234_5678);
    assert_eq!(two_words_to_32bit_float(0, 0, false), 0);
    assert_eq!(two_words_to_32bit_float(1, 1, false), 65537);
    assert_eq!(two_words_to_32bit_float(0xFFFF, 0xFFFF, false), u32::MAX);
}

#[test]
fn bus_settings_defaults_match_pydoover() {
    let s = SerialBusSettings::default();
    assert_eq!(
        (s.port.as_str(), s.baud, s.method.as_str(), s.data_bits),
        ("/dev/ttyS0", 9600, "rtu", 8)
    );
    assert_eq!((s.parity.as_str(), s.stop_bits, s.timeout_ms), ("N", 1, 300));

    let t = TcpBusSettings::default();
    assert_eq!((t.ip.as_str(), t.port, t.timeout_ms), ("127.0.0.1", 5000, 2000));
}

#[test]
fn register_range_defaults_match_pydoover() {
    let r = RegisterRange::default();
    assert_eq!(
        (r.modbus_id, r.register_type, r.start_address, r.num_registers),
        (1, 4, 0, 1)
    );
    assert!(r.bus.is_none() && r.retries.is_none());
}

#[test]
fn bus_settings_map_to_proto_oneof() {
    let serial = BusSettings::Serial(SerialBusSettings::default());
    match bus_to_wire(&Some(serial)) {
        Some(WireBus::Serial { port, modbus_method, .. }) => {
            assert_eq!(port, "/dev/ttyS0");
            assert_eq!(modbus_method.as_deref(), Some("rtu"));
        }
        other => panic!("expected serial settings, got {other:?}"),
    }

    let tcp = BusSettings::Tcp(TcpBusSettings { ip: "10.0.0.5".into(), ..Default::default() });
    match bus_to_wire(&Some(tcp)) {
        Some(WireBus::Ethernet { ip, tcp_port, .. }) => {
            assert_eq!(ip, "10.0.0.5");
            assert_eq!(tcp_port, 5000);
        }
        other => panic!("expected ethernet settings, got {other:?}"),
    }

    assert!(bus_to_wire(&None).is_none());
}

#[test]
fn registers_are_asked_for_and_read() {
    let range = RegisterRange { start_address: 10, num_registers: 3, ..RegisterRange::default() };
    assert!(matches!(ModbusClient.read_registers(&range), ModbusOp::Read { address: 10, count: 3, .. }));
    assert!(matches!(ModbusClient.read_register(&range), ModbusOp::Read { address: 10, count: 1, .. }));
    match ModbusClient.write_registers(&range, vec![5, 6]) {
        ModbusOp::Write { values, .. } => assert_eq!(values, vec![5, 6]),
        other => panic!("{other:?}"),
    }
    let ok = || Some(ModbusHeader { success: true, response_code: None, response_message: None });
    let failed = || Some(ModbusHeader { success: false, response_code: Some(404), response_message: None });
    assert_eq!(read_values(ok(), vec![1, 2]).unwrap(), vec![1, 2]);
    assert_eq!(read_value(ok(), vec![7]).unwrap(), 7);
    assert!(read_value(ok(), vec![]).is_err());
    assert!(matches!(read_values(failed(), vec![]), Err(DooverError::NotFound(_))));
    assert!(bus_is_open(&ok(), Some(true)));
    assert!(!bus_is_open(&failed(), Some(true)) && !bus_is_open(&None, Some(true)));
    assert_eq!(poll_result(&ok(), vec![3]), Some(vec![3]));
    assert_eq!(poll_result(&failed(), vec![3]), None);
}

#[test]
fn edge_roundtrip() {
    for edge in [Edge::Rising, Edge::Falling, Edge::Both] {
        assert_eq!(edge.as_str().parse::<Edge>().unwrap(), edge);
    }
    assert!("sideways".parse::<Edge>().is_err());
    assert_eq!(Edge::default(), Edge::Rising);
}

#[test]
fn only_the_names_of_edges_are_read() {
    for text in ["", "Rising", "rising ", "risingfalling"] {
        let e = text.parse::<Edge>().unwrap_err();
        assert_eq!(e.message(), format!("invalid edge: {text:?}"));
    }
}

#[test]
fn edge_flags_match_pydoover_fetch_di_events() {
    assert_eq!(Edge::Rising.flags(), (true, false));
    assert_eq!(Edge::Falling.flags(), (false, true));
    assert_eq!(Edge::Both.flags(), (true, true));
}

#[test]
fn broadcast_single_value_to_all_pins() {
    assert_eq!(broadcast_values(&vec![1, 4, 2], &vec![true], "do").unwrap(), vec![true; 3]);
    assert_eq!(
        broadcast_values(&vec![1, 2], &vec![false, true], "do").unwrap(),
        vec![false, true]
    );
    assert!(broadcast_values(&vec![1, 2, 3], &vec![true, false], "do").is_err());
}

#[test]
fn platform_requests() {
    match PlatformClient.set_dos(&vec![1, 2], &vec![true]).unwrap() {
        PlatformOp::SetDo { pins, levels } => {
            assert_eq!((pins, levels), (vec![1, 2], vec![true, true]));
        }
        other => panic!("{other:?}"),
    }
    match PlatformClient.schedule_dos(&vec![1], &vec![false], 9).unwrap() {
        PlatformOp::ScheduleDo { in_secs, .. } => assert_eq!(in_secs, 9),
        other => panic!("{other:?}"),
    }
    match PlatformClient.set_aos(&vec![3], &vec![1.5f32.to_bits()]).unwrap() {
        PlatformOp::SetAo { value_bits, .. } => assert_eq!(f32::from_bits(value_bits[0]), 1.5),
        other => panic!("{other:?}"),
    }
    match PlatformClient.fetch_di_events(4, Edge::Both, true, 0) {
        PlatformOp::GetDiEvents { pin, rising, falling, include_system_events, events_from } => {
            assert_eq!((pin, rising, falling), (4, true, true));
            assert!(include_system_events);
            assert_eq!(events_from, Some(0));
        }
        other => panic!("{other:?}"),
    }
    let update = DiConfigUpdate { irq_edge: Some(Edge::Falling), ..DiConfigUpdate::default() };
    match PlatformClient.set_di_config(2, &update) {
        PlatformOp::SetDiConfig { irq_edge, debounce_ms, .. } => {
            assert_eq!(irq_edge.as_deref(), Some("falling"));
            assert_eq!(debounce_ms, None);
        }
        other => panic!("{other:?}"),
    }
    match PlatformClient.subscribe_di_pulses(5, Edge::Rising) {
        PlatformOp::StartPulseCounter { pin, edge } => {
            assert_eq!((pin, edge.as_str()), (5, "rising"));
        }
        other => panic!("{other:?}"),
    }
}

#[test]
fn platform_requests_one_by_one() {
    let c = PlatformClient;
    assert!(matches!(c.fetch_di(3), PlatformOp::GetDi { pins } if pins == vec![3]));
    assert!(matches!(c.fetch_ais(&vec![1, 2]), PlatformOp::GetAi { pins } if pins == vec![1, 2]));
    assert!(matches!(c.set_do(3, true), Ok(PlatformOp::SetDo { levels, .. }) if levels == vec![true]));
    assert!(matches!(
        c.schedule_ao(3, 7, 5),
        Ok(PlatformOp::ScheduleAo { value_bits, in_secs: 5, .. }) if value_bits == vec![7]
    ));
    assert!(matches!(c.reboot(), PlatformOp::Reboot));
    assert!(matches!(c.fetch_location(), PlatformOp::GetLocation));
    assert!(matches!(c.fetch_sleep_log(4), PlatformOp::GetSleepLog { since: Some(4) }));
    assert!(matches!(c.test_comms("hi"), PlatformOp::TestComms { message } if message == "hi"));
    let (counter, from) = c.get_new_pulse_counter(1, Edge::Rising, 60_000, true, 0);
    assert!(counter.is_receiving_pulses());
    assert_eq!(from, Some(0));
    let (counter, request) = c.get_new_event_counter(1, Edge::Both, 60_000, true, 0);
    assert!(!counter.is_receiving_pulses());
    assert!(matches!(
        request,
        Some(PlatformOp::GetDiEvents { pin: 1, include_system_events: true, events_from: Some(0), .. })
    ));
    let m = ModbusClient;
    assert!(matches!(m.list_buses(), ModbusOp::ListBuses));
    assert!(matches!(m.close_bus("b"), ModbusOp::CloseBus { bus_id } if bus_id == "b"));
    let serial = BusSettings::Serial(SerialBusSettings::default());
    assert!(matches!(
        m.open_bus("b", &serial),
        ModbusOp::OpenBus { bus: Some(WireBus::Serial { baud: 9600, .. }), .. }
    ));
    let range = RegisterRange::default();
    assert!(matches!(
        m.add_read_register_subscription(&range, 9),
        ModbusOp::Subscribe { poll_secs: 9, .. }
    ));
}

#[test]
fn platform_replies() {
    let ok = || Some(PlatformHeader { success: true, response_code: None, message: None });
    let failed = || Some(PlatformHeader {
        success: false,
        response_code: Some(500),
        message: Some("no".to_string()),
    });
    assert_eq!(reply(ok(), 5).unwrap(), 5);
    assert_eq!(reply(None, 5).unwrap(), 5);
    assert!(matches!(reply(failed(), 5), Err(DooverError::Http { code: 500, .. })));
    assert!(!read_di_events(ok(), None, vec![]).unwrap().0);
    assert!(read_di_events(ok(), Some(true), vec![]).unwrap().0);
    assert!(first_level(&vec![true, false]) && !first_level(&vec![]));
    assert_eq!(first_value(&vec![7]), 7);
    assert_eq!(to_text(&read_io_table(ok(), Some("{\"a\":1}")).unwrap().unwrap()), "{\"a\":1}");
    assert!(read_io_table(ok(), None).unwrap().is_none());
    assert!(matches!(read_io_table(ok(), Some("{")), Err(DooverError::Json(_))));
}

fn di_event(event: &str, time_ms: i64) -> PlatformEvent {
    PlatformEvent {
        event_id: 1,
        event: event.to_string(),
        pin: 0,
        value: "1".to_string(),
        time: time_ms,
        cm4_online: None,
    }
}

fn test_counter() -> PulseCounter {
    PulseCounter::new(0, Edge::Rising, 60_000, 0)
}

#[test]
fn receive_events_counts_and_dedups() {
    let mut counter = test_counter();
    let outcome = counter.receive_events(
        &vec![
            di_event("DI_R", 10_000),
            di_event("DI_F", 12_000),
            di_event("DI_R", 12_005),
            di_event("CM4_ON", 13_000),
            di_event("DI_R", 14_000),
        ],
        0,
    );

    assert_eq!(counter.get_counter(), 3);
    let seen = outcome.updates;
    assert_eq!(seen.len(), 3);
    assert_eq!(seen[0].gap, Gap::Millis(0));
    assert_eq!(seen[0].edge, Some(Edge::Rising));
    assert!(seen[0].value);
    assert_eq!(seen[1].gap, Gap::Millis(2_000));
    assert_eq!(seen[1].edge, Some(Edge::Falling));
    assert!(!seen[1].value);
    assert_eq!(seen[2].count, 3);
    assert_eq!(outcome.system_events, vec![3]);
}

#[test]
fn pulses_per_minute_over_window() {
    let per_minute = |c: &PulseCounter| {
        let (n, d) = c.get_pulses_per_minute();
        n as f64 / d as f64
    };
    let mut counter = test_counter();
    counter.add_existing_events(&vec![100_000, 110_000, 120_000, 130_000]);
    assert_eq!(counter.get_counter(), 4);
    assert_eq!(counter.get_pulses_in_window().len(), 4);
    assert_eq!(per_minute(&counter), 4.0);

    counter.set_rate_window(15_000);
    assert_eq!(counter.get_pulses_in_window(), vec![120_000, 130_000]);
    assert_eq!(per_minute(&counter), 8.0);
}

#[test]
fn counter_modes_are_exclusive() {
    let mut counter = test_counter();
    counter.add_existing_events(&vec![1_000]);
    assert_eq!(counter.start_listener_pulses(5_000), None);
    assert!(!counter.is_receiving_pulses());

    let mut live = test_counter();
    assert_eq!(live.start_listener_pulses(5_000), Some(0));
    assert!(live.update_events().is_none());
    assert!(live.receive_events(&vec![di_event("DI_R", 9_000)], 0).updates.is_empty());
    assert_eq!(live.get_counter(), 0);
}

#[test]
fn live_pulses_count_after_the_grace() {
    let mut counter = test_counter();
    counter.start_listener_pulses(1_000);
    let mut listener = PulseListener { di: 0, edge: Edge::Rising, counter: 0 };
    assert!(listener.receive(Some(true), Some(0)).is_none());
    assert!(listener.receive(Some(true), Some((-1.0f32).to_bits())).is_none());
    let update: PulseCounterUpdate = listener.receive(Some(true), Some(0.5f32.to_bits())).unwrap();
    assert_eq!(update.count, 1);
    assert!(counter.receive_pulse(update, 1_199).is_none());
    let told = counter.receive_pulse(update, 1_200).unwrap();
    assert_eq!(told.count, 1);
    assert_eq!(told.gap, Gap::SecondsBits(0.5f32.to_bits()));
    counter.set_counter(40);
    assert_eq!(counter.get_counter(), 40);
    assert_eq!(counter.get_rate_window(), 60_000);
}

#[test]
fn known_events_do_not_count_again() {
    let mut counter = test_counter();
    let first = counter.receive_events(&vec![di_event("DI_R", 10_000)], 0);
    assert_eq!(first.updates.len(), 1);
    let again = counter.receive_events(&vec![di_event("DI_R", 10_000)], 0);
    assert!(again.updates.is_empty());
    assert_eq!(counter.get_counter(), 1);
}

// ---- the device agent

fn header(success: bool, synced: bool, code: Option<i32>) -> Option<ResponseHeader> {
    Some(ResponseHeader {
        success,
        cloud_synced: synced,
        response_code: code,
        response_message: Some("text".to_string()),
    })
}

#[test]
fn agent_requests_carry_the_app() {
    let client = DeviceAgentClient::new().with_app_id("app");
    let call = client.fetch_channel_aggregate("ch");
    assert_eq!(call.app_id.as_deref(), Some("app"));
    assert!(matches!(call.op, AgentOp::GetAggregate { channel } if channel == "ch"));
    let opts = AggregateOptions { max_age_ms: 3_000, ..AggregateOptions::default() };
    let call = client.write_aggregate("ch", &json(r#"{"a":1}"#), &opts, true).unwrap();
    match call.op {
        AgentOp::UpdateAggregate { data_json, max_age_ms, return_aggregate, .. } => {
            assert_eq!(data_json, r#"{"a":1}"#);
            assert_eq!(max_age_ms, 3_000);
            assert!(return_aggregate);
        }
        other => panic!("{other:?}"),
    }
    let now = client.create_message("ch", &json("{}"), 7).unwrap();
    let call = client.create_message_at("ch", &json("{}"), 7).unwrap();
    assert_eq!(format!("{now:?}"), format!("{call:?}"));
    assert!(matches!(call.op, AgentOp::CreateMessage { timestamp_ms: 7, .. }));
    let update = UpdateMessageOptions::default();
    let call = client.update_message("ch", 12, &json("{}"), &update).unwrap();
    assert!(matches!(call.op, AgentOp::UpdateMessage { id_text, .. } if id_text == "12"));
    let list = ListMessagesOptions {
        before: Some(9),
        after: None,
        limit: Some(2),
        field_names: vec!["a".to_string()],
    };
    match client.list_messages("ch", &list).op {
        AgentOp::GetMessages { before, limit, field_names, .. } => {
            assert_eq!((before, limit), (Some(9), Some(2)));
            assert_eq!(field_names, vec!["a"]);
        }
        other => panic!("{other:?}"),
    }
    let listing = client.list_channels(true).op;
    assert!(matches!(listing, AgentOp::ListChannels { include_aggregate: true }));
}

#[test]
fn the_status_follows_the_headers() {
    let mut client = DeviceAgentClient::new();
    assert!(!client.status().is_available());
    assert!(client.check(&header(true, true, None)).is_ok());
    assert!(client.status().is_available() && client.status().is_online());
    assert!(matches!(
        client.check(&header(false, false, Some(404))),
        Err(DooverError::NotFound(_))
    ));
    assert!(!client.status().is_available() && !client.status().is_online());
    assert!(client.status().has_been_online());
}

#[test]
fn agent_replies_are_read() {
    let mut client = DeviceAgentClient::new();
    let parts = AggregateParts {
        data_json: r#"{"a":1}"#.to_string(),
        attachments: vec![AttachmentParts {
            filename: "f".to_string(),
            content_type: String::new(),
            size_bytes: 3,
            url: "u".to_string(),
        }],
        last_updated: Some(5),
    };
    let a = client.read_aggregate(&header(true, true, None), Some(parts)).unwrap().unwrap();
    assert_eq!(to_text(&a.data), r#"{"a":1}"#);
    assert_eq!(a.attachments[0].content_type, None);
    assert!(client.read_aggregate(&header(false, true, Some(404)), None).unwrap().is_none());
    assert!(client.read_aggregate(&header(false, true, Some(500)), None).is_err());
    let m = MessageParts {
        message_id: 4,
        author_id: 5,
        channel_name: None,
        data_json: String::new(),
    };
    let m = client.read_message(&header(true, true, None), Some(m), "ch", 4).unwrap();
    assert_eq!((m.message_id, m.author_id), (4, 5));
    let missing = client.read_message(&header(true, true, None), None, "ch", 4);
    assert!(matches!(missing, Err(DooverError::NotFound(_))));
    let e = client.read_event(&header(true, true, None), "ch", "MessageCreate", "").unwrap();
    assert_eq!(to_text(&e.payload), "{}");
    let refused = client.read_event(&header(false, true, None), "ch", "MessageCreate", "");
    assert_eq!(
        refused.unwrap_err().message(),
        "subscription to 'ch' rejected: text"
    );
    assert_eq!(client.read_message_id(&None, 9).unwrap(), 9);
    assert!(matches!(
        client.read_part::<u8>(&None, None, "turn credential"),
        Err(DooverError::NotFound(_))
    ));
    assert_eq!(to_text(&decode_aggregate("not json")), to_text(&decode_aggregate("")));
}

// ---- subscriptions

#[test]
fn streams_seed_connect_and_come_back() {
    let mut hub = SubscriptionHub::new();
    assert!(hub.subscribe("ch", EventSubscription::all(), 1));
    assert!(!hub.subscribe("ch", EventSubscription::message_create(), 2));
    let mut s = new_stream();
    let a = hub
        .run_channel_stream("ch", &mut s, StreamInput::Fetched(Some(json(r#"{"a":1}"#))))
        .unwrap();
    assert!(a.event.is_channel_sync());
    assert_eq!(a.callbacks, vec![1]);
    assert_eq!(s.phase, StreamPhase::Connecting);
    assert!(hub.is_channel_synced("ch"));
    assert_eq!(to_text(&hub.cached_aggregate("ch").unwrap()), r#"{"a":1}"#);
    assert!(hub.run_channel_stream("ch", &mut s, StreamInput::Connected).is_none());
    let update = event("AggregateUpdate", "ch", r#"{"aggregate":{"data":{"a":2}}}"#);
    assert!(hub.run_channel_stream("ch", &mut s, StreamInput::Item(update)).is_some());
    assert_eq!(to_text(&hub.cached_aggregate("ch").unwrap()), r#"{"a":2}"#);
    hub.run_channel_stream("ch", &mut s, StreamInput::Ended);
    assert_eq!(s.phase, StreamPhase::Pausing);
    hub.run_channel_stream("ch", &mut s, StreamInput::Paused);
    assert_eq!(s.phase, StreamPhase::Connecting);
}

#[test]
fn missing_channels_are_created() {
    let mut hub = SubscriptionHub::new();
    hub.subscribe("ch", EventSubscription::all(), 1);
    let mut s = new_stream();
    assert!(hub.run_channel_stream("ch", &mut s, StreamInput::Fetched(None)).is_none());
    assert_eq!(s.phase, StreamPhase::Creating);
    assert!(hub.run_channel_stream("ch", &mut s, StreamInput::Created).is_some());
    assert_eq!(to_text(&hub.cached_aggregate("ch").unwrap()), "{}");
}

#[test]
fn pauses_grow_to_a_limit() {
    let mut hub = SubscriptionHub::new();
    let mut s = new_stream();
    hub.run_channel_stream("ch", &mut s, StreamInput::FetchFailed);
    assert_eq!(s.backoff_ms, FIRST_BACKOFF_MS);
    for _ in 0..8 {
        hub.run_channel_stream("ch", &mut s, StreamInput::ConnectFailed);
        hub.run_channel_stream("ch", &mut s, StreamInput::Paused);
    }
    assert_eq!(s.backoff_ms, MAX_BACKOFF_MS);
    hub.run_channel_stream("ch", &mut s, StreamInput::Connected);
    assert_eq!(s.backoff_ms, FIRST_BACKOFF_MS);
}

#[test]
fn only_those_who_asked_are_told() {
    let mut hub = SubscriptionHub::new();
    hub.subscribe("ch", EventSubscription::message_create(), 1);
    hub.subscribe("ch", EventSubscription::all(), 2);
    hub.subscribe("other", EventSubscription::all(), 3);
    assert_eq!(hub.dispatch("ch", &event("MessageCreate", "ch", "{}")), vec![1, 2]);
    assert_eq!(hub.dispatch("ch", &event("MessageUpdate", "ch", "{}")), vec![2]);
    assert!(hub.dispatch("ch", &event("Gossip", "ch", "{}")).is_empty());
    let both = vec!["ch".to_string(), "other".to_string()];
    assert!(!hub.all_synced(&both));
    assert_eq!(hub.wait_for_channels_sync(&both, 0, 10), None);
    assert_eq!(hub.wait_for_channels_sync(&both, 10, 10), Some(false));
    assert_eq!(hub.wait_for_channels_sync(&vec![], 0, 10), Some(true));
    assert_eq!(hub.close().len(), 2);
}

// ---- options

fn no_env() -> Environment {
    Environment {
        app_key: None,
        dda_uri: None,
        plt_uri: None,
        modbus_uri: None,
        remote_dev: None,
        config_fp: None,
        healthcheck_port: None,
        debug: None,
    }
}

fn strings(list: &[&str]) -> Vec<String> {
    list.iter().map(|s| s.to_string()).collect()
}

#[test]
fn flags_beat_variables_beat_defaults() {
    let o = RunOptions::from_env(&no_env(), &vec![]);
    assert_eq!(o.dda_uri, "127.0.0.1:50051");
    assert_eq!(o.healthcheck_port, 49200);
    assert!(!o.debug && o.app_key.is_empty() && o.config_fp.is_none());
    let env = Environment {
        app_key: Some("from_env".to_string()),
        healthcheck_port: Some("8080".to_string()),
        debug: Some("1".to_string()),
        ..no_env()
    };
    let o = RunOptions::from_env(&env, &strings(&["--app-key", "from_flag"]));
    assert_eq!(o.app_key, "from_flag");
    assert_eq!(o.healthcheck_port, 8080);
    assert!(o.debug);
    let o = RunOptions::from_env(&no_env(), &strings(&["--remote-dev", "10.0.0.9", "--debug"]));
    assert_eq!(o.plt_uri, "10.0.0.9:50053");
    assert!(o.debug);
}

#[test]
fn the_first_argument_may_export() {
    match command(&strings(&["app", "export", "out.json", "--app-name", "n"]), &no_env(), None) {
        Command::Export { path, app_name } => {
            assert_eq!((path.as_str(), app_name.as_str()), ("out.json", "n"));
        }
        other => panic!("{other:?}"),
    }
    match command(&strings(&["app", "export"]), &no_env(), Some("stem")) {
        Command::Export { path, app_name } => {
            assert_eq!((path.as_str(), app_name.as_str()), ("./doover_config.json", "stem"));
        }
        other => panic!("{other:?}"),
    }
    assert!(matches!(command(&strings(&["app"]), &no_env(), None), Command::Run(_)));
    assert_eq!(
        export_message("n", "out.json", true),
        "wrote config_schema + ui_schema for 'n' to out.json"
    );
}

// ---- a run

#[test]
fn health_follows_the_loop() {
    let mut s = RunState::new();
    for _ in 0..7 {
        s = s.run_with(RunInput::Done);
        assert!(!s.healthy);
    }
    assert_eq!(s.phase, RunPhase::Idle);
    s = s.run_with(RunInput::Tick);
    for _ in 0..3 {
        s = s.run_with(RunInput::Done);
    }
    assert_eq!(s.phase, RunPhase::Idle);
    assert!(s.healthy);
    s = s.run_with(RunInput::Tick).run_with(RunInput::Failed(DooverError::Other("x".into())));
    assert_eq!(s.phase, RunPhase::Failing);
    assert!(!s.healthy);
    s = s.run_with(RunInput::Done);
    assert_eq!(s.phase, RunPhase::Ended);
    assert!(matches!(s.failure, Some(DooverError::Other(_))));
}

#[test]
fn a_stop_ends_an_idle_run() {
    let mut s = RunState::new();
    for _ in 0..7 {
        s = s.run_with(RunInput::Done);
    }
    s = s.run_with(RunInput::Event).run_with(RunInput::Done);
    s = s.run_with(RunInput::Stop).run_with(RunInput::Done);
    assert_eq!(s.phase, RunPhase::Ended);
    assert!(s.failure.is_none());
    let mut h = HealthState::default();
    assert!(!h.is_healthy() && h.response().starts_with("HTTP/1.1 503"));
    h.set_healthy(true);
    assert!(h.response().starts_with("HTTP/1.1 200 OK"));
}

#[test]
fn connecting_is_tried_for_a_while() {
    for (tries, pause) in [(0, 200), (1, 400), (4, 3_200), (5, 5_000), (90, 5_000)] {
        assert!(matches!(after_failed_connect(0, tries), ConnectStep::Wait(ms) if ms == pause));
    }
    assert!(matches!(after_failed_connect(CONNECT_DEADLINE_MS, 1), ConnectStep::GiveUp(_)));
}

#[test]
fn configurations_are_taken_over() {
    let mut ctx = AppContext::new("app");
    let full = r#"{"aggregate":{"data":{"applications":{"app":{"AGENT_ID":7,"APP_DISPLAY_NAME":"App","x":1}}}}}"#;
    let a = handle_runner_event(
        &mut ctx,
        RunnerEvent::ConfigUpdate(event("AggregateUpdate", "deployment_config", full)),
    );
    assert!(matches!(a, RunnerAction::Reload));
    assert_eq!(ctx.app_display_name(), "App");
    assert_eq!(to_text(&ctx.agent_id().unwrap()), "7");
    assert_eq!(ctx.config().get_i64("x"), Some(1));
    let a = handle_runner_event(
        &mut ctx,
        RunnerEvent::ConfigUpdate(event("AggregateUpdate", "deployment_config", "{}")),
    );
    assert!(matches!(a, RunnerAction::Nothing));
    assert_eq!(ctx.app_key(), "app");
    let tags = vec![("a".to_string(), json("1")), ("a".to_string(), json("2"))];
    assert_eq!(to_text(&ctx.set_tags(&tags)), r#"{"app":{"a":2}}"#);
}

#[test]
fn events_reach_their_callback() {
    let mut ctx = AppContext::new("app");
    for (name, expected) in [
        ("MessageCreate", Callback::MessageCreate),
        ("MessageUpdate", Callback::MessageUpdate),
        ("AggregateUpdate", Callback::AggregateUpdate),
        ("OneShotMessage", Callback::OneshotMessage),
        ("ChannelSync", Callback::ChannelSync),
    ] {
        match handle_runner_event(&mut ctx, RunnerEvent::App(event(name, "ch", "{}"))) {
            RunnerAction::Call(cb, e) => {
                assert_eq!(cb, expected);
                assert_eq!(e.event_name, name);
            }
            other => panic!("{name}: {other:?}"),
        }
    }
    let e = DooverError::Other("boom".to_string());
    assert_eq!(
        callback_failure("MessageCreate", "ch", &e),
        "error in MessageCreate handler for channel 'ch': boom"
    );
    assert!(rpc_events().contains(EventSubscription::message_create()));
    assert!(!command_events().contains(EventSubscription::message_update()));
    assert_eq!(
        rpc_events(),
        EventSubscription::message_create()
            .union(EventSubscription::message_update())
            .union(EventSubscription::oneshot_message())
    );
    assert_eq!(
        command_events(),
        EventSubscription::message_create()
            .union(EventSubscription::oneshot_message())
            .union(EventSubscription::aggregate_update())
            .union(EventSubscription::channel_sync())
    );
}

#[test]
fn commands_are_written_back_if_accepted() {
    let cmd = UiCommand { name: "pump".to_string(), value: json("true") };
    match after_command(&cmd, &Ok(())) {
        CommandFollowUp::WriteBack(write) => {
            assert_eq!((write.name.as_str(), to_text(&write.value).as_str()), ("pump", "true"));
            assert!(write.log);
        }
        other => panic!("{other:?}"),
    }
    match after_command(&cmd, &Err(DooverError::Other("no".to_string()))) {
        CommandFollowUp::Answer(CommandAnswer::Error { name, code, message }) => {
            assert_eq!(name, "pump");
            assert_eq!((code.as_str(), message.as_str()), ("INTERNAL_ERROR", "no"));
        }
        other => panic!("{other:?}"),
    }
}

#[test]
fn accepted_commands_succeed_whatever_the_write_does() {
    let cmd = UiCommand { name: "pump".to_string(), value: json("true") };
    for written in [Ok(()), Err(DooverError::Other("lost".to_string()))] {
        match after_write_back(&cmd, &written) {
            CommandAnswer::Success { name } => assert_eq!(name, "pump"),
            other => panic!("{other:?}"),
        }
    }
}

#[test]
fn configuration_files_go_first() {
    let mut o = RunOptions::from_env(&no_env(), &strings(&["--app-key", "k"]));
    assert!(matches!(config_source(&o), ConfigSource::Channel));
    o.config_fp = Some("c.json".to_string());
    assert!(matches!(config_source(&o), ConfigSource::File(f) if f == "c.json"));
    let o = RunOptions::from_env(&no_env(), &vec![]);
    assert!(matches!(config_source(&o), ConfigSource::Nothing));
}

#[test]
fn every_platform_request_has_its_operation() {
    let c = PlatformClient;
    let pins = vec![1, 2];
    assert!(matches!(c.fetch_dis(&pins), PlatformOp::GetDi { pins } if pins == vec![1, 2]));
    assert!(matches!(c.fetch_dos(&pins), PlatformOp::GetDo { pins } if pins == vec![1, 2]));
    assert!(matches!(c.fetch_aos(&pins), PlatformOp::GetAo { pins } if pins == vec![1, 2]));
    assert!(matches!(c.fetch_ai(4), PlatformOp::GetAi { pins } if pins == vec![4]));
    assert!(matches!(c.fetch_do(4), PlatformOp::GetDo { pins } if pins == vec![4]));
    assert!(matches!(c.fetch_ao(4), PlatformOp::GetAo { pins } if pins == vec![4]));
    assert!(matches!(
        c.schedule_do(4, true, 9),
        Ok(PlatformOp::ScheduleDo { pins, levels, in_secs: 9 }) if pins == vec![4] && levels == vec![true]
    ));
    assert!(matches!(
        c.set_ao(4, 11),
        Ok(PlatformOp::SetAo { pins, value_bits }) if pins == vec![4] && value_bits == vec![11]
    ));
    assert!(matches!(
        c.schedule_aos(&pins, &vec![11], 3),
        Ok(PlatformOp::ScheduleAo { value_bits, in_secs: 3, .. }) if value_bits == vec![11, 11]
    ));
    assert!(matches!(c.fetch_system_voltage(), PlatformOp::GetInputVoltage));
    assert!(matches!(c.fetch_system_power(), PlatformOp::GetSystemPower));
    assert!(matches!(c.fetch_system_temperature(), PlatformOp::GetTemperature));
    assert!(matches!(c.fetch_io_table(), PlatformOp::GetIoTable));
    assert!(matches!(c.sync_rtc(), PlatformOp::SyncRtcTime));
    assert!(matches!(c.shutdown(), PlatformOp::Shutdown));
    assert!(matches!(c.fetch_immunity_seconds(), PlatformOp::GetShutdownImmunity));
    assert!(matches!(
        c.set_immunity_seconds(6),
        PlatformOp::SetShutdownImmunity { immunity_secs: 6 }
    ));
    assert!(matches!(c.fetch_wake_on_voltage(), PlatformOp::GetWakeOnVoltage));
    assert!(matches!(
        c.set_wake_on_voltage(None),
        PlatformOp::SetWakeOnVoltage { voltage_bits: None }
    ));
    assert!(matches!(c.fetch_wake_reason(), PlatformOp::GetWakeReason));
    assert!(matches!(c.schedule_startup(6), PlatformOp::ScheduleStartup { time_secs: 6 }));
    assert!(matches!(c.schedule_shutdown(6), PlatformOp::ScheduleShutdown { time_secs: 6 }));
    assert!(matches!(c.fetch_sleep_log_interval(), PlatformOp::GetSleepLogInterval));
    assert!(matches!(
        c.set_sleep_log_interval(6),
        PlatformOp::SetSleepLogInterval { interval_secs: 6 }
    ));
    assert!(matches!(c.fetch_events(6), PlatformOp::GetEvents { events_from: Some(6) }));
    assert!(matches!(c.fetch_di_config(6), PlatformOp::GetDiConfig { pin: 6 }));
    assert!(matches!(
        ModbusClient.fetch_bus_status("b"),
        ModbusOp::BusStatus { bus_id } if bus_id == "b"
    ));
}

#[test]
fn other_agent_replies_are_read() {
    let mut client = DeviceAgentClient::new().with_app_id("app");
    let call = client.fetch_turn_token("cam");
    assert!(matches!(call.op, AgentOp::GetTurnCredential { camera_name } if camera_name == "cam"));
    let call = client.subscribe_events("ch");
    assert!(matches!(call.op, AgentOp::Subscribe { channel } if channel == "ch"));

    let good = header(true, true, None);
    let missing = header(false, true, Some(404));
    let broken = header(false, true, Some(500));
    let data = client.read_channel_data(&good, Some(r#"{"a":1}"#)).unwrap();
    assert_eq!(to_text(&data.unwrap()), r#"{"a":1}"#);
    assert!(client.read_channel_data(&missing, None).unwrap().is_none());
    assert!(matches!(
        client.read_channel_data(&broken, None),
        Err(DooverError::Http { code: 500, .. })
    ));

    let parts = AggregateParts {
        data_json: r#"{"a":1}"#.to_string(),
        attachments: vec![],
        last_updated: None,
    };
    let written = client.read_written_aggregate(&good, Some(parts)).unwrap().unwrap();
    assert_eq!(to_text(&written.data), r#"{"a":1}"#);
    assert!(client.read_written_aggregate(&good, None).unwrap().is_none());
    assert!(client.read_written_aggregate(&missing, None).is_err());

    let parts = MessageParts {
        message_id: 5,
        author_id: 6,
        channel_name: Some("ch".to_string()),
        data_json: "{}".to_string(),
    };
    assert_eq!(client.read_updated_message(&good, Some(parts)).unwrap().message_id, 5);
    assert!(client.read_updated_message(&good, None).is_err());
    assert!(client.read_updated_message(&broken, None).is_err());
}

#[test]
fn a_configuration_can_be_put_in() {
    let mut ctx = AppContext::new("app");
    ctx.set_config(doover::config::Config::from_value(json(r#"{"level":3}"#)));
    assert_eq!(ctx.config().get_i64("level"), Some(3));
    assert_eq!(ctx.app_key(), "app");
}
