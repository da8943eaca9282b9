use chrono::{Local, NaiveDate};
use doover::cli::parse::{
    instant_millis, parse_bool_list, parse_edge, parse_int_list, parse_iso8601_millis, parse_json,
    parse_snowflake_bound, parse_timestamp_ms, read_time, snowflake_bound, TimeReading,
};
use doover::cli::shapes::{
    attachment_json, bus_settings, bus_status_json, channel_event_json, channel_not_found, channels_json,
    di_config_json, di_events_json, event_json, location_json, message_json, messages_json,
    pin_values, register_values, resolve, sleep_log_json, turn_json, BusStatus, DiConfig,
    EthernetStatus, ListedChannel, Location, SerialStatus, SleepLogEntry,
};
use doover::docker::device_agent::{Message, TurnCredential};
use doover::docker::modbus::{BusSettings, SerialBusSettings};
use doover::docker::options::normalize_uri;
use doover::docker::platform::{Edge, PlatformEvent};
use doover::events::Event;
use doover::json::Value;
use doover::json_text::{from_text, to_text};
use doover::utils::{generate_snowflake_id_at, unix_millis_from_snowflake, DOOVER_EPOCH};

fn json(text: &str) -> Value {
    from_text(text).unwrap()
}

fn number(text: &str) -> doover::json::Number {
    match json(text) {
        Value::Number(n) => n,
        other => panic!("{other:?} is no number"),
    }
}

#[test]
fn int_lists() {
    assert_eq!(parse_int_list("3").unwrap().0, vec![3]);
    assert_eq!(parse_int_list("[1, 2,3]").unwrap().0, vec![1, 2, 3]);
    assert_eq!(parse_int_list("1,2").unwrap().0, vec![1, 2]);
    assert!(parse_int_list("x").is_err());
    assert!(parse_int_list("[]").is_err());
}

#[test]
fn int_list_messages() {
    assert_eq!(parse_int_list("[]").unwrap_err(), "\"[]\" is not an integer or a list of integers");
    assert_eq!(parse_int_list("-7, +8").unwrap().0, vec![-7, 8]);
    assert!(parse_int_list("2147483648").is_err());
    assert_eq!(parse_int_list("-2147483648").unwrap().0, vec![i32::MIN]);
}

#[test]
fn bool_lists_accept_python_and_rust_spellings() {
    assert_eq!(parse_bool_list("True").unwrap().0, vec![true]);
    assert_eq!(
        parse_bool_list("[true, False, 1, 0]").unwrap().0,
        vec![true, false, true, false]
    );
    assert!(parse_bool_list("yes").is_err());
}

#[test]
fn json_payloads() {
    assert_eq!(to_text(&parse_json(r#"{"a": 1}"#).unwrap()), r#"{"a":1}"#);
    assert!(parse_json("not json").is_err());
}

#[test]
fn invalid_json_payload_is_rejected_at_parse_time() {
    assert!(parse_json("not json").is_err());
    assert!(parse_json("not json").unwrap_err().starts_with("not valid inline JSON: "));
}

#[test]
fn timestamps_accept_millis_and_iso8601() {
    assert_eq!(parse_timestamp_ms("1750000000000").unwrap(), 1_750_000_000_000);
    assert_eq!(parse_timestamp_ms("2025-06-15T12:00:00Z").unwrap(), 1_749_988_800_000);
    assert_eq!(parse_timestamp_ms("2025-06-15T12:00:00+00:00").unwrap(), 1_749_988_800_000);
    assert_eq!(parse_timestamp_ms("2025-06-15T22:00:00+10:00").unwrap(), 1_749_988_800_000);
    assert_eq!(parse_timestamp_ms("2025-06-15T12:00:00.500Z").unwrap(), 1_749_988_800_500);
    assert!(parse_timestamp_ms("not a date").is_err());
    for n in [0, 7, 1_750_000_000_000, u64::MAX] {
        assert_eq!(parse_timestamp_ms(&n.to_string()).unwrap(), n);
        assert_eq!(parse_timestamp_ms(&format!(" \t{n}\u{3000}\n")).unwrap(), n);
        assert_eq!(parse_snowflake_bound(&format!(" {n} ")).unwrap(), n);
    }
    assert_eq!(
        parse_timestamp_ms(" not a date ").unwrap_err(),
        parse_timestamp_ms("not a date").unwrap_err()
    );
    assert!(parse_timestamp_ms("1969-01-01T00:00:00Z").is_err());
}

#[test]
fn naive_iso8601_is_read_in_the_local_zone() {
    let expected = NaiveDate::from_ymd_opt(2025, 6, 15)
        .unwrap()
        .and_hms_opt(12, 0, 0)
        .unwrap()
        .and_local_timezone(Local)
        .unwrap()
        .timestamp_millis() as u64;
    assert_eq!(parse_timestamp_ms("2025-06-15T12:00:00").unwrap(), expected);
    assert_eq!(parse_timestamp_ms("2025-06-15 12:00:00").unwrap(), expected);
}

#[test]
fn times_are_read_in_three_forms() {
    assert_eq!(read_time("2025-06-15T12:00:00Z"), TimeReading::Instant(1_749_988_800_000));
    assert_eq!(read_time("2025-06-15T12:00:00"), TimeReading::Civil(1_749_988_800_000));
    assert_eq!(read_time("2025-06-15 12:00:00.250"), TimeReading::Civil(1_749_988_800_250));
    assert_eq!(read_time("2025-06-15"), TimeReading::Civil(1_749_945_600_000));
    assert_eq!(read_time("15 June"), TimeReading::Nothing);
}

#[test]
fn a_civil_time_is_what_the_zone_makes_of_it() {
    let civil = TimeReading::Civil(1_749_988_800_000);
    assert_eq!(instant_millis("t", civil, Some(1_749_952_800_000)), Ok(1_749_952_800_000));
    assert!(instant_millis("t", civil, None).is_err());
    assert!(instant_millis("t", civil, Some(-1)).is_err());
    assert_eq!(instant_millis("t", TimeReading::Instant(5), None), Ok(5));
    assert!(instant_millis("t", TimeReading::Nothing, None).is_err());
    assert_eq!(parse_iso8601_millis("1970-01-01T00:00:05Z"), Ok(5_000));
}

#[test]
fn snowflake_bounds_pass_ints_through_and_convert_datetimes() {
    assert_eq!(parse_snowflake_bound("123456789").unwrap(), 123_456_789);

    let id = parse_snowflake_bound("2025-06-15T12:00:00Z").unwrap();
    assert_eq!(id, (1_749_988_800_000 - DOOVER_EPOCH) << 22);
    assert_eq!(unix_millis_from_snowflake(id), 1_749_988_800_000);

    assert!(parse_snowflake_bound("2024-06-15T12:00:00Z").is_err());
    assert!(parse_snowflake_bound("gibberish").is_err());
}

#[test]
fn bounds_before_the_epoch_say_so() {
    assert_eq!(
        snowflake_bound("then", Ok(DOOVER_EPOCH - 1)),
        Err("\"then\" is before the doover epoch (2025-01-01)".to_string())
    );
    assert_eq!(snowflake_bound("now", Ok(DOOVER_EPOCH)), Ok(0));
    assert_eq!(snowflake_bound("x", Err("bad".to_string())), Err("bad".to_string()));
}

#[test]
fn ids_sort_by_their_time() {
    let early = generate_snowflake_id_at(DOOVER_EPOCH + 10);
    let late = generate_snowflake_id_at(DOOVER_EPOCH + 11);
    assert!(early < late);
    assert_eq!(early, 10 << 22);
    assert_eq!(unix_millis_from_snowflake(late), DOOVER_EPOCH + 11);
}

#[test]
fn section_uri_beats_global_then_default() {
    assert_eq!(resolve(Some("a:1".into()), Some("b:2".into()), "c:3"), "a:1");
    assert_eq!(resolve(None, Some("b:2".into()), "c:3"), "b:2");
    assert_eq!(resolve(None, None, "c:3"), "c:3");
    assert_eq!(resolve(None, Some(String::new()), "c:3"), "c:3");
}

#[test]
fn normalize_uri_adds_scheme() {
    assert_eq!(normalize_uri("localhost:50051"), "http://localhost:50051");
    assert_eq!(normalize_uri("http://x:1"), "http://x:1");
}

#[test]
fn normalizing_a_uri_twice_changes_nothing() {
    let once = normalize_uri("10.0.0.1:50053");
    assert_eq!(normalize_uri(&once), once);
    assert_eq!(normalize_uri("https://x"), "https://x");
}

#[test]
fn edges_are_named() {
    assert_eq!(parse_edge("falling").unwrap(), Edge::Falling);
    assert_eq!(parse_edge("sideways").unwrap_err(), "invalid edge: \"sideways\"");
}

#[test]
fn one_pin_gives_a_scalar() {
    assert_eq!(to_text(&pin_values(1, vec![json("true")])), "true");
    assert_eq!(to_text(&pin_values(2, vec![json("true"), json("false")])), "[true,false]");
    assert_eq!(to_text(&pin_values(2, vec![json("true")])), "[true]");
    assert_eq!(to_text(&register_values(1, &vec![7])), "7");
    assert_eq!(to_text(&register_values(2, &vec![7, 8])), "[7,8]");
}

#[test]
fn messages_are_shown_whole() {
    let m = Message {
        message_id: 3,
        author_id: 4,
        channel_name: "ch".to_string(),
        data: json(r#"{"a":1}"#),
    };
    let one = r#"{"message_id":3,"author_id":4,"channel_name":"ch","data":{"a":1}}"#;
    assert_eq!(to_text(&message_json(&m)), one);
    assert_eq!(to_text(&messages_json(&vec![m])), format!("[{one}]"));
}

#[test]
fn events_are_shown_whole() {
    let ev = Event {
        event_name: "MessageCreate".to_string(),
        channel: "ch".to_string(),
        payload: json("{}"),
    };
    assert_eq!(
        to_text(&channel_event_json(&ev)),
        r#"{"event_name":"MessageCreate","channel":"ch","payload":{}}"#
    );
    let p = PlatformEvent {
        event_id: 1,
        event: "DI_R".to_string(),
        pin: 2,
        value: "1".to_string(),
        time: 500,
        cm4_online: None,
    };
    let shown = r#"{"event_id":1,"event":"DI_R","pin":2,"value":"1","time":500,"cm4_online":null}"#;
    assert_eq!(to_text(&event_json(&p)), shown);
    assert_eq!(
        to_text(&di_events_json(None, &vec![p])),
        format!(r#"{{"events_synced":false,"events":[{shown}]}}"#)
    );
}

#[test]
fn credentials_are_shown_whole() {
    let c = TurnCredential {
        username: "u".to_string(),
        credential: "c".to_string(),
        ttl: 60,
        expires_at: 100,
        uris: vec!["turn:x".to_string()],
    };
    assert_eq!(
        to_text(&turn_json(&c)),
        r#"{"username":"u","credential":"c","ttl":60,"expires_at":100,"uris":["turn:x"]}"#
    );
}

#[test]
fn locations_show_what_is_known() {
    let l = Location {
        latitude: Some(number("-27.5")),
        longitude: None,
        altitude_m: None,
        accuracy_m: None,
        speed_mps: None,
        heading_deg: None,
        sat_count: Some(7),
        timestamp: Some("now".to_string()),
    };
    let text = to_text(&location_json(&l));
    assert!(text.starts_with(r#"{"latitude":-27.5,"longitude":null,"#));
    assert!(text.ends_with(r#""sat_count":7,"timestamp":"now"}"#));
}

#[test]
fn sleep_logs_and_input_configurations() {
    let s = SleepLogEntry {
        timestamp: json("1"),
        input_voltage: json("12.5"),
        system_current: Value::Null,
        system_power: Value::Null,
        di: json("[true]"),
        dos: json("[]"),
        ai: json("[1.5]"),
        ao: json("[]"),
    };
    let text = to_text(&sleep_log_json(&s));
    assert!(text.starts_with(r#"{"timestamp":1,"input_voltage":12.5,"#));
    assert_eq!(to_text(&di_config_json(&None)), "null");
    let c = DiConfig {
        pin: 3,
        pnp_mode: Some(true),
        irq_edge: None,
        debounce_ms: Some(20),
        wake_on_event: None,
    };
    assert_eq!(
        to_text(&di_config_json(&Some(c))),
        r#"{"pin":3,"pnp_mode":true,"irq_edge":null,"debounce_ms":20,"wake_on_event":null}"#
    );
}

#[test]
fn listings_and_missing_channels() {
    let list = vec![ListedChannel { channel_name: "tag_values".to_string(), aggregate: None }];
    let text = to_text(&channels_json(true, &list));
    assert!(text.starts_with(r#"{"from_cloud":true,"channels":[{"channel_name":"tag_values""#));
    assert_eq!(channel_not_found("x"), "channel 'x' not found");
}

#[test]
fn buses_are_shown_and_set() {
    let b = BusStatus {
        bus_id: "b".to_string(),
        open: true,
        serial: Some(SerialStatus {
            port: "/dev/ttyS0".to_string(),
            baud: 9600,
            modbus_method: None,
            data_bits: Some(8),
            parity: None,
            stop_bits: None,
            timeout: Some(number("0.5")),
        }),
        ethernet: None,
    };
    let text = to_text(&bus_status_json(&b));
    assert!(text.contains(r#""baud":9600"#));
    assert!(text.ends_with(r#""ethernet_settings":null}"#));
    let e = BusStatus {
        bus_id: "e".to_string(),
        open: false,
        serial: None,
        ethernet: Some(EthernetStatus { ip: "127.0.0.1".to_string(), port: 5000, timeout: None }),
    };
    assert!(to_text(&bus_status_json(&e)).contains(r#""ip":"127.0.0.1""#));

    match bus_settings("tcp", SerialBusSettings::default(), "10.0.0.2:502", 1500).unwrap() {
        BusSettings::Tcp(t) => {
            assert_eq!(t.ip, "10.0.0.2");
            assert_eq!(t.port, 502);
            assert_eq!(t.timeout_ms, 1500);
        }
        other => panic!("{other:?}"),
    }
    assert!(matches!(
        bus_settings("serial", SerialBusSettings::default(), "", 0),
        Ok(BusSettings::Serial(_))
    ));
    assert!(bus_settings("tcp", SerialBusSettings::default(), "no-port", 0).is_err());
    assert!(bus_settings("carrier pigeon", SerialBusSettings::default(), "", 0).is_err());
}

#[test]
fn attachments_are_printed_in_base64() {
    for (bytes, text) in [(&b""[..], ""), (b"a", "YQ=="), (b"\xff\xfe\xfd", "//79")] {
        assert_eq!(to_text(&attachment_json(&bytes.to_vec())), format!("{text:?}"));
    }
}

#[test]
fn local_times_lie_within_a_day() {
    let naive = 1_749_988_800_000i64;
    let read = parse_timestamp_ms("2025-06-15T12:00:00").unwrap() as i64;
    assert!((read - naive).abs() < 86_400_000);
    assert_eq!(read_time("2025-06-15T12:00:00"), TimeReading::Civil(naive));
    assert_eq!(parse_timestamp_ms("\t2025-06-15T12:00:00 ").unwrap() as i64, read);
}
