use doover::events::Event;
use doover::json::{Number, Value};
use doover::json_text::{from_text, to_text};
use doover::tags::handle::{tag_ref_lookup, ui_tag_type, Tag, TagsCollection};
use doover::tags::key_path::{strip_paths, KeyPath};
use doover::tags::runtime::{
    CommitAction, CommitStage, SetOutcome, SetTagOptions, TagsRuntime, LOG_INTERVAL_MS,
    TAG_CLOUD_MAX_AGE, TAG_OBSERVED_MAX_AGE, UI_SUB_FRESH_MS,
};
use doover::tags::triggers::{
    bits_of, json_eq, key_of_bits, validate_log_on, Band, LogTrigger, TriggerSet, TriggerState,
};
use doover::tags::value::{integer_of_bits, TagType, TagValue};

fn json(text: &str) -> Value {
    from_text(text).unwrap()
}

fn key(x: f64) -> i64 {
    key_of_bits(x.to_bits())
}

fn bands(thresholds: &[f64], deadband: f64) -> Vec<Band> {
    thresholds
        .iter()
        .map(|t| Band {
            threshold: key(*t),
            upper: key(t + deadband / 2.0),
            lower: key(t - deadband / 2.0),
        })
        .collect()
}

fn far(set: &TriggerSet, new: &Value) -> Vec<bool> {
    let baselines = set.baselines();
    set.triggers()
        .iter()
        .zip(baselines)
        .map(|(t, last)| {
            let (Some(new), Some(last)) = (bits_of(new), last) else { return false };
            let (new, last) = (f64::from_bits(new), f64::from_bits(last));
            let diff = (new - last).abs();
            match t {
                LogTrigger::DeltaAmount(a) => diff >= f64::from_bits(*a),
                LogTrigger::DeltaPercent(p) => {
                    if last == 0.0 {
                        diff != 0.0
                    } else {
                        (diff / last.abs()) * 100.0 >= f64::from_bits(*p)
                    }
                }
                _ => false,
            }
        })
        .collect()
}

fn replay(set: &mut TriggerSet, values: &[&str]) -> Vec<bool> {
    let mut store: Option<Value> = None;
    values
        .iter()
        .map(|text| {
            let v = json(text);
            let far = far(set, &v);
            let fired = set.evaluate(store.as_ref(), &v, &far);
            store = Some(v);
            fired
        })
        .collect()
}

#[test]
fn lookup_string_matches_pydoover() {
    assert_eq!(
        tag_ref_lookup("x", Some("number"), Some(&Value::Null)),
        "$tag.app().x:number:null"
    );
    assert_eq!(tag_ref_lookup("x", Some("number"), None), "$tag.app().x:number");
    assert_eq!(tag_ref_lookup("x", None, Some(&json("5"))), "$tag.app().x:string:5");
    assert_eq!(
        tag_ref_lookup("x", Some("object"), Some(&json(r#"{"a": 1, "b": [1, 2]}"#))),
        r#"$tag.app().x:object:{"a":1,"b":[1,2]}"#
    );
}

#[test]
fn ui_tag_type_map() {
    assert_eq!(ui_tag_type("integer"), "number");
    assert_eq!(ui_tag_type("float"), "number");
    assert_eq!(ui_tag_type("number"), "number");
    assert_eq!(ui_tag_type("boolean"), "boolean");
    assert_eq!(ui_tag_type("string"), "string");
}

#[test]
fn detached_tag_declaration() {
    let rt = TagsRuntime::new("app");
    let tag = Tag::<Number>::declared("level", true, Some(Value::Null));
    assert_eq!(tag.name(), "level");
    assert!(tag.is_live());
    assert_eq!(tag.tag_type(), "number");
    assert_eq!(tag.ui_reference(), "$tag.app().level:number:null");
    assert!(tag.get(&rt).is_none());

    let with_default = Tag::<Number>::declared("speed", false, Some(json("2.5")));
    let shown = with_default.get(&rt).unwrap();
    assert_eq!(bits_of(&Value::Number(shown)).map(f64::from_bits), Some(2.5));
    assert_eq!(with_default.ui_reference(), "$tag.app().speed:number:2.5");
}

#[test]
fn detached_set_errors() {
    let mut rt = TagsRuntime::new("app");
    let tag = Tag::<Number>::declared("level", false, None);
    let err = tag.set(&Number::Float("1.0".to_string()), &mut rt, &none()).unwrap_err();
    assert!(err.message().contains("tags not attached"), "{}", err.message());
    assert!(rt.get_tag("app", "level").is_none());
}

#[test]
fn integer_tags_reference_as_number() {
    let tag = Tag::<i64>::declared("count", false, Some(json("0")));
    assert_eq!(tag.tag_type(), "integer");
    assert_eq!(tag.ui_reference(), "$tag.app().count:number:0");
}

#[test]
fn stored_values_beat_defaults() {
    let mut rt = TagsRuntime::new("app");
    let tag = Tag::<i64>::declared("speed", false, Some(json("2"))).attached(&mut rt);
    assert_eq!(tag.get(&rt), Some(2));
    assert!(matches!(tag.set(&7, &mut rt, &none()), Ok(SetOutcome::Buffered)));
    assert_eq!(tag.get(&rt), Some(7));
    assert!(matches!(tag.set(&7, &mut rt, &none()), Ok(SetOutcome::Unchanged)));
    assert!(tag.set_logged(&8, &mut rt, &none()).is_ok());
    assert_eq!(to_text(&rt.flush_immediate_logs().unwrap()), r#"{"app":{"speed":8}}"#);
    rt.set_tag("app", "speed", Value::Null, &SetTagOptions::default(), &none());
    assert_eq!(tag.get(&rt), Some(2));
    assert_eq!(to_text(tag.default().unwrap()), "2");
}

#[test]
fn values_are_read_by_their_type() {
    assert_eq!(i64::from_value(&json("5")), Some(5));
    assert_eq!(i64::from_value(&json("5.0")), Some(5));
    assert_eq!(i64::from_value(&json("-3.0")), Some(-3));
    assert_eq!(i64::from_value(&json("5.5")), None);
    assert_eq!(i64::from_value(&json("18446744073709551615")), Some(i64::MAX));
    assert_eq!(i64::from_value(&json("true")), None);
    assert_eq!(bool::from_value(&json("true")), Some(true));
    assert_eq!(bool::from_value(&json("1")), None);
    assert_eq!(String::from_value(&json("\"x\"")).as_deref(), Some("x"));
    assert!(Number::from_value(&json("2.5")).is_some());
    assert!(Number::from_value(&json("\"2.5\"")).is_none());
    assert_eq!(to_text(&Value::from_value(&json("[1]")).unwrap().to_value()), "[1]");
    assert_eq!(to_text(&7i64.to_value()), "7");
    assert_eq!(<Value as TagValue>::tag_type(), TagType::Object);
}

#[test]
fn whole_doubles_become_integers() {
    for x in [
        0.0, -0.0, 1.0, -1.0, 0.5, 1e-300, 4503599627370495.5, 4503599627370496.0,
        9007199254740992.0, 9.2e18, 9.3e18, -9.3e18, 1e300, -1e300, f64::INFINITY, f64::NAN,
        5e-324, 1048576.0, 1048576.25,
    ] {
        let expected = if x.fract() == 0.0 { Some(x as i64) } else { None };
        assert_eq!(integer_of_bits(f64::to_bits(x)), expected, "{x}");
    }
}

#[test]
fn an_app_without_tags() {
    let mut rt = TagsRuntime::new("app");
    <() as TagsCollection>::attach(&mut rt);
    assert!(<() as TagsCollection>::tag_names().is_empty());
    assert!(<() as TagsCollection>::live_tag_names().is_empty());
}

#[test]
fn keypath_construct_and_lookup() {
    let kp = KeyPath::scoped("my_app", vec!["level".to_string()]);
    assert_eq!(to_text(&kp.construct(json("5"))), r#"{"my_app":{"level":5}}"#);
    let root = json(r#"{"my_app": {"level": 7, "other": null}}"#);
    assert_eq!(to_text(kp.lookup(&root).unwrap()), "7");
    assert_eq!(kp.qualified_name(), "my_app.level");

    let null_kp = KeyPath::scoped("my_app", vec!["other".to_string()]);
    assert!(null_kp.lookup(&root).unwrap().is_null());
    assert!(null_kp.in_value(&root));
    let missing = KeyPath::scoped("my_app", vec!["nope".to_string()]);
    assert!(missing.lookup(&root).is_none());
    assert!(!missing.in_value(&root));
}

#[test]
fn keypath_global_scope() {
    let kp = KeyPath::scoped("", vec!["shutdown_at".to_string()]);
    assert_eq!(to_text(&kp.construct(json("1"))), r#"{"shutdown_at":1}"#);
    assert_eq!(kp.qualified_name(), "shutdown_at");
    assert!(kp.same_path(&KeyPath::tag("", "shutdown_at")));
    assert_eq!(kp.segments().len(), 1);
    assert!(!kp.same_path(&KeyPath::new(vec!["a".to_string(), "b".to_string()])));
}

#[test]
fn strip_paths_removes_promoted_leaves() {
    let mut target = json(r#"{"app": {"a": 1, "b": 2}, "other": {"c": 3}}"#);
    strip_paths(&mut target, &json(r#"{"app": {"a": 9}}"#));
    assert_eq!(to_text(&target), r#"{"app":{"b":2},"other":{"c":3}}"#);

    let mut target = json(r#"{"app": {"a": 1}}"#);
    strip_paths(&mut target, &json(r#"{"app": {"a": 1}}"#));
    assert_eq!(to_text(&target), "{}");
}

#[test]
fn cross_up_then_down_both_log() {
    let mut set = TriggerSet::new(vec![LogTrigger::cross(bands(&[100.0], 0.0))], None);
    assert_eq!(replay(&mut set, &["80", "120", "70"]), [false, true, true]);
}

#[test]
fn cross_initial_value_above_threshold_logs() {
    let mut set = TriggerSet::new(vec![LogTrigger::cross(bands(&[100.0], 0.0))], None);
    assert_eq!(replay(&mut set, &["120"]), [true]);
}

#[test]
fn cross_no_relog_while_staying_above() {
    let mut set = TriggerSet::new(vec![LogTrigger::cross(bands(&[100.0], 0.0))], None);
    assert_eq!(replay(&mut set, &["120", "130", "110"]), [true, false, false]);
}

#[test]
fn deadband_suppresses_oscillation() {
    let mut set = TriggerSet::new(vec![LogTrigger::cross(bands(&[50.0, 100.0], 4.0))], None);
    assert_eq!(
        replay(&mut set, &["40", "51", "49", "53", "49", "47"]),
        [false, false, false, true, false, true]
    );
}

#[test]
fn multiple_thresholds_fire_independently() {
    let mut set = TriggerSet::new(vec![LogTrigger::cross(bands(&[50.0, 100.0], 4.0))], None);
    assert_eq!(replay(&mut set, &["60", "110", "95", "40"]), [true, true, true, true]);
}

#[test]
fn rise_only_fires_going_up() {
    let mut set = TriggerSet::new(vec![LogTrigger::rise(bands(&[100.0], 0.0))], None);
    assert_eq!(replay(&mut set, &["80", "120", "80", "120"]), [false, true, false, true]);
}

#[test]
fn fall_only_fires_going_down_and_initial_below_is_silent() {
    let mut set = TriggerSet::new(vec![LogTrigger::fall(bands(&[10.0], 0.0))], None);
    assert_eq!(replay(&mut set, &["50", "5", "50", "5"]), [false, true, false, true]);
    let mut set = TriggerSet::new(vec![LogTrigger::fall(bands(&[10.0], 0.0))], None);
    assert_eq!(replay(&mut set, &["5"]), [false]);
}

#[test]
fn delta_amount_baseline_only_advances_on_fire() {
    let mut set = TriggerSet::new(vec![LogTrigger::delta_amount(5.0f64.to_bits())], None);
    assert_eq!(replay(&mut set, &["80", "82", "83", "85"]), [true, false, false, true]);
}

#[test]
fn delta_percent_handles_zero_baseline() {
    let mut set = TriggerSet::new(vec![LogTrigger::delta_percent(10.0f64.to_bits())], None);
    assert_eq!(replay(&mut set, &["0", "0", "5", "5"]), [true, false, true, false]);
}

#[test]
fn any_change_fires_each_transition_and_ignores_default_matches() {
    let mut set = TriggerSet::new(vec![LogTrigger::any_change()], None);
    assert_eq!(replay(&mut set, &["true", "false", "true"]), [true, true, true]);

    let mut set = TriggerSet::new(vec![LogTrigger::any_change()], Some(json("false")));
    assert_eq!(replay(&mut set, &["false", "true"]), [false, true]);
}

#[test]
fn enter_exit_composition() {
    let mut set = TriggerSet::new(
        vec![LogTrigger::enter(json("\"error\"")), LogTrigger::exit(json("\"ok\""))],
        None,
    );
    assert_eq!(
        replay(&mut set, &["\"ok\"", "\"warn\"", "\"error\"", "\"warn\""]),
        [false, true, true, false]
    );
}

#[test]
fn non_numeric_values_never_fire_numeric_triggers() {
    let mut set = TriggerSet::new(
        vec![LogTrigger::cross(bands(&[10.0], 0.0)), LogTrigger::delta_amount(1.0f64.to_bits())],
        None,
    );
    assert_eq!(replay(&mut set, &["null", "true", "\"15\""]), [false, false, false]);
}

#[test]
fn numeric_equality_crosses_representations() {
    let mut set = TriggerSet::new(vec![LogTrigger::any_change()], None);
    assert_eq!(replay(&mut set, &["1", "1.0"]), [true, false]);
    assert!(json_eq(&json("1"), &json("1.0")));
    assert!(!json_eq(&json("1"), &json("true")));
}

#[test]
fn mismatched_triggers_are_refused() {
    let delta = vec![LogTrigger::delta_amount(1.0f64.to_bits())];
    let m = validate_log_on("boolean", &delta).unwrap_err();
    assert!(m.contains("log_on accepts"), "{m}");
    let m = validate_log_on("object", &vec![LogTrigger::any_change()]).unwrap_err();
    assert!(m.contains("not supported for tag_type"), "{m}");
    assert!(validate_log_on("number", &delta).is_ok());
    let tag = Tag::<bool>::declared("open", false, None);
    assert!(tag.with_log_on(delta).is_err());
}

#[test]
fn order_keys_order_doubles() {
    let mut list = vec![-1.5, 0.0, -0.0, 1e300, -1e300, 2.5, 1e-300];
    list.sort_by(|a, b| a.partial_cmp(b).unwrap());
    for pair in list.windows(2) {
        assert!(key(pair[0]) <= key(pair[1]));
    }
    assert_eq!(key(-0.0), key(0.0));
}

#[test]
fn one_trigger_alone() {
    let mut state = TriggerState::default();
    let rise = LogTrigger::rise(bands(&[3.0, 1.0], 0.0));
    assert!(rise.evaluate(None, &json("2"), false, &mut state));
    assert!(!rise.evaluate(None, &json("2"), false, &mut state));
    assert!(rise.evaluate(None, &json("4"), false, &mut state));
    assert_eq!(rise.kind_name(), "Rise");
    assert_eq!(state.baseline(), None);
}

fn sync(data: &str) -> Event {
    Event::channel_sync("tag_values", json(data))
}

fn none() -> Vec<bool> {
    Vec::new()
}

#[test]
fn written_tags_read_back() {
    let mut rt = TagsRuntime::new("app");
    rt.on_tag_sync(&sync(r#"{"app":{"level":1},"other":{"x":2}}"#));
    assert_eq!(to_text(&rt.get_tag("app", "level").unwrap()), "1");
    let opts = SetTagOptions::default();
    assert!(matches!(rt.set_tag("app", "level", json("5"), &opts, &none()), SetOutcome::Buffered));
    assert_eq!(to_text(&rt.get_tag("app", "level").unwrap()), "5");
    assert_eq!(to_text(&rt.get_tag("other", "x").unwrap()), "2");
    assert!(rt.get_tag("app", "missing").is_none());
}

#[test]
fn equal_writes_are_skipped() {
    let mut rt = TagsRuntime::new("app");
    rt.on_tag_sync(&sync(r#"{"app":{"level":1}}"#));
    let opts = SetTagOptions::default();
    assert!(matches!(rt.set_tag("app", "level", json("1"), &opts, &none()), SetOutcome::Unchanged));
    let flush = SetTagOptions { only_if_changed: true, flush: true, log: false };
    match rt.set_tag("app", "level", json("2"), &flush, &none()) {
        SetOutcome::Publish(v) => assert_eq!(to_text(&v), r#"{"app":{"level":2}}"#),
        other => panic!("{other:?}"),
    }
}

#[test]
fn a_commit_publishes_then_logs() {
    let mut rt = TagsRuntime::new("app");
    let logged = SetTagOptions { only_if_changed: true, flush: false, log: true };
    rt.set_tag("app", "level", json("5"), &logged, &none());
    rt.set_tag("app", "count", json("1"), &SetTagOptions::default(), &none());

    let (action, stage) = rt.commit_tags(CommitStage::Aggregate, 1_000);
    match action {
        CommitAction::Publish(v, age) => {
            assert_eq!(to_text(&v), r#"{"app":{"level":5,"count":1}}"#);
            assert_eq!(age, TAG_CLOUD_MAX_AGE);
        }
        other => panic!("{other:?}"),
    }
    let (action, stage) = rt.commit_tags(stage, 1_000);
    assert!(matches!(action, CommitAction::Nothing));
    let (action, stage) = rt.commit_tags(stage, 1_000);
    match action {
        CommitAction::Log(v) => assert_eq!(to_text(&v), r#"{"app":{"level":5}}"#),
        other => panic!("{other:?}"),
    }
    let (action, stage) = rt.commit_tags(stage, 1_000);
    match action {
        CommitAction::Log(v) => assert_eq!(to_text(&v), r#"{"app":{"count":1}}"#),
        other => panic!("{other:?}"),
    }
    assert_eq!(stage, CommitStage::Done);
    assert!(!rt.periodic_due(2_000));
}

#[test]
fn the_periodic_log_keeps_its_interval() {
    let mut rt = TagsRuntime::new("app");
    rt.set_tag("app", "a", json("1"), &SetTagOptions::default(), &none());
    assert!(rt.periodic_due(5));
    assert!(rt.flush_logs(5).is_some());
    rt.set_tag("app", "a", json("2"), &SetTagOptions::default(), &none());
    assert!(!rt.periodic_due(5 + LOG_INTERVAL_MS - 1));
    assert!(rt.periodic_due(5 + LOG_INTERVAL_MS));
}

#[test]
fn open_apps_publish_sooner() {
    let now = 1_750_000_000_000u64;
    let mut rt = TagsRuntime::new("app");
    rt.on_ui_sub(&Event::channel_sync(
        "dv-ui-sub",
        json(&format!(r#"{{"app_open":{{"u":{{"ts":{now},"apps":["app"]}}}}}}"#)),
    ));
    assert!(rt.is_app_open(now));
    assert!(rt.is_being_observed(now));
    assert!(!rt.is_agent_open(now) && !rt.is_group_open(now));
    assert_eq!(rt.max_age_secs(now), TAG_OBSERVED_MAX_AGE);
    assert!(!rt.is_app_open(now + UI_SUB_FRESH_MS));
    assert_eq!(rt.max_age_secs(now + UI_SUB_FRESH_MS), TAG_CLOUD_MAX_AGE);
}

#[test]
fn live_tags_are_streamed_while_watched() {
    let now = 1_750_000_000_000u64;
    let mut rt = TagsRuntime::new("app");
    rt.set_live_tags(vec![KeyPath::tag("app", "level")]);
    rt.set_tag("app", "level", json("5"), &SetTagOptions::default(), &none());
    assert!(rt.flush_live_tags(now).is_none());
    rt.on_ui_sub(&Event::channel_sync(
        "dv-ui-sub",
        json(&format!(r#"{{"live_tag_open":{{"u":{{"ts":{now},"tags":["app.level"]}}}}}}"#)),
    ));
    assert!(rt.is_live_tag_open("level", None, now));
    assert!(!rt.is_live_tag_open("level", Some("other"), now));
    assert_eq!(to_text(&rt.flush_live_tags(now).unwrap()), r#"{"app":{"level":5}}"#);
}

#[test]
fn subscribers_hear_what_changed() {
    let mut rt = TagsRuntime::new("app");
    rt.on_tag_sync(&sync(r#"{"app":{"a":1,"b":1}}"#));
    rt.subscribe_to_tag("app", "a", 7);
    rt.subscribe_to_tag("app", "b", 8);
    let update = Event {
        event_name: "AggregateUpdate".to_string(),
        channel: "tag_values".to_string(),
        payload: json(r#"{"aggregate":{"data":{"app":{"a":2,"b":1}}}}"#),
    };
    let told = rt.on_tag_event(&update);
    assert_eq!(told.len(), 1);
    assert_eq!(told[0].1, 7);
    assert_eq!(to_text(&told[0].2), "2");
}

#[test]
fn fired_triggers_log_at_once() {
    let mut rt = TagsRuntime::new("app");
    let tag = Tag::<Number>::declared("level", false, None)
        .with_log_on(vec![LogTrigger::cross(bands(&[10.0], 0.0))])
        .unwrap();
    let tag = tag.attached(&mut rt);
    assert_eq!(tag.log_on().len(), 1);
    assert_eq!(rt.triggers_for("app", "level").unwrap().triggers().len(), 1);
    let opts = SetTagOptions::default();
    rt.set_tag("app", "level", json("5"), &opts, &vec![false]);
    assert!(rt.flush_immediate_logs().is_none());
    rt.set_tag("app", "level", json("15"), &opts, &vec![false]);
    assert_eq!(to_text(&rt.flush_immediate_logs().unwrap()), r#"{"app":{"level":15}}"#);
}

#[test]
fn histories_are_written_under_the_app() {
    let points = vec![(1u64, json(r#"{"a":1}"#)), (2, json("{}"))];
    let list = TagsRuntime::log_history("app", &points);
    assert_eq!(list.len(), 1);
    assert_eq!(list[0].0, 1);
    assert_eq!(to_text(&list[0].1), r#"{"app":{"a":1}}"#);
}

#[test]
fn what_was_published_is_in_the_channel() {
    let mut rt = TagsRuntime::new("app");
    rt.set_tag("app", "a", json("1"), &SetTagOptions::default(), &none());
    let data = rt.flush_tags().unwrap();
    assert!(rt.get_tag("app", "a").is_none());
    rt.flushed(&data);
    assert_eq!(to_text(&rt.get_tag("app", "a").unwrap()), "1");
    assert!(rt.flush_tags().is_none());

    let flush = SetTagOptions { only_if_changed: true, flush: true, log: false };
    assert!(matches!(
        rt.set_tag("app", "a", json("2"), &flush, &none()),
        SetOutcome::Publish(_)
    ));
    rt.published();
    assert_eq!(to_text(&rt.get_tag("app", "a").unwrap()), "2");
    assert!(rt.flush_tags().is_none());
    rt.set_tag("app", "a", json("2"), &SetTagOptions::default(), &none());
    assert!(rt.flush_tags().is_none());
}
