use doover::config::load::{find_source, started_error, Double};
use doover::config::schema::ChoiceType;
use doover::config::{
    field_optional, field_or, field_required, load_element, sanitize_display_name,
    write_config_schema, write_ui_schema, ApplicationDefaultOpen, ApplicationPosition,
    ApplicationRef, Config, ConfigElementBuild, ConfigSchema, DeviceRef, ElementKind,
    ElementSchema, FromConfigValue, GroupRef, NumericBounds, SchemaModel, StringBounds, TagRef,
    ToConfigValue,
};
use doover::error::DooverError;
use doover::json::{Number, Value};
use doover::json_text::{from_text, to_text};

fn json(text: &str) -> Value {
    from_text(text).unwrap()
}

fn number(text: &str) -> Number {
    match json(text) {
        Value::Number(n) => n,
        other => panic!("{other:?} is no number"),
    }
}

fn at(v: &Value, path: &[&str]) -> String {
    let mut here = v;
    for key in path {
        here = here.get(key).expect(key);
    }
    to_text(here)
}

fn keys(v: &Value) -> Vec<String> {
    match v {
        Value::Object(entries) => entries.iter().map(|(k, _)| k.clone()).collect(),
        other => panic!("{other:?} is no object"),
    }
}

#[test]
fn mod_sanitize_matches_pydoover() {
    assert_eq!(sanitize_display_name("Sensor Minimum mA"), "sensor_minimum_ma");
    assert_eq!(sanitize_display_name("AI Pin"), "ai_pin");
    assert_eq!(sanitize_display_name("Volume Curve Point"), "volume_curve_point");
    assert_eq!(sanitize_display_name("weird-Name (v2)!"), "weirdname_v2");
}

#[test]
fn sanitizing_twice_changes_nothing() {
    let once = sanitize_display_name("Übung No. 7");
    assert_eq!(once, "bung_no_7");
    assert_eq!(sanitize_display_name(&once), once);
}

#[test]
fn application_position_element_matches_pydoover() {
    let el = ApplicationPosition::element("ignored", "ignored");
    assert_eq!(
        to_text(&el.to_json()),
        r#"{"title":"Position","x-name":"dv_app_position","x-hidden":true,"type":["integer","null"],"x-required":false,"description":"Position of Application in UI Structure. Smaller numbers are closer to the top.","default":100,"minimum":0}"#
    );
}

#[test]
fn tag_ref_element_matches_pydoover_shape() {
    let el = TagRef::element("Sensor Source", "sensor_source");
    let v = el.to_json();
    assert_eq!(at(&v, &["x-name"]), r#""sensor_source""#);
    assert_eq!(at(&v, &["format"]), r#""doover-tag-reference""#);
    assert_eq!(at(&v, &["type"]), r#""object""#);
    let props = v.get("properties").unwrap();
    assert_eq!(at(props, &["reference_name", "x-hidden"]), "true");
    assert_eq!(at(props, &["reference_name", "default"]), r#""sensor_source""#);
    assert_eq!(at(props, &["agent_id", "format"]), r#""doover-resource-device""#);
    assert_eq!(at(props, &["app_name", "format"]), r#""doover-application""#);
    assert_eq!(at(props, &["tag_name", "x-name"]), r#""tag_name""#);
}

#[test]
fn tag_ref_parses_and_resolves() {
    assert!(!TagRef::default().is_configured());
    assert_eq!(TagRef::default().target(), None);

    let parsed = TagRef::from_config_value(&json(
        r#"{
            "reference_name": "sensor_source",
            "agent_id": null,
            "app_name": "platform_interface_1",
            "tag_name": "ai_reading"
        }"#,
    ))
    .unwrap();
    assert!(parsed.is_configured());
    assert_eq!(parsed.target(), Some(("platform_interface_1", "ai_reading")));
    assert_eq!(parsed.agent_id, None);

    let half = TagRef::from_config_value(&json(r#"{"app_name": "x"}"#)).unwrap();
    assert!(!half.is_configured());

    let cross = TagRef::from_config_value(&json(
        r#"{"app_name": "a", "tag_name": "t", "agent_id": "12345"}"#,
    ))
    .unwrap();
    assert_eq!(cross.agent_id.as_deref(), Some("12345"));
}

#[test]
fn elements_say_what_is_loaded() {
    let mut el = ElementSchema::integer("Pin", "pin");
    let (source, start) = find_source(&json(r#"{"pin":3}"#), &el).unwrap();
    assert_eq!((to_text(&source).as_str(), start.as_str()), ("3", "config element 'pin': "));
    let (source, start) = find_source(&json(r#"{"pin":null}"#), &el).unwrap();
    assert_eq!((to_text(&source).as_str(), start.as_str()), ("null", "config element 'pin': "));
    let missing = find_source(&json("{}"), &el).unwrap_err();
    assert_eq!(
        missing.message(),
        "required config element 'pin' not found in deployment config"
    );
    assert_eq!(started_error("a: ", &DooverError::Other("b".to_string())).message(), "a: b");
    el.default = Some(json("7"));
    for text in ["{}", r#"{"pin":null}"#] {
        let (source, start) = find_source(&json(text), &el).unwrap();
        assert_eq!(to_text(&source), "7");
        assert_eq!(start, "config element 'pin' default: ");
    }
}

#[test]
fn load_element_defaults_and_required() {
    let mut el = ElementSchema::number("Polling Frequency", "polling_frequency");
    el.default = Some(json("1.0"));
    let load = |text: &str| f64::from_bits(load_element::<Double>(&json(text), &el).unwrap().bits);
    assert_eq!(load("{}"), 1.0);
    assert_eq!(load(r#"{"polling_frequency": null}"#), 1.0);
    assert_eq!(load(r#"{"polling_frequency": 2}"#), 2.0);

    let req = ElementSchema::integer("AI Pin", "ai_pin");
    let err = load_element::<i64>(&json("{}"), &req).unwrap_err();
    assert!(err.message().contains("required config element 'ai_pin'"), "{}", err.message());
}

#[test]
fn field_helpers() {
    let v = json(r#"{"a": 3, "b": null}"#);
    assert_eq!(field_required::<i64>(&v, "a").unwrap(), 3);
    assert!(field_required::<i64>(&v, "missing").is_err());
    assert_eq!(field_or::<i64>(&v, "b", 7).unwrap(), 7);
    assert_eq!(field_or::<i64>(&v, "missing", 7).unwrap(), 7);
    assert_eq!(field_optional::<i64>(&v, "b").unwrap(), None);
    assert_eq!(field_optional::<i64>(&v, "a").unwrap(), Some(3));
}

#[test]
fn scalars_load_only_from_their_own_kind() {
    assert_eq!(i8::from_config_value(&json("-128")).unwrap(), -128);
    assert!(i8::from_config_value(&json("128")).is_err());
    assert_eq!(i16::from_config_value(&json("300")).unwrap(), 300);
    assert!(i16::from_config_value(&json("40000")).is_err());
    assert_eq!(i32::from_config_value(&json("-7")).unwrap(), -7);
    assert!(i32::from_config_value(&json("3000000000")).is_err());
    assert_eq!(u8::from_config_value(&json("255")).unwrap(), 255);
    assert!(u8::from_config_value(&json("-1")).is_err());
    assert_eq!(u16::from_config_value(&json("65535")).unwrap(), 65535);
    assert!(u16::from_config_value(&json("65536")).is_err());
    assert_eq!(u32::from_config_value(&json("7")).unwrap(), 7);
    assert!(u32::from_config_value(&json("7.5")).is_err());
    assert!(bool::from_config_value(&json("true")).unwrap());
    assert!(bool::from_config_value(&json("1")).is_err());
    assert_eq!(String::from_config_value(&json("\"x\"")).unwrap(), "x");
    let err = i64::from_config_value(&json("\"seven\"")).unwrap_err();
    assert!(err.message().starts_with("expected i64, got \"seven\": "), "{}", err.message());
    assert_eq!(f64::from_bits(Double::from_config_value(&json("2.5")).unwrap().bits), 2.5);
    assert_eq!(to_text(&number("4.0").to_config_value()), "4.0");
    assert_eq!(to_text(&number("-4").to_config_value()), "-4");
    assert!(Double::from_config_value(&json("true")).is_err());
    assert_eq!(Vec::<i64>::from_config_value(&json("[1,2]")).unwrap(), vec![1, 2]);
    assert!(Vec::<i64>::from_config_value(&json("[1,null]")).is_err());
    assert_eq!(Option::<i64>::from_config_value(&json("null")).unwrap(), None);
}

#[test]
fn stored_values_load_back() {
    for n in [i64::MIN, -1, 0, 7, i64::MAX] {
        assert_eq!(i64::from_config_value(&n.to_config_value()).unwrap(), n);
    }
    assert_eq!(String::from_config_value(&"ab".to_config_value()).unwrap(), "ab");
    assert!(!bool::from_config_value(&false.to_config_value()).unwrap());
    assert_eq!(to_text(&vec![1i64, 2].to_config_value()), "[1,2]");
    assert_eq!(u8::from_config_value(&200u8.to_config_value()).unwrap(), 200);
}

#[test]
fn faults_name_their_element() {
    let el = ElementSchema::integer("AI Pin", "ai_pin");
    let err = load_element::<i64>(&json(r#"{"ai_pin": "x"}"#), &el).unwrap_err();
    assert!(err.message().starts_with("config element 'ai_pin': "), "{}", err.message());
    let mut wrong = ElementSchema::integer("AI Pin", "ai_pin");
    wrong.default = Some(json("\"x\""));
    let err = load_element::<i64>(&json("{}"), &wrong).unwrap_err();
    assert!(err.message().starts_with("config element 'ai_pin' default: "), "{}", err.message());
}

#[test]
fn references_are_strings_of_a_format() {
    for (el, format) in [
        (ApplicationRef::element("A", "a"), "doover-resource-application"),
        (DeviceRef::element("D", "d"), "doover-resource-device"),
        (GroupRef::element("G", "g"), "doover-resource-group"),
    ] {
        assert_eq!(at(&el.to_json(), &["format"]), format!("\"{format}\""));
        assert_eq!(at(&el.to_json(), &["type"]), "\"string\"");
    }
    assert_eq!(ApplicationRef::from_config_value(&json("\"app\"")).unwrap().0, "app");
    assert!(ApplicationPosition::from_config_value(&json("\"x\"")).is_err());
    assert_eq!(ApplicationPosition::default().0, 100);
    assert_eq!(ApplicationDefaultOpen::default().0, None);
    let v = ApplicationDefaultOpen::element("t", "n").to_json();
    assert_eq!(at(&v, &["x-name"]), "\"dv_app_default_open\"");
}

#[test]
fn required_element_key_order() {
    let mut el = ElementSchema::integer("AI Pin", "ai_pin");
    el.description = Some("Analog input pin number".into());
    el.position = Some(0);
    assert_eq!(
        to_text(&el.to_json()),
        r#"{"title":"AI Pin","x-name":"ai_pin","x-hidden":false,"type":"integer","x-required":true,"description":"Analog input pin number","x-position":0}"#
    );
}

#[test]
fn optional_element_nullable_type_and_default() {
    let mut el = ElementSchema::number("Sensor Minimum mA", "sensor_minimum_ma");
    el.default = Some(json("4.0"));
    let v = el.to_json();
    assert_eq!(at(&v, &["type"]), r#"["number","null"]"#);
    assert_eq!(at(&v, &["x-required"]), "false");
    assert!(to_text(&v).contains("\"default\":4.0"));
}

#[test]
fn enum_key_comes_first() {
    let mut el = ElementSchema::enumeration(
        "Sensor Type",
        "sensor_type",
        vec![json("\"Submersible\""), json("\"Radar\"")],
    );
    el.default = Some(json("\"Submersible\""));
    let out = to_text(&el.to_json());
    assert!(out.starts_with(r#"{"enum":["Submersible","Radar"],"title":"#), "{out}");
    assert!(out.contains(r#""type":["string","null"]"#));
}

#[test]
fn integer_default_stays_integer() {
    let mut el = ElementSchema::integer("Volume Decimal Precision", "volume_decimal_precision");
    el.default = Some(json("0"));
    let out = to_text(&el.to_json());
    assert!(out.ends_with(r#""default":0}"#), "{out}");
}

#[test]
fn root_schema_shape() {
    let mut schema = SchemaModel::new();
    schema.push(ElementSchema::integer("AI Pin", "ai_pin"));
    let mut opt = ElementSchema::number("Full Level", "full_level");
    opt.default = Some(json("1.0"));
    schema.push(opt);

    let v = schema.to_json();
    assert_eq!(at(&v, &["$schema"]), "\"https://json-schema.org/draft/2020-12/schema\"");
    assert_eq!(at(&v, &["$id"]), "\"\"");
    assert_eq!(at(&v, &["title"]), "\"$default\"");
    assert_eq!(at(&v, &["required"]), r#"["ai_pin"]"#);
    assert_eq!(at(&v, &["properties", "ai_pin", "x-position"]), "0");
    assert_eq!(at(&v, &["properties", "full_level", "x-position"]), "1");
}

#[test]
fn constraints_are_written() {
    let mut el = ElementSchema::number("Level", "level");
    el.set_minimum(number("1"));
    el.set_exclusive_minimum(number("0.5"));
    el.set_maximum(number("9"));
    el.set_exclusive_maximum(number("10"));
    el.set_multiple_of(number("0.5"));
    let text = to_text(&el.to_json());
    assert!(text.contains(r#""minimum":1"#) && text.contains(r#""exclusiveMinimum":0.5"#));
    assert!(text.contains(r#""maximum":9"#) && text.contains(r#""exclusiveMaximum":10"#));
    assert!(text.contains(r#""multipleOf":0.5"#));

    let mut s = ElementSchema::string("Name", "name");
    s.set_length(8);
    s.set_pattern("^a");
    assert!(to_text(&s.to_json()).contains(r#""pattern":"^a""#));

    let mut list = ElementSchema::array("Pins", "pins", ElementSchema::integer("Pin", "pin"));
    list.set_min_items(1);
    list.set_max_items(4);
    list.set_unique_items(true);
    let text = to_text(&list.to_json());
    assert!(text.contains(r#""minItems":1"#) && text.contains(r#""maxItems":4"#));
    assert!(text.contains(r#""uniqueItems":true"#) && text.contains(r#""items":{"title":"Pin""#));

    let object =
        ElementSchema::object("Tank", "tank", vec![ElementSchema::boolean("Open", "open")]);
    assert_eq!(at(&object.to_json(), &["properties", "open", "type"]), "\"boolean\"");
    assert!(object.is_required());
    assert_eq!(ElementKind::Boolean.json_type(), Some("boolean"));
    assert!(ChoiceType::Text == ChoiceType::Text);
    assert!(NumericBounds::default().minimum.is_none());
    assert!(StringBounds::default().pattern.is_none());
}

#[test]
fn an_app_without_configuration_has_an_empty_schema() {
    let v = <() as ConfigSchema>::schema().to_json();
    assert_eq!(at(&v, &["required"]), "[]");
    assert!(<() as ConfigSchema>::from_value(&json("{\"any\":1}")).is_ok());
}

#[test]
fn raw_access() {
    let c = Config::from_file(r#"{"s":"x","i":7,"f":2.5,"b":true}"#).unwrap();
    assert_eq!(c.get_str("s").as_deref(), Some("x"));
    assert_eq!(c.get_i64("i"), Some(7));
    assert_eq!(c.get_f64("f").map(f64::from_bits), Some(2.5));
    assert_eq!(c.get_f64("i").map(f64::from_bits), Some(7.0));
    assert_eq!(c.get_bool("b"), Some(true));
    assert_eq!(c.get_bool("s"), None);
    assert_eq!(c.get_as::<u8>("i"), Some(7));
    assert_eq!(c.get_as::<u8>("s"), None);
    assert!(c.get("missing").is_none());
    assert_eq!(to_text(c.root()), r#"{"s":"x","i":7,"f":2.5,"b":true}"#);
    assert!(matches!(Config::from_file("{"), Err(DooverError::Json(_))));
    assert_eq!(to_text(Config::from_value(json("[1]")).root()), "[1]");
}

#[test]
fn creates_file_when_missing() {
    let bytes = write_config_schema(None, "my_app", json(r#"{"title": "$default"}"#)).unwrap();
    assert_eq!(
        String::from_utf8(bytes).unwrap(),
        "{\n    \"my_app\": {\n        \"config_schema\": {\n            \"title\": \"$default\"\n        }\n    }\n}"
    );
}

#[test]
fn preserves_other_keys_and_order() {
    let existing =
        r#"{"other": 1, "my_app": {"id": 42, "config_schema": {"old": true}, "z": null}}"#;
    let bytes = write_config_schema(Some(existing), "my_app", json(r#"{"new": true}"#)).unwrap();
    let v = json(&String::from_utf8(bytes).unwrap());
    assert_eq!(at(&v, &["other"]), "1");
    assert_eq!(at(&v, &["my_app", "id"]), "42");
    assert_eq!(at(&v, &["my_app", "config_schema"]), r#"{"new":true}"#);
    assert_eq!(keys(&v), vec!["other", "my_app"]);
    assert_eq!(keys(v.get("my_app").unwrap()), vec!["id", "config_schema", "z"]);
}

#[test]
fn ui_schema_merges_beside_config_schema() {
    let existing = r#"{"my_app": {"config_schema": {"a": 1}}}"#;
    let bytes =
        write_ui_schema(Some(existing), "my_app", json(r#"{"type": "uiApplication"}"#)).unwrap();
    let v = json(&String::from_utf8(bytes).unwrap());
    assert_eq!(at(&v, &["my_app", "config_schema"]), r#"{"a":1}"#);
    assert_eq!(at(&v, &["my_app", "ui_schema"]), r#"{"type":"uiApplication"}"#);
}

#[test]
fn exports_need_an_object() {
    assert!(write_config_schema(Some("[1]"), "my_app", json("{}")).is_err());
    assert!(write_config_schema(Some("{"), "my_app", json("{}")).is_err());
}

#[test]
fn copies_are_written_alike() {
    let mut pin = ElementSchema::integer("Pin", "pin");
    pin.set_minimum(number("0"));
    pin.default = Some(json("3"));
    let mut name = ElementSchema::string("Name", "name");
    name.set_pattern("a*");
    let choice = ElementSchema::enumeration("Mode", "mode", vec![json(r#""on""#), json("1.5")]);
    let list = ElementSchema::array("Pins", "pins", pin.clone());
    let whole = ElementSchema::object("All", "all", vec![pin, name, choice, list]);
    assert_eq!(to_text(&whole.clone().to_json()), to_text(&whole.to_json()));
    let mut model = SchemaModel::new();
    model.title = Some("App".to_string());
    model.push(whole);
    assert_eq!(to_text(&model.clone().to_json()), to_text(&model.to_json()));
    assert_eq!(ApplicationRef::default(), ApplicationRef(String::new()));
}
