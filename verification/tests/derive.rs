use doover::config::elements::sanitize_display_name;
use doover::derive::choices::{choices, expand_config_enum, EnumDecl, VariantDecl, NEEDS_UNIT};
use doover::derive::fields::{
    generic_inner, option_kind, parse_field_attrs, BoundLit, FieldAttrs, FieldDecl, OptionKind,
    OptionValue, TypeDesc,
};
use doover::derive::log_on::{
    after_reading, find_ends, next_text, parse_log_on, read_items, start_scan, take_arguments,
    triggers_with, Scan, Tok, TriggerSpec,
};
use doover::derive::names::{camel_to_title, check_key, doc_comment, title_case};
use doover::derive::structs::{
    expand_config, expand_config_object, expand_ui, named_fields_message, StructDecl,
};
use doover::derive::tags::{
    expand_tags, parse_tag_attrs, tag_attrs_with, TagAttrs, TagField, TagValueTokens, NEEDS_TAG,
};
use proc_macro2::{Delimiter, Spacing, TokenStream, TokenTree};

fn tokens(src: &str) -> Vec<Tok> {
    let stream: TokenStream = src.parse().unwrap();
    convert(stream)
}

fn convert(stream: TokenStream) -> Vec<Tok> {
    let mut out = Vec::new();
    for tree in stream {
        out.push(match tree {
            TokenTree::Ident(i) => Tok::Ident(i.to_string()),
            TokenTree::Punct(p) => Tok::Punct(p.as_char(), p.spacing() == Spacing::Joint),
            TokenTree::Literal(l) => Tok::Lit(l.to_string()),
            TokenTree::Group(g) => {
                if g.delimiter() == Delimiter::Parenthesis {
                    Tok::Paren(convert(g.stream()))
                } else {
                    Tok::Group(g.to_string())
                }
            }
        });
    }
    out
}

fn trigger(src: &str) -> TriggerSpec {
    let mut specs = parse_log_on(&tokens(src)).expect("spec parses");
    assert_eq!(specs.len(), 1);
    specs.remove(0)
}

fn trigger_tokens(src: &str) -> String {
    trigger(src).to_tokens().expect("tokens generate").replace(' ', "")
}

fn plain(text: &str) -> TypeDesc {
    TypeDesc { text: text.to_string(), last: Some(text.to_string()), inner: None }
}

fn wrapped(wrapper: &str, inner: TypeDesc) -> TypeDesc {
    TypeDesc {
        text: format!("{wrapper} < {} >", inner.text),
        last: Some(wrapper.to_string()),
        inner: Some(Box::new(inner)),
    }
}

fn field(name: &str, ty: TypeDesc, options: Vec<(&str, OptionValue)>) -> FieldDecl {
    let options = options.into_iter().map(|(k, v)| (k.to_string(), v)).collect();
    FieldDecl {
        name: name.to_string(),
        ty,
        attrs: parse_field_attrs(options).unwrap(),
        docs: Vec::new(),
    }
}

fn text(t: &str) -> OptionValue {
    OptionValue::Text(t.to_string())
}

#[test]
fn lib_sanitize_matches_pydoover() {
    assert_eq!(sanitize_display_name("Sensor Minimum mA"), "sensor_minimum_ma");
    assert_eq!(sanitize_display_name("AI Pin"), "ai_pin");
}

#[test]
fn title_case_from_field_name() {
    assert_eq!(title_case("sensor_type"), "Sensor Type");
    assert_eq!(title_case("volume_decimal_precision"), "Volume Decimal Precision");
}

#[test]
fn camel_split() {
    assert_eq!(camel_to_title("RadarInverted"), "Radar Inverted");
    assert_eq!(camel_to_title("Submersible"), "Submersible");
}

#[test]
fn titles_give_their_fields_back() {
    for name in ["sensor_type", "ai_pin", "level2", "a_b_c"] {
        assert_eq!(sanitize_display_name(&title_case(name)), name);
    }
}

#[test]
fn variants_keep_their_letters() {
    assert_eq!(camel_to_title("ABTest9Run").replace(' ', ""), "ABTest9Run");
}

#[test]
fn keys_are_checked() {
    assert!(check_key("A key-with_all 9"));
    assert!(!check_key("dot.ted"));
    assert!(check_key(""));
}

#[test]
fn comments_lose_one_space() {
    let lines = vec![" First.".to_string(), "".to_string(), "  Second.".to_string()];
    assert_eq!(doc_comment(&lines).unwrap(), "First.\n\n Second.");
    assert!(doc_comment(&vec!["  ".to_string()]).is_none());
    assert!(doc_comment(&Vec::new()).is_none());
}

#[test]
fn log_on_grammar_generates_constructors() {
    assert_eq!(
        trigger_tokens("cross(15.0)"),
        "::doover::tags::LogTrigger::cross(::std::vec![(15.0)asf64])"
    );
    assert_eq!(
        trigger_tokens("rise(50, 100, deadband = 4.0)"),
        "::doover::tags::LogTrigger::rise(::std::vec![(50)asf64,(100)asf64]).deadband((4.0)asf64)"
    );
    assert_eq!(
        trigger_tokens("delta(percent = 10)"),
        "::doover::tags::LogTrigger::delta_percent((10)asf64)"
    );
    assert_eq!(trigger_tokens("any_change"), "::doover::tags::LogTrigger::any_change()");
    assert!(trigger_tokens("enter(\"fault\")").contains("json!(\"fault\")"));
}

#[test]
fn log_on_grammar_rejects_bad_shapes() {
    for (src, msg) in [
        ("cross()", "at least one threshold"),
        ("cross(5.0, deadline = 1.0)", "unknown cross() option"),
        ("delta(amount = 1.0, percent = 2.0)", "exactly one of"),
        ("delta(5.0)", "exactly one of"),
        ("any_change(true)", "takes no arguments"),
        ("enter()", "exactly one value"),
        ("exit(1, 2)", "exactly one value"),
        ("wiggle(1)", "unknown trigger"),
    ] {
        let err = trigger(src).to_tokens().expect_err(src);
        assert!(err.contains(msg), "{src}: {err}");
    }
}

#[test]
fn trigger_kinds() {
    for (src, kind) in [
        ("cross(1.0)", Some(true)),
        ("fall(1.0)", Some(true)),
        ("delta(amount = 1.0)", Some(true)),
        ("any_change", Some(false)),
        ("enter(true)", Some(false)),
        ("wiggle", None),
    ] {
        assert_eq!(trigger(src).numeric_kind(), kind, "{src}");
    }
}

#[test]
fn trigger_lists_are_read_in_order() {
    let specs = parse_log_on(&tokens("rise(1, -2.5), any_change, delta(amount = 1 + 1),")).unwrap();
    let names: Vec<&str> = specs.iter().map(|s| s.name.as_str()).collect();
    assert_eq!(names, vec!["rise", "any_change", "delta"]);
    assert_eq!(specs[0].positional, vec!["1", "- 2.5"]);
    assert_eq!(specs[2].named, vec![("amount".to_string(), "1 + 1".to_string())]);
    assert!(trigger("delta(speed = 3)").to_tokens().unwrap_err().contains("unknown delta option"));
    assert_eq!(
        parse_log_on(&Vec::new()).unwrap_err(),
        "log_on(...) needs at least one trigger"
    );
    assert_eq!(parse_log_on(&tokens("7")).unwrap_err(), "expected identifier");
    assert_eq!(
        parse_log_on(&tokens("cross(deadband =)")).unwrap_err(),
        "unexpected end of input, expected an expression"
    );
}

#[test]
fn trigger_arguments_are_expressions() {
    let spec = trigger("cross(limits::HIGH, f::<A, B>(1, 2), |a, b| a >= b, deadband = x[0],)");
    assert_eq!(spec.positional, vec!["limits :: HIGH", "f ::< A , B > (1 , 2)", "| a , b | a >= b"]);
    assert_eq!(spec.named, vec![("deadband".to_string(), "x [0]".to_string())]);
    assert_eq!(
        trigger_tokens("enter(Mode::Auto)"),
        "::doover::tags::LogTrigger::enter(::doover::__private::serde_json::json!(Mode::Auto))"
    );
    for src in ["cross(1 2)", "cross(1,,2)", "cross(+)", "cross(,)", "cross(a == b)", "cross(= 1)"] {
        assert!(parse_log_on(&tokens(src)).is_err(), "{src}");
    }
}

/// A trigger as `syn` reads it off a stream.
struct Reference;

impl syn::parse::Parse for Reference {
    fn parse(input: syn::parse::ParseStream) -> syn::Result<Self> {
        let _: syn::Ident = input.parse()?;
        if input.peek(syn::token::Paren) {
            let group: proc_macro2::Group = input.parse()?;
            syn::parse::Parser::parse2(arguments, group.stream())?;
        }
        Ok(Self)
    }
}

fn arguments(inner: syn::parse::ParseStream) -> syn::Result<()> {
    while !inner.is_empty() {
        let ahead = inner.fork();
        let named = ahead.parse::<syn::Ident>().is_ok()
            && ahead.parse::<proc_macro2::Punct>().is_ok_and(|p| p.as_char() == '=');
        if named {
            inner.parse::<syn::Ident>()?;
            inner.parse::<proc_macro2::Punct>()?;
        }
        inner.parse::<syn::Expr>()?;
        if !inner.is_empty() {
            inner.parse::<syn::token::Comma>()?;
        }
    }
    Ok(())
}

fn reference(src: &str) -> Result<usize, String> {
    let list = syn::punctuated::Punctuated::<Reference, syn::token::Comma>::parse_terminated;
    syn::parse::Parser::parse_str(list, src).map(|l| l.len()).map_err(|e| e.to_string())
}

#[test]
fn triggers_are_refused_in_the_words_of_syn() {
    for src in [
        "7",
        "cross(1.0) rise(2.0)",
        "cross(1 2)",
        "cross(1,,2)",
        "cross(+)",
        "cross(,)",
        "cross(a == b)",
        "cross(= 1)",
        "cross(deadband =)",
        "cross(1, deadband = 2 3)",
        "cross(1, [1 2])",
        "cross(1 2) 3",
        "cross(1) 3",
        "cross 3",
        "cross(1.0), , rise(1)",
        ", cross(1)",
        "self",
        "_",
        "any_change, type(1)",
        "cross(1), 5",
        "cross(1, if)",
        "cross(|a, b)",
        "r#type, any_change(1, ())",
        "cross(1.0, self = 2.0)",
        "cross(1.0, _ = 2.0)",
        "cross(f::<A, B>(1), deadband = x as T)",
        "any_change, any_change,",
    ] {
        let read = parse_log_on(&tokens(src)).map(|specs| specs.len());
        assert_eq!(read, reference(src), "{src}");
    }
}

#[test]
fn keywords_are_no_names() {
    let spec = trigger("cross(1.0, self = 2.0)");
    assert_eq!(spec.positional, vec!["1.0", "self = 2.0"]);
    assert!(spec.named.is_empty());
    assert_eq!(
        parse_log_on(&tokens("self(1)")).unwrap_err(),
        "expected identifier, found keyword `self`"
    );
    assert_eq!(trigger("r#type").name, "r#type");
}

#[test]
fn scans_follow_what_was_read() {
    let list = tokens("f::<A, B>(), 2");
    let Scan::Read { ends, upto } = start_scan(&list) else { panic!("nothing to read") };
    assert_eq!((ends.len(), upto), (0, 5));
    assert_eq!(next_text(&list, &ends, upto), "f ::< A");
    let Scan::Read { ends, upto } = after_reading(&list, ends, upto, Err("no".to_string())) else {
        panic!("nothing left to read")
    };
    assert_eq!((ends.len(), upto), (0, 9));
    let Scan::Read { ends, upto } = after_reading(&list, ends, upto, Ok(())) else {
        panic!("nothing left to read")
    };
    assert_eq!((ends.clone(), upto), (vec![9], 11));
    assert_eq!(next_text(&list, &ends, upto), "2");
    assert_eq!(
        after_reading(&list, ends.clone(), upto, Err("unexpected token".to_string())),
        Scan::Refused("expected `,`".to_string())
    );
    assert_eq!(
        after_reading(&list, ends.clone(), upto, Err("no".to_string())),
        Scan::Refused("no".to_string())
    );
    assert_eq!(after_reading(&list, ends, upto, Ok(())), Scan::Done(vec![9, 11]));
    assert_eq!(start_scan(&Vec::new()), Scan::Done(Vec::new()));
}

#[test]
fn triggers_are_made_of_readings() {
    let list = tokens("cross(1, 2), any_change");
    let readings = read_items(&list);
    assert_eq!(readings, vec![Ok(vec![1, 3]), Ok(Vec::new())]);
    let specs = triggers_with(&list, &vec![Ok(vec![3]), Ok(Vec::new())]).unwrap();
    assert_eq!(specs[0].positional, vec!["1 , 2"]);
    let refused = triggers_with(&list, &vec![Err("bad".to_string()), Ok(Vec::new())]);
    assert_eq!(refused.unwrap_err(), "bad");
}

#[test]
fn arguments_are_cut_at_their_ends() {
    let list = tokens("1.5, deadband = 2 * 3,");
    assert_eq!(find_ends(&list), Ok(vec![1, 7]));
    assert_eq!(find_ends(&tokens("1.5 2.5")), Err("expected `,`".to_string()));
    assert_eq!(find_ends(&Vec::new()), Ok(Vec::new()));
    let bare = TriggerSpec { name: "cross".to_string(), positional: Vec::new(), named: Vec::new() };
    let spec = take_arguments(bare, &list, &vec![1, 7]);
    assert_eq!(spec.positional, vec!["1.5"]);
    assert_eq!(spec.named, vec![("deadband".to_string(), "2 * 3".to_string())]);
}

#[test]
fn field_options_are_typed() {
    assert_eq!(option_kind("title"), Some(OptionKind::Text));
    assert_eq!(option_kind("hidden"), Some(OptionKind::Flag));
    assert_eq!(option_kind("min"), Some(OptionKind::Literal));
    assert_eq!(option_kind("max_items"), Some(OptionKind::Count));
    assert_eq!(option_kind("default"), Some(OptionKind::Expr));
    assert_eq!(option_kind("colour"), None);
    let bad = parse_field_attrs(vec![("colour".to_string(), OptionValue::Flag)]);
    assert_eq!(bad.unwrap_err(), "unknown #[config] option `colour`");
    let bad = parse_field_attrs(vec![("title".to_string(), OptionValue::Flag)]);
    assert!(bad.unwrap_err().starts_with("wrong kind of value"));
    let twice = parse_field_attrs(vec![
        ("title".to_string(), text("A")),
        ("title".to_string(), text("B")),
        ("advanced".to_string(), OptionValue::Flag),
    ])
    .unwrap();
    assert_eq!(twice.title.as_deref(), Some("B"));
    assert!(twice.advanced && !twice.hidden && !twice.deprecated);
}

#[test]
fn wrappers_are_looked_into() {
    let ty = wrapped("Option", plain("f64"));
    assert_eq!(generic_inner(&ty, "Option").unwrap().text, "f64");
    assert!(generic_inner(&ty, "Vec").is_none());
    assert!(generic_inner(&plain("Option"), "Option").is_none());
}

#[test]
fn a_plain_field_expands() {
    let code = field("sensor_type", plain("String"), vec![]).field_element_block(4).unwrap();
    assert_eq!(
        code,
        "{ let mut __el = <String as ::doover::config::ConfigElementBuild>::element(\
         \"Sensor Type\", \"sensor_type\"); \
         __el.position = ::core::option::Option::Some(4u32); __els.push(__el); }"
    );
}

#[test]
fn an_optional_field_is_null_by_default() {
    let code = field("limit", wrapped("Option", plain("i64")), vec![
        ("min", OptionValue::Literal(BoundLit::Whole(-3))),
        ("max", OptionValue::Literal(BoundLit::Fraction("2.5".to_string()))),
    ])
    .field_element_block(0)
    .unwrap();
    assert!(code.contains("__el.default = ::core::option::Option::Some(::doover::__private::serde_json::Value::Null); "));
    assert!(code.contains("__el.set_minimum(::doover::__private::serde_json::Number::from(-3i64)"));
    assert!(code.contains("Number::from_f64(2.5f64)"));
}

#[test]
fn lists_name_their_items() {
    let list = wrapped("Vec", plain("Tank"));
    let missing = field("tanks", wrapped("Vec", plain("Tank")), vec![]);
    assert!(missing.field_element_block(0).unwrap_err().contains("item_title"));
    let code = field("tanks", list, vec![
        ("item_title", text("Tank")),
        ("min_items", OptionValue::Count(1)),
    ])
    .field_element_block(0)
    .unwrap();
    assert!(code.contains("::doover::config::ElementSchema::array(\"Tanks\", \"tanks\", __item)"));
    assert!(code.contains("__el.set_min_items("));
}

#[test]
fn titles_and_keys_are_held_to_their_fields() {
    let bad = field("ai_pin", plain("i64"), vec![("title", text("Analog Pin"))]);
    let m = bad.field_element_block(0).unwrap_err();
    assert!(m.contains("sanitizes to \"analog_pin\" but the field is named \"ai_pin\""));
    let named = field("ai_pin", plain("i64"), vec![
        ("title", text("Analog Pin")),
        ("name", text("analog")),
    ]);
    assert!(named.field_element_block(0).unwrap().contains("\"Analog Pin\", \"analog\""));
    let bad = field("x", plain("i64"), vec![("name", text("a.b"))]);
    assert!(bad.field_element_block(0).unwrap_err().starts_with("invalid config key \"a.b\""));
    let bad = field("x", plain("i64"), vec![("min", OptionValue::Literal(BoundLit::Other))]);
    assert_eq!(bad.field_element_block(0).unwrap_err(), "expected an integer or float literal");
}

#[test]
fn structures_expand_field_by_field() {
    let d = StructDecl {
        ident: "Conf".to_string(),
        attrs: FieldAttrs::default(),
        fields: vec![field("a", plain("i64"), vec![]), field("b", plain("bool"), vec![])],
    };
    let code = expand_config(&d).unwrap();
    assert!(code.contains("impl ::doover::config::ConfigSchema for Conf"));
    assert!(code.contains("Some(0u32)") && code.contains("Some(1u32)"));
    let object = expand_config_object(&d).unwrap();
    assert!(object.contains("impl ::doover::config::ConfigElementBuild for Conf"));
    let broken = StructDecl {
        ident: "Conf".to_string(),
        attrs: FieldAttrs::default(),
        fields: vec![
            field("a", plain("i64"), vec![]),
            field("b", wrapped("Vec", plain("bool")), vec![]),
        ],
    };
    assert_eq!(expand_config(&broken).unwrap_err().member, 1);
    assert_eq!(
        named_fields_message("Tags"),
        "#[derive(Tags)] requires a struct with named fields"
    );
    let ui = expand_ui("Panel", &vec!["level".to_string()]);
    assert!(ui.contains("&self.level as &dyn ::doover::ui::UiElement"));
}

#[test]
fn expanded_code_is_rust() {
    let d = StructDecl {
        ident: "Conf".to_string(),
        attrs: FieldAttrs::default(),
        fields: vec![field("a", plain("i64"), vec![("default", OptionValue::Expr("3".to_string()))])],
    };
    for code in [expand_config(&d).unwrap(), expand_config_object(&d).unwrap()] {
        assert!(syn::parse_str::<syn::File>(&code).is_ok(), "{code}");
    }
}

#[test]
fn enumerations_expand() {
    let d = EnumDecl {
        ident: "Sensor".to_string(),
        variants: vec![
            VariantDecl { ident: "RadarInverted".to_string(), is_unit: true, rename: None },
            VariantDecl {
                ident: "Dip".to_string(),
                is_unit: true,
                rename: Some("Dip Stick".to_string()),
            },
        ],
    };
    assert_eq!(choices(&d.variants), vec!["Radar Inverted", "Dip Stick"]);
    let code = expand_config_enum(&d).unwrap();
    assert!(code.contains("\"Radar Inverted', 'Dip Stick\""));
    for v in &d.variants {
        let text = v.rename.clone().unwrap_or_else(|| camel_to_title(&v.ident));
        let write = format!("Self::{} => f.write_str({text:?}), ", v.ident);
        let read = format!("{text:?} => ::core::result::Result::Ok(Self::{}), ", v.ident);
        assert!(code.contains(&write) && code.contains(&read), "{code}");
    }
    assert!(syn::parse_str::<syn::File>(&code).is_ok());
    let broken = EnumDecl {
        ident: "Sensor".to_string(),
        variants: vec![VariantDecl { ident: "A".to_string(), is_unit: false, rename: None }],
    };
    let fault = expand_config_enum(&broken).unwrap_err();
    assert_eq!((fault.member, fault.message.as_str()), (0, NEEDS_UNIT));
}

fn tag(ident: &str, ty: TypeDesc, options: Vec<(&str, TagValueTokens)>) -> TagField {
    let options = options.into_iter().map(|(k, v)| (k.to_string(), v)).collect();
    TagField { ident: ident.to_string(), ty, attrs: parse_tag_attrs(options).unwrap() }
}

#[test]
fn tags_expand() {
    let fields = vec![
        tag("level", wrapped("Tag", plain("f64")), vec![
            ("live", TagValueTokens::Flag),
            ("default", TagValueTokens::Expr("1.5".to_string())),
            ("log_on", TagValueTokens::List(tokens("cross(15.0)"))),
        ]),
        tag("mode", wrapped("Tag", plain("String")), vec![
            ("name", TagValueTokens::Text("run mode".to_string())),
            ("default", TagValueTokens::Expr("None".to_string())),
        ]),
        tag("open", wrapped("Tag", plain("bool")), vec![]),
    ];
    let code = expand_tags("Tank", &fields).unwrap();
    assert!(code.contains("::doover::tags::Tag::<f64>::declared(\"level\", true, "));
    assert!(code.contains(".with_log_on(::std::vec![::doover::tags::LogTrigger::cross("));
    assert!(code.contains("declared(\"run mode\", false, ::core::option::Option::Some(::doover::__private::serde_json::Value::Null))"));
    assert!(code.contains("declared(\"open\", false, ::core::option::Option::None)"));
    assert!(code.contains("::std::vec![\"level\", \"run mode\", \"open\"]"));
    assert!(code.contains("::std::vec![\"level\"] }"));
    assert!(syn::parse_str::<syn::File>(&code).is_ok(), "{code}");
}

#[test]
fn tags_reject_what_does_not_fit() {
    let not_a_tag = vec![tag("level", plain("f64"), vec![])];
    let fault = expand_tags("T", &not_a_tag).unwrap_err();
    assert_eq!((fault.member, fault.message.as_str()), (0, NEEDS_TAG));
    let wrong_kind = vec![
        tag("ok", wrapped("Tag", plain("f64")), vec![]),
        tag("open", wrapped("Tag", plain("bool")), vec![(
            "log_on",
            TagValueTokens::List(tokens("cross(1)")),
        )]),
    ];
    let fault = expand_tags("T", &wrong_kind).unwrap_err();
    assert_eq!(fault.member, 1);
    assert!(fault.message.contains("only applies to numeric tags"));
    let wrong_kind = vec![tag("level", wrapped("Tag", plain("i64")), vec![(
        "log_on",
        TagValueTokens::List(tokens("any_change")),
    )])];
    let fault = expand_tags("T", &wrong_kind).unwrap_err();
    assert!(fault.message.contains("only applies to boolean/string tags"));
}

#[test]
fn tag_options_are_typed() {
    let a: TagAttrs = parse_tag_attrs(vec![
        ("log_on".to_string(), TagValueTokens::List(tokens("rise(1)"))),
        ("log_on".to_string(), TagValueTokens::List(tokens("fall(2)"))),
    ])
    .unwrap();
    assert_eq!(a.log_on.len(), 2);
    let bad = parse_tag_attrs(vec![("loud".to_string(), TagValueTokens::Flag)]);
    assert_eq!(bad.unwrap_err(), "unknown #[tag] option `loud`");
    let bad = parse_tag_attrs(vec![("name".to_string(), TagValueTokens::Flag)]);
    assert!(bad.unwrap_err().starts_with("wrong kind of value"));
    let bad = parse_tag_attrs(vec![("log_on".to_string(), TagValueTokens::List(Vec::new()))]);
    assert_eq!(bad.unwrap_err(), "log_on(...) needs at least one trigger");
    let option = || vec![("log_on".to_string(), TagValueTokens::List(tokens("rise(1)")))];
    let a = tag_attrs_with(option(), &vec![vec![Ok(vec![1])]]).unwrap();
    assert_eq!(a.log_on[0].positional, vec!["1"]);
    let bad = tag_attrs_with(option(), &vec![vec![Err("no".to_string())]]);
    assert_eq!(bad.unwrap_err(), "no");
}
