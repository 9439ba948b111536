//! Unit checks of the text utilities, the JS value tables, the formula
//! dependencies and the endpoint cores.
use ftd::interpreter::{Condition, Property, RefOrValue, Value, Variable};

#[test]
fn escape_replaces_angle_brackets() {
    assert_eq!(ftd::html::escape("a<b>&c").as_str(), "a\\u003Cb\\u003E\\u0026c");
    assert_eq!(ftd::html::escape("plain").as_str(), "plain");
}

#[test]
fn quote_wraps_and_escapes() {
    assert_eq!(ftd::html::quote("hi").as_str(), "\"hi\"");
    assert_eq!(ftd::html::quote("a\"b\\c").as_str(), "\"a\\\"b\\\\c\"");
}

#[test]
fn integer_rendering() {
    assert_eq!(ftd::text::u64_to_string(0).as_str(), "0");
    assert_eq!(ftd::text::u64_to_string(1234).as_str(), "1234");
    assert_eq!(ftd::text::i64_to_string(-56).as_str(), "-56");
}

#[test]
fn integer_parsing() {
    assert_eq!(ftd::interpreter::parse_i64("42"), Some(42));
    assert_eq!(ftd::interpreter::parse_i64("-7"), Some(-7));
    assert_eq!(ftd::interpreter::parse_i64(""), None);
    assert_eq!(ftd::interpreter::parse_i64("4x"), None);
    assert_eq!(ftd::interpreter::parse_i64("1234567890123456789"), None);
}

#[test]
fn variant_tables() {
    assert_eq!(ftd::js::length_variants("px").unwrap().as_str(), "Px");
    assert!(ftd::js::length_variants("lightyear").is_err());
    let (v, has_value) = ftd::js::resizing_variants("fixed").unwrap();
    assert_eq!(v.as_str(), "fastn_dom.Resizing.Fixed");
    assert!(has_value);
    assert_eq!(
        ftd::js::border_style_variants("dotted").unwrap().as_str(),
        "Dotted"
    );
    let (v, has_value) = ftd::js::ftd_to_js_variant("ftd#length", "ftd#length.px").unwrap();
    assert_eq!(v.as_str(), "fastn_dom.Length.Px");
    assert!(has_value);
    assert!(ftd::js::ftd_to_js_variant("ftd#length", "other.px").is_err());
}

#[test]
fn mutable_variable_lands_in_registry_with_one_dependency() {
    let variable = Variable {
        name: String::from("doc#count"),
        kind: String::from("integer"),
        mutable: true,
        value: ftd::interpreter::PropertyValue::Value {
            value: Value::Integer { value: 1 },
        },
        line_number: 1,
    };
    match variable.to_ast().unwrap() {
        ftd::js::JsAst::MutableVariable { name, value, .. } => {
            assert_eq!(name.as_str(), "doc#count");
            assert_eq!(value.as_str(), "1");
        }
        _ => panic!("a mutable variable must emit a mutable declaration"),
    }
    let formula = vec![Property {
        source: String::from("text"),
        value: RefOrValue::Reference {
            name: String::from("doc#count"),
        },
        condition: None,
        line_number: 1,
    }];
    match ftd::js::formulas_to_js_value(&formula).unwrap() {
        ftd::js::SetPropertyValue::Formula { deps, .. } => {
            let hits = deps.iter().filter(|d| d.as_str() == "doc#count").count();
            assert_eq!(hits, 1);
        }
        _ => panic!("a conditional property list must emit a formula"),
    }
}

#[test]
fn formula_condition_references_count_once_each() {
    let formula = vec![Property {
        source: String::from("text"),
        value: RefOrValue::Value {
            value: Value::String {
                text: String::from("yes"),
            },
        },
        condition: Some(Condition {
            expression: String::from("$flag"),
            references: vec![(
                String::from("$flag"),
                RefOrValue::Reference {
                    name: String::from("doc#flag"),
                },
            )],
        }),
        line_number: 1,
    }];
    match ftd::js::formulas_to_js_value(&formula).unwrap() {
        ftd::js::SetPropertyValue::Formula {
            deps,
            conditional_values,
        } => {
            assert_eq!(deps.len(), 1);
            assert_eq!(deps[0].as_str(), "doc#flag");
            assert_eq!(conditional_values.len(), 1);
            assert_eq!(
                conditional_values[0].condition.as_ref().unwrap().as_str(),
                "$flag"
            );
        }
        _ => panic!("a conditional property list must emit a formula"),
    }
}

#[test]
fn argument_defaults() {
    let list_arg = ftd::interpreter::Argument {
        name: String::from("xs"),
        kind: String::from("integer list"),
        mutable: false,
        value: None,
        line_number: 1,
    };
    assert!(matches!(
        list_arg.get_default_value(),
        Some(ftd::js::Value::Data(Value::List { .. }))
    ));
    let optional_arg = ftd::interpreter::Argument {
        name: String::from("x"),
        kind: String::from("optional integer"),
        mutable: false,
        value: None,
        line_number: 1,
    };
    assert!(matches!(
        optional_arg.get_default_value(),
        Some(ftd::js::Value::Data(Value::Optional { .. }))
    ));
    let required = ftd::interpreter::Argument {
        name: String::from("n"),
        kind: String::from("integer"),
        mutable: false,
        value: None,
        line_number: 1,
    };
    assert!(required.get_default_value().is_none());
    let empty: Vec<Property> = Vec::new();
    assert!(required.get_value(&empty).is_err());
}

#[test]
fn cr_endpoint_texts() {
    assert_eq!(ftd::cr::cr_url(12).as_str(), "-/12/-/about/");
    let request = ftd::cr::CreateCRRequest {
        title: None,
        description: None,
    };
    assert_eq!(ftd::cr::cr_title(&request, 3).as_str(), "CR#3");
    let titled = ftd::cr::CreateCRRequest {
        title: Some(String::from("fix it")),
        description: None,
    };
    assert_eq!(ftd::cr::cr_title(&titled, 3).as_str(), "fix it");
}

#[test]
fn harness_grouping() {
    assert_eq!(
        ftd::harness::filename_with_second_last_extension_replaced_with_json("01-a.manual")
            .as_str(),
        "01-a.json"
    );
    let stems = vec![
        String::from("a.one"),
        String::from("a.two"),
        String::from("b.one"),
    ];
    let groups = ftd::harness::find_file_groups(&stems);
    assert_eq!(groups.len(), 2);
    assert_eq!(groups[0].0.len(), 2);
    assert_eq!(groups[0].1.as_str(), "a.json");
    assert_eq!(groups[1].0.len(), 1);
    assert_eq!(groups[1].1.as_str(), "b.json");
}

#[test]
fn user_details_processor() {
    let r = ftd::processor::process(&Some(vec![false, true]));
    match r {
        Value::Record { name, fields } => {
            assert_eq!(name.as_str(), "user-details");
            assert!(matches!(
                fields[0].1,
                Value::Boolean { value: true }
            ));
        }
        _ => panic!("the processor must produce a record"),
    }
    let none = ftd::processor::process(&None);
    match none {
        Value::Record { fields, .. } => {
            assert!(matches!(fields[0].1, Value::Boolean { value: false }));
        }
        _ => panic!("the processor must produce a record"),
    }
}

#[test]
fn identity_providers_report_unmatched_claims() {
    let facebook = ftd::auth::facebook::UserDetail {
        token: String::from("t"),
        user_name: String::from("u"),
        user_id: String::from("i"),
    };
    let none: Vec<String> = vec![String::from("github-user")];
    assert!(matches!(
        ftd::auth::facebook::matched_identities(facebook, &none),
        Ok(v) if v.is_empty()
    ));
    let facebook2 = ftd::auth::facebook::UserDetail {
        token: String::from("t"),
        user_name: String::from("u"),
        user_id: String::from("i"),
    };
    let claims: Vec<String> = vec![String::from("facebook-id: 7")];
    assert!(ftd::auth::facebook::matched_identities(facebook2, &claims).is_err());
    let okta = ftd::auth::okta::UserDetail {
        token: String::from("t"),
        user_name: String::from("u"),
        user_id: String::from("i"),
    };
    assert!(matches!(
        ftd::auth::okta::matched_identities(okta, &Vec::new()),
        Ok(v) if v.is_empty()
    ));
}

#[test]
fn js_document_emission() {
    let doc = ftd::interpreter::interpret_helper(
        "doc",
        "-- integer count: 7\n\n-- ftd.text: hi\n",
    )
    .unwrap();
    let asts = ftd::js::document_into_js_ast(&doc).unwrap();
    assert!(matches!(
        &asts[0],
        ftd::js::JsAst::ComponentDeclaration { name, .. } if name.as_str() == "main"
    ));
    assert!(asts.iter().any(|a| matches!(
        a,
        ftd::js::JsAst::StaticVariable { name, value, .. }
            if name.as_str() == "doc#count" && value.as_str() == "7"
    )));
}

#[test]
fn data_id_attribute_is_qualified() {
    let generator = ftd::html::HtmlGenerator::new("page");
    let node = ftd::executor::Node {
        node: String::from("div"),
        data_id: String::from("n1"),
        attrs: vec![(String::from("data-id"), Some(String::from("x")))],
        style: vec![],
        classes: vec![],
        text: Some(String::from("hi")),
        visible: true,
        events: vec![],
        children: vec![],
        null: false,
        raw_data: None,
        web_component: None,
    };
    let attrs = generator.attrs_to_html(&node);
    assert_eq!(attrs.as_str(), "data-id=\"x:page\"");
}

#[test]
fn marker_values_in_styles_and_attrs() {
    let generator = ftd::html::HtmlGenerator::new("page");
    let node = ftd::executor::Node {
        node: String::from("div"),
        data_id: String::from("n1"),
        attrs: vec![
            (String::from("alt"), Some(String::from("$no-value$"))),
            (String::from("role"), Some(String::from("$ignore-key$"))),
        ],
        style: vec![
            (String::from("color"), Some(String::from("$no-value$"))),
            (String::from("border"), Some(String::from("$ignore-key$"))),
            (String::from("margin"), Some(String::from("0"))),
        ],
        classes: vec![],
        text: Some(String::from("hi")),
        visible: true,
        events: vec![],
        children: vec![],
        null: false,
        raw_data: None,
        web_component: None,
    };
    assert_eq!(generator.attrs_to_html(&node).as_str(), "alt ");
    assert_eq!(
        generator.style_to_html(&node, true).as_str(),
        "color: ; margin: 0"
    );
}

#[test]
fn inline_events_group_and_escape() {
    let generator = ftd::html::HtmlGenerator::new("page");
    let node = ftd::executor::Node {
        node: String::from("div"),
        data_id: String::from("n1"),
        attrs: vec![],
        style: vec![],
        classes: vec![],
        text: Some(String::from("hi")),
        visible: true,
        events: vec![
            ftd::interpreter::Event {
                name: String::from("click"),
                action: String::from("set(\"a\")"),
            },
            ftd::interpreter::Event {
                name: String::from("click"),
                action: String::from("go"),
            },
        ],
        children: vec![],
        null: false,
        raw_data: None,
        web_component: None,
    };
    let (html, events) = generator.as_html_(&node);
    assert_eq!(events.len(), 0);
    // both actions land in one attribute, quote-escaped and semicolon-chained
    assert!(html.contains("onclick="));
    assert!(html.contains("set(&quot;a&quot;);go"));
    assert_eq!(html.matches("onclick=").count(), 1);
}

#[test]
fn web_component_wiring_and_registries() {
    let generator = ftd::html::HtmlGenerator::new("page");
    let node = ftd::executor::Node {
        node: String::from("my-card"),
        data_id: String::from("n1"),
        attrs: vec![],
        style: vec![],
        classes: vec![],
        text: Some(String::from("hi")),
        visible: true,
        events: vec![],
        children: vec![],
        null: false,
        raw_data: None,
        web_component: Some(ftd::executor::WebComponent {
            properties: vec![
                (
                    String::from("count"),
                    ftd::executor::WebRef {
                        reference: String::from("doc#count"),
                        mutable: true,
                    },
                ),
                (
                    String::from("title"),
                    ftd::executor::WebRef {
                        reference: String::from("doc#title"),
                        mutable: false,
                    },
                ),
            ],
        }),
    };
    let attrs = generator.attrs_to_html(&node);
    assert!(attrs.contains("count=\"window.ftd.mutable_value_page['doc#count']\""));
    assert!(attrs.contains("title=\"window.ftd.immutable_value_page['doc#title']\""));
    let nodes = vec![node];
    let (_, _, mutable, immutable) = generator.as_html_and_outer_events(&nodes);
    assert_eq!(mutable.as_str(), "doc#count");
    assert_eq!(immutable.as_str(), "doc#title");
}

#[test]
fn or_type_payload_survives_js_generation() {
    let v = ftd::interpreter::Value::OrType {
        name: String::from("ftd#length"),
        variant: String::from("ftd#length.px"),
        value: Box::new(ftd::interpreter::Value::Integer { value: 12 }),
    };
    assert_eq!(
        ftd::js::value_js(&v).unwrap().as_str(),
        "fastn_dom.Length.Px(12)"
    );
    let no_payload = ftd::interpreter::Value::OrType {
        name: String::from("ftd#border-style"),
        variant: String::from("ftd#border-style.dotted"),
        value: Box::new(ftd::interpreter::Value::Integer { value: 0 }),
    };
    assert_eq!(
        ftd::js::value_js(&no_payload).unwrap().as_str(),
        "fastn_dom.BorderStyle.Dotted"
    );
}

#[test]
fn dummy_fragment_keeps_sub_template_map() {
    let raw_child = ftd::executor::Node {
        node: String::from("item"),
        data_id: String::from("n3"),
        attrs: vec![],
        style: vec![],
        classes: vec![],
        text: None,
        visible: true,
        events: vec![],
        children: vec![],
        null: false,
        raw_data: Some(ftd::executor::RawNodeData {
            properties: vec![],
            iteration: None,
        }),
        web_component: None,
    };
    let generator = ftd::html::HtmlGenerator::new("page");
    let mut dummy = ftd::html::empty_raw();
    let (placeholder, events) = generator.as_dummy_html_(&raw_child, &mut dummy);
    assert_eq!(placeholder.as_str(), "item_0");
    assert!(events.is_empty());
    assert_eq!(dummy.helper_html.len(), 1);
    assert_eq!(dummy.helper_html[0].0.as_str(), "item_0");
    assert_eq!(dummy.helper_html[0].1.html.as_str(), "{item_0}");
}

#[test]
fn get_value_error_names_argument() {
    let required = ftd::interpreter::Argument {
        name: String::from("n"),
        kind: String::from("integer"),
        mutable: false,
        value: None,
        line_number: 1,
    };
    let empty: Vec<ftd::interpreter::Property> = Vec::new();
    match required.get_value(&empty) {
        Err(e) => assert_eq!(e.message.as_str(), "expected value for argument: n"),
        Ok(_) => panic!("a required argument with no value must fail"),
    }
}
