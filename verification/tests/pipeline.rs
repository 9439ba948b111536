//! End-to-end checks of the four-stage pipeline and its stated laws, on
//! concrete documents.
use ftd::executor::ExecuteDoc;
use ftd::html::HtmlGenerator;
use ftd::interpreter::{interpret, interpret_helper, Interpreter, Thing, Value};

#[test]
fn parse_simple_section() {
    let secs = ftd::p11::parse("-- record point:\ninteger x:\ninteger y:\n", "doc").unwrap();
    assert_eq!(secs.len(), 1);
    assert_eq!(secs[0].name.as_str(), "point");
    assert_eq!(secs[0].kind.as_ref().unwrap().as_str(), "record");
    assert_eq!(secs[0].headers.len(), 2);
}

#[test]
fn parse_error_carries_line() {
    let r = ftd::p11::parse("stray text\n", "doc");
    match r {
        Err(ftd::p11::Error::SectionNotFound { doc_id, line_number }) => {
            assert_eq!(doc_id.as_str(), "doc");
            assert_eq!(line_number, 1);
        }
        other => panic!("expected a section-not-found error, got {:?}", other.is_ok()),
    }
}

#[test]
fn record_builds_from_section() {
    let secs = ftd::p11::parse("-- record point:\ninteger x:\ninteger y:\n", "doc").unwrap();
    let rec = ftd::di::Record::from_p1(&secs[0], "doc").unwrap();
    assert_eq!(rec.name().as_str(), "point");
    let fields = rec.fields();
    assert_eq!(fields.len(), 2);
    assert_eq!(fields[0].name().as_str(), "x");
    assert_eq!(fields[0].kind().as_str(), "integer");
    assert!(fields[0].value().is_none());
    assert_eq!(fields[1].name().as_str(), "y");
    assert_eq!(fields[1].kind().as_str(), "integer");
    assert!(fields[1].value().is_none());
}

#[test]
fn record_field_without_kind_is_error() {
    let secs = ftd::p11::parse("-- record point:\nx: 1\n", "doc").unwrap();
    assert!(ftd::di::Record::from_p1(&secs[0], "doc").is_err());
}

#[test]
fn pure_document_reaches_done_in_one_step() {
    let r = interpret("doc", "-- integer count: 7\n\n-- ftd.text: hello\n").unwrap();
    match r {
        Interpreter::Done { document } => {
            assert_eq!(document.name.as_str(), "doc");
            assert_eq!(document.tree.len(), 1);
        }
        _ => panic!("a document without imports or processors must not suspend"),
    }
}

#[test]
fn interpreter_reports_duplicates() {
    let r = interpret("doc", "-- integer x: 1\n\n-- integer x: 2\n");
    assert!(matches!(
        r,
        Err(ftd::interpreter::Error::DuplicateDefinition { .. })
    ));
}

#[test]
fn interpreter_resolves_variable_references() {
    let doc = interpret_helper("doc", "-- integer x: 5\n\n-- integer y: $x\n").unwrap();
    let mut seen = false;
    for (name, thing) in &doc.data {
        if name.as_str() == "doc#y" {
            if let Thing::Variable(v) = thing {
                if let ftd::interpreter::PropertyValue::Reference { name } = &v.value {
                    assert_eq!(name.as_str(), "doc#x");
                    seen = true;
                }
            }
        }
    }
    assert!(seen, "y must resolve to a reference to doc#x");
}

#[test]
fn unresolved_reference_is_error() {
    let r = interpret("doc", "-- integer y: $missing\n");
    assert!(matches!(
        r,
        Err(ftd::interpreter::Error::UnresolvedName { .. })
    ));
}

#[test]
fn processor_suspension_resumes_with_uppercased_value() {
    let doc = interpret_helper("doc", "-- string greeting: hello\nprocessor: shout\n");
    let doc = doc.unwrap();
    let mut seen = false;
    for (name, thing) in &doc.data {
        if name.as_str() == "doc#greeting" {
            if let Thing::Variable(v) = thing {
                if let ftd::interpreter::PropertyValue::Value {
                    value: Value::String { text },
                } = &v.value
                {
                    assert_eq!(text.as_str(), "HELLO");
                    seen = true;
                }
            }
        }
    }
    assert!(seen, "the processor value must land in the bag");
}

#[test]
fn foreign_variable_resumes_with_uppercased_name() {
    let doc =
        interpret_helper("doc", "-- import: test\n\n-- string y: $test.var\n").unwrap();
    let mut seen = false;
    for (name, thing) in &doc.data {
        if name.as_str() == "test#var" {
            if let Thing::Variable(v) = thing {
                if let ftd::interpreter::PropertyValue::Value {
                    value: Value::String { text },
                } = &v.value
                {
                    assert_eq!(text.as_str(), "VAR");
                    seen = true;
                }
            }
        }
    }
    assert!(seen, "the foreign variable must be bound under its module");
}

#[test]
fn missing_required_argument_names_it() {
    let doc = interpret_helper(
        "doc",
        "-- component card:\ninteger n:\n\n--- ftd.text: hi\n\n-- card:\n",
    )
    .unwrap();
    let r = ExecuteDoc::from_interpreter(doc);
    match r {
        Err(ftd::executor::Error::BindingFailure {
            argument,
            component,
            ..
        }) => {
            assert_eq!(argument.as_str(), "n");
            assert_eq!(component.as_str(), "doc#card");
        }
        _ => panic!("binding must fail and name the missing argument"),
    }
}

#[test]
fn bound_component_renders() {
    let doc = interpret_helper(
        "doc",
        "-- component card:\ninteger n:\n\n--- ftd.text: $n\n\n-- card:\nn: 4\n",
    )
    .unwrap();
    let rt = ExecuteDoc::from_interpreter(doc).unwrap();
    assert_eq!(rt.main.len(), 1);
}

#[test]
fn null_node_renders_to_nothing() {
    let doc = interpret_helper("doc", "-- ftd.text:\nif: true\n").unwrap();
    let rt = ExecuteDoc::from_interpreter(doc).unwrap();
    assert_eq!(rt.main.len(), 1);
    assert!(rt.main[0].is_null());
    let generator = HtmlGenerator::new("page");
    let (html, events) = generator.as_html_(&rt.main[0]);
    assert_eq!(html.as_str(), "");
    assert_eq!(events.len(), 0);
}

#[test]
fn outside_click_goes_to_outer_events_only() {
    let doc = interpret_helper(
        "doc",
        "-- ftd.text: hi\non-click-outside: do-it\non-click: go\n",
    )
    .unwrap();
    let rt = ExecuteDoc::from_interpreter(doc).unwrap();
    let generator = HtmlGenerator::new("page");
    let (html, events) = generator.as_html_(&rt.main[0]);
    assert_eq!(events.len(), 1);
    assert_eq!(events[0].1.as_str(), "click-outside");
    assert!(events[0].0.as_str().ends_with(":page"));
    assert!(!html.contains("clickoutside"));
    assert!(html.contains("onclick="));
}

#[test]
fn reactive_loop_emits_dummy_node() {
    let doc = interpret_helper(
        "doc",
        "-- string items: x\n\n-- ftd.text: $item\nrepeat: $items\nas: item\n",
    )
    .unwrap();
    let rt = ExecuteDoc::from_interpreter(doc).unwrap();
    assert_eq!(rt.main.len(), 1);
    assert!(rt.main[0].raw_data.is_some());
    let generator = HtmlGenerator::new("page");
    let (html, _) = generator.as_html_(&rt.main[0]);
    assert!(html.starts_with('{') && html.ends_with('}'));
}

#[test]
fn idempotent_output() {
    let source = "-- integer count: 7\n\n-- ftd.text: hello\non-click: go\n";
    let render = || {
        let doc = interpret_helper("doc", source).unwrap();
        let rt = ExecuteDoc::from_interpreter(doc).unwrap();
        let generator = HtmlGenerator::new("page");
        generator.as_html_and_outer_events(&rt.main)
    };
    let a = render();
    let b = render();
    assert_eq!(a.0, b.0);
    assert_eq!(a.1, b.1);
}

#[test]
fn html_ui_assembles() {
    let doc = interpret_helper(
        "doc",
        "-- integer count: 7\n\n-- function double:\ninteger a:\n\na * 2\n\n-- ftd.text: hi\n",
    )
    .unwrap();
    let rt = ExecuteDoc::from_interpreter(doc).unwrap();
    let ui = ftd::html::HtmlUI::from_node_data(&rt, "page").unwrap();
    assert!(ui.html.contains("<div"));
    assert!(ui.functions.contains("function doc_double_page(a)"));
    assert!(ui.functions.contains("return (a.value*2);"));
    assert!(ui.variables.contains("doc#count: integer"));
}
