use serde_json::Value;
use stackdriver_logger::event::LogEvent;
use stackdriver_logger::fields::{CustomFields, FieldValue};
use stackdriver_logger::format::format_record;
use stackdriver_logger::json::document_to_json;
use stackdriver_logger::service::Service;
use stackdriver_logger::severity::Severity;

const CLOCK: &str = "2019-09-28T04:00:00.000000000+00:00";

fn event(severity: Severity, message: &str) -> LogEvent {
    LogEvent {
        severity,
        message: String::from(message),
        target: String::from("test_app"),
        file: Some(String::from("my_file.rs")),
        line: Some(1337),
        module: Some(String::from("my_module")),
        fields: CustomFields::new(),
    }
}

fn parse(s: &str) -> Value {
    serde_json::from_str(s).expect("the rendered document must be valid JSON")
}

#[test]
fn info_document_renders_expected_json() {
    let svc = Service {
        name: String::from("test"),
        version: String::from("0.0.0"),
    };
    let doc = format_record(&event(Severity::Info, "Info!"), Some(&svc), false, String::from(CLOCK));
    let text = document_to_json(&doc);
    let v = parse(&text);

    assert_eq!(v.get("eventTime").unwrap().as_str(), Some(CLOCK));
    assert_eq!(v.get("severity").unwrap().as_str(), Some("INFO"));
    assert_eq!(v.get("message").unwrap().as_str(), Some("Info!"));
    let ctx = v.get("serviceContext").unwrap();
    assert_eq!(ctx.get("service").unwrap().as_str(), Some("test"));
    assert_eq!(ctx.get("version").unwrap().as_str(), Some("0.0.0"));
    assert!(v.get("reportLocation").is_none());
}

#[test]
fn error_document_renders_expected_json() {
    let doc = format_record(&event(Severity::Error, "Error!"), None, false, String::from(CLOCK));
    let text = document_to_json(&doc);
    let v = parse(&text);

    assert_eq!(v.get("severity").unwrap().as_str(), Some("ERROR"));
    assert_eq!(
        v.get("message").unwrap().as_str(),
        Some("Error! \n at my_file.rs:1337")
    );
    assert!(v.get("serviceContext").is_none());
    assert!(v.get("reportLocation").is_none());

    let svc = Service {
        name: String::from("test"),
        version: String::from("0.0.0"),
    };
    let doc = format_record(&event(Severity::Error, "Error!"), Some(&svc), true, String::from(CLOCK));
    let v = parse(&document_to_json(&doc));
    let loc = v.get("reportLocation").unwrap();
    assert_eq!(loc.get("filePath").unwrap().as_str(), Some("my_file.rs"));
    assert_eq!(loc.get("modulePath").unwrap().as_str(), Some("my_module"));
    assert_eq!(loc.get("lineNumber").unwrap().as_u64(), Some(1337));
}

#[test]
fn custom_fields_become_top_level_keys() {
    let mut e = event(Severity::Info, "Info!");
    e.fields
        .visit_pair(String::from("a"), FieldValue::Str(String::from("a value")));
    e.fields
        .visit_pair(String::from("b"), FieldValue::Str(String::from("b value")));
    let doc = format_record(&e, None, false, String::from(CLOCK));
    let v = parse(&document_to_json(&doc));

    assert_eq!(v.get("a").unwrap().as_str(), Some("a value"));
    assert_eq!(v.get("b").unwrap().as_str(), Some("b value"));
    assert_eq!(v.get("message").unwrap().as_str(), Some("Info!"));
}

#[test]
fn missing_provenance_renders_as_null() {
    let mut e = event(Severity::Info, "m");
    e.file = None;
    e.line = None;
    let doc = format_record(&e, None, true, String::from(CLOCK));
    let v = parse(&document_to_json(&doc));
    let loc = v.get("reportLocation").unwrap();
    assert!(loc.get("filePath").unwrap().is_null());
    assert_eq!(loc.get("modulePath").unwrap().as_str(), Some("my_module"));
    assert!(loc.get("lineNumber").unwrap().is_null());
}

#[test]
fn awkward_characters_are_escaped() {
    let mut e = event(Severity::Info, "say \"hi\"\\\n\tdone\u{1}");
    e.fields.visit_pair(
        String::from("weird \"key\""),
        FieldValue::Str(String::from("line\nbreak")),
    );
    let doc = format_record(&e, None, false, String::from(CLOCK));
    let v = parse(&document_to_json(&doc));

    assert_eq!(
        v.get("message").unwrap().as_str(),
        Some("say \"hi\"\\\n\tdone\u{1}")
    );
    assert_eq!(
        v.get("weird \"key\"").unwrap().as_str(),
        Some("line\nbreak")
    );
}

#[test]
fn rendering_is_byte_identical_for_a_fixed_clock() {
    let svc = Service {
        name: String::from("test"),
        version: String::from("0.0.0"),
    };
    let mut e = event(Severity::Error, "again");
    e.fields.visit_pair(String::from("n"), FieldValue::Int(3));
    let one = document_to_json(&format_record(&e, Some(&svc), true, String::from(CLOCK)));
    let two = document_to_json(&format_record(&e, Some(&svc), true, String::from(CLOCK)));
    assert_eq!(one, two);
}
