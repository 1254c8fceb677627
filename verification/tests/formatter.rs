use stackdriver_logger::document::Document;
use stackdriver_logger::event::LogEvent;
use stackdriver_logger::fields::{CustomFields, FieldValue};
use stackdriver_logger::filter::parse_ignored_paths;
use stackdriver_logger::format::{
    format_record, format_record_now, format_record_pretty, format_record_with, process_event,
    FormatOptions, ServicePolicy,
};
use stackdriver_logger::service::Service;
use stackdriver_logger::severity::{Severity, SeverityToken};

const CLOCK: &str = "2019-09-28T04:00:00.000000000+00:00";

fn test_service() -> Service {
    Service {
        name: String::from("test"),
        version: String::from("0.0.0"),
    }
}

fn test_event(severity: Severity, message: &str) -> LogEvent {
    LogEvent {
        severity,
        message: String::from(message),
        target: String::from("test_app"),
        file: Some(String::from("my_file.rs")),
        line: Some(1337),
        module: Some(String::from("my_module")),
        fields: CustomFields::new(),
    }
}

fn assert_required_keys(doc: &Document, severity: SeverityToken, message: &str) {
    assert_eq!(doc.event_time, CLOCK);
    assert_eq!(doc.severity, severity);
    assert_eq!(doc.message, message);
}

#[test]
fn info_formatter() {
    let svc = test_service();
    let event = test_event(Severity::Info, "Info!");

    let output = format_record(&event, Some(&svc), false, String::from(CLOCK));

    assert!(!output.event_time.is_empty());
    assert_required_keys(&output, SeverityToken::Info, "Info!");
    assert_eq!(output.severity.as_str(), "INFO");
    let ctx = output.service_context.expect("serviceContext must be present");
    assert_eq!(ctx.service, "test");
    assert_eq!(ctx.version, "0.0.0");
    assert!(output.report_location.is_none());
    assert!(output.custom.is_empty());
}

#[test]
fn error_formatter() {
    let svc = test_service();
    let event = test_event(Severity::Error, "Error!");

    let output = format_record(&event, None, false, String::from(CLOCK));
    assert!(!output.event_time.is_empty());
    assert_required_keys(&output, SeverityToken::Error, "Error! \n at my_file.rs:1337");
    assert_eq!(output.severity.as_str(), "ERROR");
    assert!(output.service_context.is_none());
    assert!(output.report_location.is_none());
    assert!(output.custom.is_empty());

    let output = format_record(&event, Some(&svc), true, String::from(CLOCK));
    assert!(!output.event_time.is_empty());
    assert_required_keys(&output, SeverityToken::Error, "Error! \n at my_file.rs:1337");
    let ctx = output.service_context.expect("serviceContext must be present");
    assert_eq!(ctx.service, "test");
    assert_eq!(ctx.version, "0.0.0");
    let loc = output.report_location.expect("reportLocation must be present");
    assert_eq!(loc.file_path.as_deref(), Some("my_file.rs"));
    assert_eq!(loc.module.as_deref(), Some("my_module"));
    assert_eq!(loc.line_number, Some(1337));
    assert!(output.custom.is_empty());
}

#[test]
fn custom_fields_formatter() {
    let svc = test_service();
    let mut event = test_event(Severity::Info, "Info!");
    event
        .fields
        .visit_pair(String::from("a"), FieldValue::Str(String::from("a value")));
    event
        .fields
        .visit_pair(String::from("b"), FieldValue::Str(String::from("b value")));

    let output = format_record(&event, Some(&svc), false, String::from(CLOCK));

    assert!(!output.event_time.is_empty());
    assert_required_keys(&output, SeverityToken::Info, "Info!");
    let ctx = output.service_context.expect("serviceContext must be present");
    assert_eq!(ctx.service, "test");
    assert_eq!(ctx.version, "0.0.0");
    assert!(output.report_location.is_none());
    assert_eq!(output.custom.len(), 2);
    assert_eq!(output.custom[0].0, "a");
    assert_eq!(output.custom[0].1, "a value");
    assert_eq!(output.custom[1].0, "b");
    assert_eq!(output.custom[1].1, "b value");
}

#[test]
fn custom_fields_formatter_pretty() {
    let mut event = test_event(Severity::Info, "Info!");
    event
        .fields
        .visit_pair(String::from("a"), FieldValue::Str(String::from("a value")));
    event
        .fields
        .visit_pair(String::from("b"), FieldValue::Str(String::from("b value")));

    let output = format_record_pretty(&event);
    let expected = "Info! a=a value, b=b value";

    assert_eq!(output, expected);
}

#[test]
fn pretty_without_fields_is_the_message() {
    let event = test_event(Severity::Warn, "plain");
    assert_eq!(format_record_pretty(&event), "plain");
}

#[test]
fn error_message_substitutes_missing_provenance() {
    let mut event = test_event(Severity::Error, "boom");
    event.file = None;
    event.line = None;
    let output = format_record(&event, None, false, String::from(CLOCK));
    assert_eq!(output.message, "boom \n at unknown_file:0");

    let mut event = test_event(Severity::Error, "boom");
    event.line = None;
    let output = format_record(&event, None, false, String::from(CLOCK));
    assert_eq!(output.message, "boom \n at my_file.rs:0");
}

#[test]
fn non_error_messages_are_verbatim() {
    for severity in [Severity::Trace, Severity::Debug, Severity::Info, Severity::Warn] {
        let event = test_event(severity, "as written");
        let output = format_record(&event, None, false, String::from(CLOCK));
        assert_eq!(output.message, "as written");
    }
}

#[test]
fn report_location_follows_the_switch_alone() {
    for severity in [Severity::Info, Severity::Error] {
        let event = test_event(severity, "m");
        let with = format_record(&event, None, true, String::from(CLOCK));
        assert!(with.report_location.is_some());
        let without = format_record(&event, None, false, String::from(CLOCK));
        assert!(without.report_location.is_none());
    }
}

#[test]
fn empty_identity_is_omitted() {
    let svc = Service {
        name: String::new(),
        version: String::new(),
    };
    let event = test_event(Severity::Info, "m");
    let output = format_record(&event, Some(&svc), false, String::from(CLOCK));
    assert!(output.service_context.is_none());
}

#[test]
fn partial_identity_is_still_emitted() {
    let svc = Service {
        name: String::from("only-name"),
        version: String::new(),
    };
    let event = test_event(Severity::Info, "m");
    let output = format_record(&event, Some(&svc), false, String::from(CLOCK));
    let ctx = output.service_context.expect("a partial identity is emitted");
    assert_eq!(ctx.service, "only-name");
    assert_eq!(ctx.version, "");
}

#[test]
fn fallback_policy_emits_unknown_service() {
    let event = test_event(Severity::Info, "m");
    let options = FormatOptions {
        report_location: false,
        service_policy: ServicePolicy::FallbackLiteral,
        custom_fields: true,
    };
    let output = format_record_with(&event, None, options, String::from(CLOCK));
    let ctx = output.service_context.expect("fallback context present");
    assert_eq!(ctx.service, "unknown_service");
    assert_eq!(ctx.version, "");
}

#[test]
fn custom_fields_can_be_disabled() {
    let mut event = test_event(Severity::Info, "m");
    event
        .fields
        .visit_pair(String::from("a"), FieldValue::Str(String::from("v")));
    let options = FormatOptions {
        report_location: false,
        service_policy: ServicePolicy::Omit,
        custom_fields: false,
    };
    let output = format_record_with(&event, None, options, String::from(CLOCK));
    assert!(output.custom.is_empty());
}

#[test]
fn reserved_keys_are_never_overwritten() {
    let mut event = test_event(Severity::Info, "m");
    event
        .fields
        .visit_pair(String::from("message"), FieldValue::Str(String::from("hijack")));
    event
        .fields
        .visit_pair(String::from("ok"), FieldValue::Str(String::from("kept")));
    let output = format_record(&event, None, false, String::from(CLOCK));
    assert_eq!(output.message, "m");
    assert_eq!(output.custom.len(), 1);
    assert_eq!(output.custom[0].0, "ok");
    assert_eq!(output.custom[0].1, "kept");
}

#[test]
fn formatting_is_deterministic_for_a_fixed_clock() {
    let svc = test_service();
    let mut event = test_event(Severity::Error, "again");
    event
        .fields
        .visit_pair(String::from("k"), FieldValue::Int(-42));

    let one = format_record(&event, Some(&svc), true, String::from(CLOCK));
    let two = format_record(&event, Some(&svc), true, String::from(CLOCK));

    assert_eq!(one.event_time, two.event_time);
    assert_eq!(one.severity, two.severity);
    assert_eq!(one.message, two.message);
    assert_eq!(one.custom, two.custom);
    let c1 = one.service_context.expect("present");
    let c2 = two.service_context.expect("present");
    assert_eq!(c1.service, c2.service);
    assert_eq!(c1.version, c2.version);
    let l1 = one.report_location.expect("present");
    let l2 = two.report_location.expect("present");
    assert_eq!(l1.file_path, l2.file_path);
    assert_eq!(l1.module, l2.module);
    assert_eq!(l1.line_number, l2.line_number);
}

#[test]
fn ignored_targets_are_never_formatted() {
    let ignored = parse_ignored_paths("test_app,noisy");
    let event = test_event(Severity::Info, "m");
    let dropped = process_event(&event, None, false, &ignored, String::from(CLOCK));
    assert!(dropped.is_none());

    let mut event = test_event(Severity::Info, "m");
    event.target = String::from("test_app::sub");
    let kept = process_event(&event, None, false, &ignored, String::from(CLOCK));
    let doc = kept.expect("a non-matching target is formatted");
    assert_eq!(doc.message, "m");
}

#[test]
fn clocked_formatting_sets_an_event_time() {
    let event = test_event(Severity::Info, "m");
    let output = format_record_now(&event, None, false);
    assert!(!output.event_time.is_empty());
}
