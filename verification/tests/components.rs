use stackdriver_logger::decimal::{i64_to_decimal, u64_to_decimal};
use stackdriver_logger::fields::{CustomFields, FieldValue};
use stackdriver_logger::filter::{is_allowed, parse_ignored_paths};
use stackdriver_logger::init::{init, init_with, try_init, LoggerError, LoggerState, SinkConfig};
use stackdriver_logger::service::Service;
use stackdriver_logger::severity::{map_severity, Severity, SeverityToken};

#[test]
fn severity_mapping_table() {
    assert_eq!(map_severity(Severity::Error), SeverityToken::Error);
    assert_eq!(map_severity(Severity::Warn), SeverityToken::Warning);
    assert_eq!(map_severity(Severity::Info), SeverityToken::Info);
    assert_eq!(map_severity(Severity::Debug), SeverityToken::Debug);
    assert_eq!(map_severity(Severity::Trace), SeverityToken::Debug);
}

#[test]
fn severity_tokens_render_uppercase() {
    assert_eq!(map_severity(Severity::Error).as_str(), "ERROR");
    assert_eq!(map_severity(Severity::Warn).as_str(), "WARNING");
    assert_eq!(map_severity(Severity::Info).as_str(), "INFO");
    assert_eq!(map_severity(Severity::Trace).as_str(), "DEBUG");
}

#[test]
fn decimal_rendering() {
    assert_eq!(u64_to_decimal(0), "0");
    assert_eq!(u64_to_decimal(1337), "1337");
    assert_eq!(u64_to_decimal(u64::MAX), "18446744073709551615");
    assert_eq!(i64_to_decimal(0), "0");
    assert_eq!(i64_to_decimal(-1), "-1");
    assert_eq!(i64_to_decimal(42), "42");
    assert_eq!(i64_to_decimal(i64::MIN), "-9223372036854775808");
}

#[test]
fn field_values_display_naturally() {
    assert_eq!(
        FieldValue::Str(String::from("plain")).to_display_string(),
        "plain"
    );
    assert_eq!(FieldValue::Int(-7).to_display_string(), "-7");
    assert_eq!(FieldValue::Bool(true).to_display_string(), "true");
    assert_eq!(FieldValue::Bool(false).to_display_string(), "false");
}

#[test]
fn custom_fields_sort_and_overwrite() {
    let mut fields = CustomFields::new();
    fields.visit_pair(String::from("zeta"), FieldValue::Int(1));
    fields.visit_pair(String::from("alpha"), FieldValue::Int(2));
    fields.visit_pair(String::from("mid"), FieldValue::Int(3));
    fields.visit_pair(String::from("zeta"), FieldValue::Int(9));

    let pairs = fields.inner();
    assert_eq!(pairs.len(), 3);
    assert_eq!(pairs[0].0, "alpha");
    assert_eq!(pairs[0].1.to_display_string(), "2");
    assert_eq!(pairs[1].0, "mid");
    assert_eq!(pairs[2].0, "zeta");
    assert_eq!(pairs[2].1.to_display_string(), "9");
}

#[test]
fn ignored_paths_parsing_discards_empty_segments() {
    let parsed = parse_ignored_paths("");
    assert!(parsed.is_empty());

    let parsed = parse_ignored_paths(",,,");
    assert!(parsed.is_empty());

    let parsed = parse_ignored_paths(",one,,two,");
    assert_eq!(parsed, vec!["one", "two"]);

    let parsed = parse_ignored_paths("solo");
    assert_eq!(parsed, vec!["solo"]);

    let parsed = parse_ignored_paths(" spaced , kept");
    assert_eq!(parsed, vec![" spaced ", " kept"]);
}

#[test]
fn path_filter_matches_exactly() {
    let ignored = parse_ignored_paths("some::module,other");
    assert!(!is_allowed("some::module", &ignored));
    assert!(!is_allowed("other", &ignored));
    assert!(is_allowed("some::module::sub", &ignored));
    assert!(is_allowed("some::modul", &ignored));
    assert!(is_allowed("unrelated", &ignored));
}

#[test]
fn service_resolution_needs_one_part() {
    assert!(Service::from_parts(String::new(), String::new()).is_none());
    let svc = Service::from_parts(String::from("svc"), String::new()).unwrap();
    assert_eq!(svc.name, "svc");
    assert_eq!(svc.version, "");
    let svc = Service::from_parts(String::new(), String::from("1.2.3")).unwrap();
    assert_eq!(svc.name, "");
    assert_eq!(svc.version, "1.2.3");
}

#[test]
fn initialization_happens_once() {
    let mut state = LoggerState::new();
    let svc = Service {
        name: String::from("svc"),
        version: String::from("1"),
    };
    let r = try_init(&mut state, false, Some(svc), true, true);
    assert!(r.is_ok());
    match &state.sink {
        Some(SinkConfig::Structured { service, options }) => {
            assert_eq!(service.as_ref().unwrap().name, "svc");
            assert!(options.report_location);
        }
        _ => panic!("expected the structured sink"),
    }

    let r = try_init(&mut state, false, None, false, true);
    assert_eq!(r, Err(LoggerError::AlreadyInitialized));
}

#[test]
fn refused_installation_is_reported_and_leaves_no_sink() {
    let mut state = LoggerState::new();
    let r = try_init(&mut state, false, None, true, false);
    assert_eq!(r, Err(LoggerError::SinkInstallFailure));
    assert!(state.sink.is_none());

    let r = try_init(&mut state, true, None, true, true);
    assert!(r.is_ok());
    match &state.sink {
        Some(SinkConfig::Pretty) => {}
        _ => panic!("expected the pretty sink"),
    }
}

#[test]
fn convenience_initializers_install_their_modes() {
    let mut state = LoggerState::new();
    init(&mut state, false, None, true);
    match &state.sink {
        Some(SinkConfig::Structured { service, options }) => {
            assert!(service.is_none());
            assert!(options.report_location);
        }
        _ => panic!("expected the structured sink"),
    }

    let mut state = LoggerState::new();
    let svc = Service {
        name: String::from("My Service"),
        version: String::from("2.3.1"),
    };
    init_with(&mut state, false, Some(svc), false, true);
    match &state.sink {
        Some(SinkConfig::Structured { service, options }) => {
            assert_eq!(service.as_ref().unwrap().name, "My Service");
            assert!(!options.report_location);
        }
        _ => panic!("expected the structured sink"),
    }
}
