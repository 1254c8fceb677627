//! The record formatter: composes one structured document from a log event,
//! the severity mapping, an optional service identity, an optional source
//! location block, and the collected custom fields.

use crate::clock::now_rfc3339;
use crate::decimal::{decimal_digits, u64_to_decimal};
use crate::document::{
    context_view, custom_view, location_view, Document, DocumentModel, LocationModel,
    ReportLocation, ServiceContext, ServiceContextModel,
};
use crate::event::{EventModel, LogEvent};
use crate::filter::{is_allowed, spec_allowed};
use crate::service::{spec_resolvable, Service, ServiceModel};
use crate::severity::{map_severity, spec_map_severity, Severity};
use vstd::prelude::*;
use vstd::string::StringExecFns;

verus! {

/// How `serviceContext` behaves when no identity is resolvable: omitted —
/// the default — or replaced by the literal `unknown_service` fallback.
#[derive(Clone, Copy, PartialEq, Eq, Structural, Debug)]
pub enum ServicePolicy {
    Omit,
    FallbackLiteral,
}

/// The formatter's per-process configuration, resolved once at
/// initialization rather than compiled in or out.
#[derive(Clone, Copy, PartialEq, Eq, Structural, Debug)]
pub struct FormatOptions {
    /// Whether the `reportLocation` block is included.
    pub report_location: bool,
    /// What happens to `serviceContext` without a resolvable identity.
    pub service_policy: ServicePolicy,
    /// Whether custom fields are collected into the document at all.
    pub custom_fields: bool,
}

/// The default configuration for a given location switch: context omitted
/// when absent, custom fields on.
pub open spec fn spec_default_options(report_location: bool) -> FormatOptions {
    FormatOptions { report_location, service_policy: ServicePolicy::Omit, custom_fields: true }
}

/// An optional borrowed identity as the contracts see it.
pub open spec fn service_ref_view(s: Option<&Service>) -> Option<ServiceModel> {
    match s {
        Some(s) => Some(s@),
        None => None,
    }
}

/// The line number rendered into an error message: `0` when none was
/// captured.
pub open spec fn spec_line_or_zero(line: Option<u32>) -> nat {
    match line {
        Some(l) => l as nat,
        None => 0,
    }
}

/// The pseudo stack trace form of an error message: the message followed by
/// ` \n at <file>:<line>`, with `unknown_file` and `0` substituted for
/// missing provenance.
pub open spec fn spec_error_message(
    message: Seq<char>,
    file: Option<Seq<char>>,
    line: Option<u32>,
) -> Seq<char> {
    message + " \n at "@ + (match file {
        Some(f) => f,
        None => "unknown_file"@,
    }) + ":"@ + decimal_digits(spec_line_or_zero(line))
}

/// The `message` key of the document: augmented for error-level events,
/// verbatim for every other severity.
pub open spec fn spec_message(e: EventModel) -> Seq<char> {
    if e.severity == Severity::Error {
        spec_error_message(e.message, e.file, e.line)
    } else {
        e.message
    }
}

/// The `serviceContext` block when no identity is resolvable: absent under
/// the omission policy, the `unknown_service` literal with an empty version
/// under the fallback policy.
pub open spec fn spec_absent_context(policy: ServicePolicy) -> Option<ServiceContextModel> {
    match policy {
        ServicePolicy::Omit => None,
        ServicePolicy::FallbackLiteral => Some(
            ServiceContextModel { service: "unknown_service"@, version: Seq::<char>::empty() },
        ),
    }
}

/// The `serviceContext` block: the identity verbatim when resolvable (a
/// partially filled identity is still emitted), the policy's absent form
/// otherwise.
pub open spec fn spec_service_context(svc: Option<ServiceModel>, policy: ServicePolicy) -> Option<
    ServiceContextModel,
> {
    match svc {
        Some(s) => if spec_resolvable(s.name, s.version) {
            Some(ServiceContextModel { service: s.name, version: s.version })
        } else {
            spec_absent_context(policy)
        },
        None => spec_absent_context(policy),
    }
}

/// The `reportLocation` block: the event's provenance verbatim when
/// inclusion was requested, absent otherwise.
pub open spec fn spec_location(e: EventModel, with_location: bool) -> Option<LocationModel> {
    if with_location {
        Some(LocationModel { file_path: e.file, module: e.module, line_number: e.line })
    } else {
        None
    }
}

/// The document's reserved keys, which a custom field must never overwrite.
pub open spec fn is_reserved_key(k: Seq<char>) -> bool {
    k == "eventTime"@ || k == "message"@ || k == "severity"@ || k == "serviceContext"@ || k
        == "reportLocation"@
}

/// The custom pairs carried into the document: the event's fields with
/// reserved keys dropped when the feature is on, nothing when it is off.
pub open spec fn spec_custom(fields: Seq<(Seq<char>, Seq<char>)>, enabled: bool) -> Seq<
    (Seq<char>, Seq<char>),
> {
    if enabled {
        fields.filter(|e: (Seq<char>, Seq<char>)| !is_reserved_key(e.0))
    } else {
        Seq::empty()
    }
}

/// What `format_record_with` returns: the whole document, pinned key by key.
pub open spec fn spec_format(
    e: EventModel,
    svc: Option<ServiceModel>,
    opts: FormatOptions,
    time: Seq<char>,
) -> DocumentModel {
    DocumentModel {
        event_time: time,
        severity: spec_map_severity(e.severity),
        message: spec_message(e),
        service_context: spec_service_context(svc, opts.service_policy),
        report_location: spec_location(e, opts.report_location),
        custom: spec_custom(e.fields, opts.custom_fields),
    }
}

fn build_message(event: &LogEvent) -> (r: String)
    ensures
        r@ == spec_message(event@),
{
    match event.severity {
        Severity::Error => {
            let m = event.message.clone().concat(" \n at ");
            let m = match &event.file {
                Some(f) => m.concat(f.as_str()),
                None => m.concat("unknown_file"),
            };
            let m = m.concat(":");
            let line: u64 = match event.line {
                Some(l) => l as u64,
                None => 0,
            };
            let digits = u64_to_decimal(line);
            let m = m.concat(digits.as_str());
            proof {
                assert(m@ =~= spec_error_message(event@.message, event@.file, event@.line));
            }
            m
        },
        _ => event.message.clone(),
    }
}

fn is_reserved(key: &String) -> (r: bool)
    ensures
        r == is_reserved_key(key@),
{
    *key == String::from_str("eventTime") || *key == String::from_str("message") || *key
        == String::from_str("severity") || *key == String::from_str("serviceContext") || *key
        == String::from_str("reportLocation")
}

/// Filtering one more pair extends what was kept of the pairs before it.
proof fn lemma_custom_step(fields: Seq<(Seq<char>, Seq<char>)>, i: int)
    requires
        0 <= i < fields.len(),
    ensures
        is_reserved_key(fields[i].0) ==> spec_custom(fields.take(i + 1), true) == spec_custom(
            fields.take(i),
            true,
        ),
        !is_reserved_key(fields[i].0) ==> spec_custom(fields.take(i + 1), true) == spec_custom(
            fields.take(i),
            true,
        ).push(fields[i]),
{
    reveal(Seq::filter);
    let s1 = fields.take(i + 1);
    assert(s1.drop_last() =~= fields.take(i));
    assert(s1.last() == fields[i]);
}

fn collect_custom(event: &LogEvent, enabled: bool) -> (r: Vec<(String, String)>)
    ensures
        custom_view(r@) == spec_custom(event@.fields, enabled),
{
    let mut out: Vec<(String, String)> = Vec::new();
    proof {
        assert(custom_view(out@) =~= Seq::<(Seq<char>, Seq<char>)>::empty());
    }
    if !enabled {
        return out;
    }
    let ghost fm = event@.fields;
    let pairs = event.fields.inner();
    let n = pairs.len();
    let mut i: usize = 0;
    proof {
        assert(fm.take(0) =~= Seq::<(Seq<char>, Seq<char>)>::empty());
        reveal(Seq::filter);
    }
    while i < n
        invariant
            i <= n,
            n == pairs@.len(),
            n == fm.len(),
            forall|j: int|
                0 <= j < n ==> (#[trigger] pairs@[j]).0@ == fm[j].0 && crate::fields::spec_display(
                    pairs@[j].1,
                ) == fm[j].1,
            custom_view(out@) == spec_custom(fm.take(i as int), true),
        decreases n - i,
    {
        proof {
            lemma_custom_step(fm, i as int);
        }
        let ghost old_out = out@;
        let pair = &pairs[i];
        if !is_reserved(&pair.0) {
            let val = pair.1.to_display_string();
            out.push((pair.0.clone(), val));
            proof {
                assert(custom_view(out@) =~= custom_view(old_out).push(fm[i as int]));
            }
        }
        i = i + 1;
    }
    proof {
        assert(fm.take(n as int) =~= fm);
    }
    out
}

fn build_service_context(service: Option<&Service>, policy: ServicePolicy) -> (r: Option<
    ServiceContext,
>)
    ensures
        context_view(r) == spec_service_context(service_ref_view(service), policy),
{
    let resolvable = match service {
        Some(s) => !(s.name.as_str().is_empty() && s.version.as_str().is_empty()),
        None => false,
    };
    if resolvable {
        match service {
            Some(s) => Some(
                ServiceContext { service: s.name.clone(), version: s.version.clone() },
            ),
            None => None,
        }
    } else {
        match policy {
            ServicePolicy::Omit => None,
            ServicePolicy::FallbackLiteral => Some(
                ServiceContext {
                    service: String::from_str("unknown_service"),
                    version: String::new(),
                },
            ),
        }
    }
}

fn build_location(event: &LogEvent, with_location: bool) -> (r: Option<ReportLocation>)
    ensures
        location_view(r) == spec_location(event@, with_location),
{
    if with_location {
        let file_path = match &event.file {
            Some(f) => Some(f.clone()),
            None => None,
        };
        let module = match &event.module {
            Some(m) => Some(m.clone()),
            None => None,
        };
        Some(ReportLocation { file_path, module, line_number: event.line })
    } else {
        None
    }
}

/// Formats one event into its document, fully parameterized: the injected
/// clock reading becomes `eventTime`, and the options choose the
/// conditional blocks.  Total: it never fails, whatever the event holds.
pub fn format_record_with(
    event: &LogEvent,
    service: Option<&Service>,
    options: FormatOptions,
    event_time: String,
) -> (doc: Document)
    ensures
        doc@ == spec_format(event@, service_ref_view(service), options, event_time@),
{
    let message = build_message(event);
    let severity = map_severity(event.severity);
    let service_context = build_service_context(service, options.service_policy);
    let report_location = build_location(event, options.report_location);
    let custom = collect_custom(event, options.custom_fields);
    Document { event_time, severity, message, service_context, report_location, custom }
}

/// Formats one event into its document under the default configuration:
/// context omitted when no identity is resolvable, custom fields on.
pub fn format_record(
    event: &LogEvent,
    service: Option<&Service>,
    report_location: bool,
    event_time: String,
) -> (doc: Document)
    ensures
        doc@ == spec_format(
            event@,
            service_ref_view(service),
            spec_default_options(report_location),
            event_time@,
        ),
{
    let options = FormatOptions {
        report_location,
        service_policy: ServicePolicy::Omit,
        custom_fields: true,
    };
    format_record_with(event, service, options, event_time)
}

/// Formats one event with the clock read at invocation: the document is the
/// deterministic image of the event under whatever reading the clock gave.
pub fn format_record_now(event: &LogEvent, service: Option<&Service>, report_location: bool) -> (doc:
    Document)
    ensures
        doc@ == spec_format(
            event@,
            service_ref_view(service),
            spec_default_options(report_location),
            doc@.event_time,
        ),
{
    let event_time = now_rfc3339();
    format_record(event, service, report_location, event_time)
}

/// The per-event production step: an event whose target equals an ignored
/// entry is dropped before formatting; every other event is formatted.
pub fn process_event(
    event: &LogEvent,
    service: Option<&Service>,
    report_location: bool,
    ignored: &Vec<String>,
    event_time: String,
) -> (r: Option<Document>)
    ensures
        !spec_allowed(ignored.deep_view(), event@.target) ==> r is None,
        spec_allowed(ignored.deep_view(), event@.target) ==> (r matches Some(doc) && doc@
            == spec_format(
            event@,
            service_ref_view(service),
            spec_default_options(report_location),
            event_time@,
        )),
{
    if is_allowed(event.target.as_str(), ignored) {
        Some(format_record(event, service, report_location, event_time))
    } else {
        None
    }
}

/// The joined `key=value` parts of the pretty form, comma-separated, in
/// key order.
pub open spec fn spec_pretty_parts(fields: Seq<(Seq<char>, Seq<char>)>) -> Seq<char>
    decreases fields.len(),
{
    if fields.len() == 0 {
        Seq::empty()
    } else if fields.len() == 1 {
        fields[0].0 + "="@ + fields[0].1
    } else {
        spec_pretty_parts(fields.drop_last()) + ", "@ + fields.last().0 + "="@ + fields.last().1
    }
}

/// The human-readable developer form of an event: its message, followed —
/// when any custom field was attached — by the fields as `key=value`
/// pairs, comma-joined, in key order.
pub open spec fn spec_pretty(e: EventModel) -> Seq<char> {
    if e.fields.len() == 0 {
        e.message
    } else {
        e.message + " "@ + spec_pretty_parts(e.fields)
    }
}

/// Joining one more `key=value` part extends the joined parts before it.
proof fn lemma_pretty_step(fields: Seq<(Seq<char>, Seq<char>)>, i: int)
    requires
        0 <= i < fields.len(),
    ensures
        i == 0 ==> spec_pretty_parts(fields.take(1)) == fields[0].0 + "="@ + fields[0].1,
        i > 0 ==> spec_pretty_parts(fields.take(i + 1)) == spec_pretty_parts(fields.take(i))
            + ", "@ + fields[i].0 + "="@ + fields[i].1,
{
    let s1 = fields.take(i + 1);
    if i == 0 {
        assert(s1[0] == fields[0]);
    } else {
        assert(s1.drop_last() =~= fields.take(i));
        assert(s1.last() == fields[i]);
    }
}

/// Renders one event in the human-readable developer form.
pub fn format_record_pretty(event: &LogEvent) -> (r: String)
    ensures
        r@ == spec_pretty(event@),
{
    let ghost fm = event@.fields;
    let pairs = event.fields.inner();
    let n = pairs.len();
    if n == 0 {
        return event.message.clone();
    }
    let mut acc = event.message.clone().concat(" ");
    let mut i: usize = 0;
    proof {
        assert(fm.take(0) =~= Seq::<(Seq<char>, Seq<char>)>::empty());
        assert(acc@ =~= event@.message + " "@ + spec_pretty_parts(fm.take(0)));
    }
    while i < n
        invariant
            i <= n,
            n == pairs@.len(),
            n == fm.len(),
            n > 0,
            forall|j: int|
                0 <= j < n ==> (#[trigger] pairs@[j]).0@ == fm[j].0 && crate::fields::spec_display(
                    pairs@[j].1,
                ) == fm[j].1,
            acc@ == event@.message + " "@ + spec_pretty_parts(fm.take(i as int)),
        decreases n - i,
    {
        proof {
            lemma_pretty_step(fm, i as int);
        }
        if i > 0 {
            acc = acc.concat(", ");
        }
        let pair = &pairs[i];
        acc = acc.concat(pair.0.as_str());
        acc = acc.concat("=");
        let val = pair.1.to_display_string();
        acc = acc.concat(val.as_str());
        proof {
            assert(acc@ =~= event@.message + " "@ + spec_pretty_parts(fm.take(i + 1)));
        }
        i = i + 1;
    }
    proof {
        assert(fm.take(n as int) =~= fm);
    }
    acc
}

/// Law: for every error-level event the formatted message is the event's
/// message followed by the pseudo stack trace suffix ` \n at <file>:<line>`,
/// with `unknown_file` and `0` substituted for missing provenance — so it
/// always ends with that literal pattern.
pub proof fn lemma_error_message_augmented(
    e: EventModel,
    svc: Option<ServiceModel>,
    opts: FormatOptions,
    time: Seq<char>,
)
    requires
        e.severity == Severity::Error,
    ensures
        spec_format(e, svc, opts, time).message == e.message + " \n at "@ + (match e.file {
            Some(f) => f,
            None => "unknown_file"@,
        }) + ":"@ + decimal_digits(spec_line_or_zero(e.line)),
{
}

/// Law: for every event below error level the formatted message is the
/// event's message verbatim.
pub proof fn lemma_non_error_message_verbatim(
    e: EventModel,
    svc: Option<ServiceModel>,
    opts: FormatOptions,
    time: Seq<char>,
)
    requires
        e.severity != Severity::Error,
    ensures
        spec_format(e, svc, opts, time).message == e.message,
{
}

/// Law: `reportLocation` is absent from the document exactly when location
/// inclusion was off at format time, whatever the severity.
pub proof fn lemma_location_absent_iff(
    e: EventModel,
    svc: Option<ServiceModel>,
    opts: FormatOptions,
    time: Seq<char>,
)
    ensures
        spec_format(e, svc, opts, time).report_location is None <==> !opts.report_location,
{
}

/// Law: under the omission policy, `serviceContext` is absent exactly when
/// no identity was resolvable — none supplied, or both name and version
/// empty.
pub proof fn lemma_service_context_absent_iff(
    e: EventModel,
    svc: Option<ServiceModel>,
    opts: FormatOptions,
    time: Seq<char>,
)
    requires
        opts.service_policy == ServicePolicy::Omit,
    ensures
        spec_format(e, svc, opts, time).service_context is None <==> (match svc {
            Some(s) => !spec_resolvable(s.name, s.version),
            None => true,
        }),
{
}

/// A pair passes the reserved-key filter exactly when the fields held it
/// and its key is not reserved.
proof fn lemma_filter_contains_iff(
    fields: Seq<(Seq<char>, Seq<char>)>,
    pair: (Seq<char>, Seq<char>),
)
    ensures
        spec_custom(fields, true).contains(pair) <==> fields.contains(pair) && !is_reserved_key(
            pair.0,
        ),
    decreases fields.len(),
{
    reveal(Seq::filter);
    if fields.len() == 0 {
        assert(!fields.contains(pair));
    } else {
        lemma_filter_contains_iff(fields.drop_last(), pair);
        let kept = spec_custom(fields, true);
        let sub = spec_custom(fields.drop_last(), true);
        if fields.contains(pair) && !is_reserved_key(pair.0) {
            if fields.last() == pair {
                assert(kept.contains(pair)) by {
                    assert(kept.last() == pair);
                }
            } else {
                assert(fields.drop_last().contains(pair)) by {
                    let i = choose|i: int| 0 <= i < fields.len() && fields[i] == pair;
                    assert(fields.drop_last()[i] == pair);
                }
                assert(sub.contains(pair));
                let i = choose|i: int| 0 <= i < sub.len() && sub[i] == pair;
                assert(kept[i] == pair);
            }
        }
        if kept.contains(pair) {
            let i = choose|i: int| 0 <= i < kept.len() && kept[i] == pair;
            if !is_reserved_key(fields.last().0) && i == kept.len() - 1 {
                assert(pair == fields.last());
                assert(fields.contains(pair)) by {
                    assert(fields[fields.len() - 1] == pair);
                }
            } else {
                assert(sub.contains(pair)) by {
                    assert(sub[i] == pair);
                }
                assert(fields.drop_last().contains(pair));
                let j = choose|j: int|
                    0 <= j < fields.drop_last().len() && fields.drop_last()[j] == pair;
                assert(fields[j] == pair);
            }
        }
    }
}

/// Law: with the feature on, a custom pair stands in the document exactly
/// when the event carried it under an unreserved name — the reserved keys
/// are never overwritten; with the feature off the document carries no
/// custom pair at all.
pub proof fn lemma_custom_fields_merged(
    e: EventModel,
    svc: Option<ServiceModel>,
    opts: FormatOptions,
    time: Seq<char>,
    pair: (Seq<char>, Seq<char>),
)
    ensures
        opts.custom_fields ==> (spec_format(e, svc, opts, time).custom.contains(pair) <==> e.fields.contains(pair) && !is_reserved_key(pair.0)),
        !opts.custom_fields ==> spec_format(e, svc, opts, time).custom.len() == 0,
{
    if opts.custom_fields {
        lemma_filter_contains_iff(e.fields, pair);
    }
}

/// Law: formatting is deterministic.  The document is a function of the
/// event, the identity, the options and the injected clock reading alone,
/// so two formatting calls on the same inputs yield the same document.
pub proof fn lemma_format_deterministic(
    e: EventModel,
    svc: Option<ServiceModel>,
    opts: FormatOptions,
    time: Seq<char>,
    d1: DocumentModel,
    d2: DocumentModel,
)
    requires
        d1 == spec_format(e, svc, opts, time),
        d2 == spec_format(e, svc, opts, time),
    ensures
        d1 == d2,
{
}

} // verus!
