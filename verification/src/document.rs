//! The formatted document: one structured record per log event, with its
//! required keys and its conditionally present blocks.

use crate::severity::SeverityToken;
use vstd::prelude::*;

verus! {

/// The `serviceContext` block: which service emitted the record.
#[derive(Clone, Debug)]
pub struct ServiceContext {
    /// The reported service name.
    pub service: String,
    /// The reported service version; empty in the fallback form.
    pub version: String,
}

/// The `reportLocation` block: source provenance of the log call, each part
/// independently absent when the emitting facility did not capture it.
#[derive(Clone, Debug)]
pub struct ReportLocation {
    pub file_path: Option<String>,
    pub module: Option<String>,
    pub line_number: Option<u32>,
}

/// One formatted record.  `event_time`, `message` and `severity` are always
/// present; the two blocks are conditional; `custom` holds zero or more
/// additional top-level keys with stringified values, in key order.
#[derive(Clone, Debug)]
pub struct Document {
    /// The wall-clock reading at format time, RFC 3339.
    pub event_time: String,
    /// The mapped severity token.
    pub severity: SeverityToken,
    /// The text payload, augmented for error-level events.
    pub message: String,
    /// Present only when a service identity was resolvable (or, under the
    /// fallback policy, always).
    pub service_context: Option<ServiceContext>,
    /// Present only when location inclusion was requested.
    pub report_location: Option<ReportLocation>,
    /// The collected custom fields, one additional top-level key each.
    pub custom: Vec<(String, String)>,
}

/// The `serviceContext` block as the contracts see it.
pub struct ServiceContextModel {
    pub service: Seq<char>,
    pub version: Seq<char>,
}

impl View for ServiceContext {
    type V = ServiceContextModel;

    open spec fn view(&self) -> ServiceContextModel {
        ServiceContextModel { service: self.service@, version: self.version@ }
    }
}

/// The `reportLocation` block as the contracts see it.
pub struct LocationModel {
    pub file_path: Option<Seq<char>>,
    pub module: Option<Seq<char>>,
    pub line_number: Option<u32>,
}

impl View for ReportLocation {
    type V = LocationModel;

    open spec fn view(&self) -> LocationModel {
        LocationModel {
            file_path: self.file_path.deep_view(),
            module: self.module.deep_view(),
            line_number: self.line_number,
        }
    }
}

/// The custom pairs of a record as the contracts see them.
pub open spec fn custom_view(v: Seq<(String, String)>) -> Seq<(Seq<char>, Seq<char>)> {
    v.map_values(|e: (String, String)| (e.0@, e.1@))
}

/// The optional `serviceContext` block as the contracts see it.
pub open spec fn context_view(c: Option<ServiceContext>) -> Option<ServiceContextModel> {
    match c {
        Some(c) => Some(c@),
        None => None,
    }
}

/// The optional `reportLocation` block as the contracts see it.
pub open spec fn location_view(l: Option<ReportLocation>) -> Option<LocationModel> {
    match l {
        Some(l) => Some(l@),
        None => None,
    }
}

/// One formatted record as the contracts see it.
pub struct DocumentModel {
    pub event_time: Seq<char>,
    pub severity: SeverityToken,
    pub message: Seq<char>,
    pub service_context: Option<ServiceContextModel>,
    pub report_location: Option<LocationModel>,
    pub custom: Seq<(Seq<char>, Seq<char>)>,
}

impl View for Document {
    type V = DocumentModel;

    open spec fn view(&self) -> DocumentModel {
        DocumentModel {
            event_time: self.event_time@,
            severity: self.severity,
            message: self.message@,
            service_context: context_view(self.service_context),
            report_location: location_view(self.report_location),
            custom: custom_view(self.custom@),
        }
    }
}

} // verus!
