//! One unit of emitted application telemetry, as the formatter reads it.

use crate::fields::CustomFields;
use crate::severity::Severity;
use vstd::prelude::*;

verus! {

/// One log event: severity, interpolated message, emitting target, optional
/// source provenance, and caller-attached custom fields.
pub struct LogEvent {
    /// How severe the event is.
    pub severity: Severity,
    /// The already-interpolated text payload.
    pub message: String,
    /// The dotted name of the emitting module, used by the path filter.
    pub target: String,
    /// The source file of the log call, if the emitting facility captured it.
    pub file: Option<String>,
    /// The source line of the log call, if captured.
    pub line: Option<u32>,
    /// The module path of the log call, if captured.
    pub module: Option<String>,
    /// Caller-attached structured context; may be empty.
    pub fields: CustomFields,
}

/// The event as the contracts see it: every text as a character sequence,
/// the fields as (name, displayed value) pairs.
pub struct EventModel {
    pub severity: Severity,
    pub message: Seq<char>,
    pub target: Seq<char>,
    pub file: Option<Seq<char>>,
    pub line: Option<u32>,
    pub module: Option<Seq<char>>,
    pub fields: Seq<(Seq<char>, Seq<char>)>,
}

impl View for LogEvent {
    type V = EventModel;

    open spec fn view(&self) -> EventModel {
        EventModel {
            severity: self.severity,
            message: self.message@,
            target: self.target@,
            file: self.file.deep_view(),
            line: self.line,
            module: self.module.deep_view(),
            fields: self.fields@,
        }
    }
}

impl LogEvent {
    /// A well-formed event carries well-formed custom fields.
    pub open spec fn wf(&self) -> bool {
        self.fields.wf()
    }
}

} // verus!
