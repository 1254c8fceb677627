//! The severity mapper: the source facility's five ordered levels mapped
//! onto the target schema's severity vocabulary.

use vstd::prelude::*;

verus! {

/// The source facility's five-level classification of event importance,
/// ordered from least to most severe.
#[derive(Clone, Copy, PartialEq, Eq, Structural, Debug)]
pub enum Severity {
    Trace,
    Debug,
    Info,
    Warn,
    Error,
}

/// The target schema's severity vocabulary.  `map_severity` only ever
/// produces the first four tokens; the remaining four are valid members of
/// the schema kept for forward compatibility, reachable from no input.
#[derive(Clone, Copy, PartialEq, Eq, Structural, Debug)]
pub enum SeverityToken {
    Debug,
    Info,
    Notice,
    Warning,
    Error,
    Critical,
    Alert,
    Emergency,
}

/// What `map_severity` returns: the schema token for a source severity.
pub open spec fn spec_map_severity(s: Severity) -> SeverityToken {
    match s {
        Severity::Error => SeverityToken::Error,
        Severity::Warn => SeverityToken::Warning,
        Severity::Info => SeverityToken::Info,
        Severity::Debug => SeverityToken::Debug,
        Severity::Trace => SeverityToken::Debug,
    }
}

/// Maps a source severity to its schema token.  Total and pure; the schema
/// has no token for `Trace`, which is mapped to `DEBUG` alongside `Debug`.
pub fn map_severity(s: Severity) -> (t: SeverityToken)
    ensures
        t == spec_map_severity(s),
{
    match s {
        Severity::Error => SeverityToken::Error,
        Severity::Warn => SeverityToken::Warning,
        Severity::Info => SeverityToken::Info,
        Severity::Debug => SeverityToken::Debug,
        Severity::Trace => SeverityToken::Debug,
    }
}

/// The uppercase string form of a schema token.
pub open spec fn spec_token_str(t: SeverityToken) -> Seq<char> {
    match t {
        SeverityToken::Debug => "DEBUG"@,
        SeverityToken::Info => "INFO"@,
        SeverityToken::Notice => "NOTICE"@,
        SeverityToken::Warning => "WARNING"@,
        SeverityToken::Error => "ERROR"@,
        SeverityToken::Critical => "CRITICAL"@,
        SeverityToken::Alert => "ALERT"@,
        SeverityToken::Emergency => "EMERGENCY"@,
    }
}

impl SeverityToken {
    /// The uppercase token string as it appears in the output document.
    pub fn as_str(&self) -> (r: &'static str)
        ensures
            r@ == spec_token_str(*self),
    {
        match self {
            SeverityToken::Debug => "DEBUG",
            SeverityToken::Info => "INFO",
            SeverityToken::Notice => "NOTICE",
            SeverityToken::Warning => "WARNING",
            SeverityToken::Error => "ERROR",
            SeverityToken::Critical => "CRITICAL",
            SeverityToken::Alert => "ALERT",
            SeverityToken::Emergency => "EMERGENCY",
        }
    }
}

/// Law: for every severity the mapper yields one of DEBUG, INFO, WARNING or
/// ERROR — NOTICE, CRITICAL, ALERT and EMERGENCY are unreachable — and
/// `Trace` and `Debug` both map to DEBUG.
pub proof fn lemma_map_severity_range(s: Severity)
    ensures
        spec_map_severity(s) == SeverityToken::Debug || spec_map_severity(s)
            == SeverityToken::Info || spec_map_severity(s) == SeverityToken::Warning
            || spec_map_severity(s) == SeverityToken::Error,
        spec_map_severity(Severity::Trace) == SeverityToken::Debug,
        spec_map_severity(Severity::Debug) == SeverityToken::Debug,
{
}

} // verus!
