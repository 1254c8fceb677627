//! Structured log-record formatting for a cloud log-ingestion schema.
//!
//! The core of this crate is a pure, verified formatting engine: it maps a
//! five-level source severity onto the schema's severity tokens, augments
//! error messages with a pseudo stack trace, conditionally attaches a
//! service identity and a source location, merges caller-supplied custom
//! fields, and produces one structured document per log event.  A thin
//! initialization layer picks the active sink exactly once per process.

mod clock;
pub mod decimal;
pub mod document;
pub mod event;
pub mod fields;
pub mod filter;
pub mod format;
pub mod init;
pub mod json;
pub mod order;
pub mod service;
pub mod severity;
