//! The mode selector and initializer: process-wide, one-time setup that
//! installs either the human-readable developer renderer or the structured
//! record formatter as the active sink.
//!
//! The install-once global of the underlying facility is modelled as an
//! explicit state handle: the embedding program owns one `LoggerState`,
//! performs the actual installation against the outside facility, and hands
//! its answer back to the state machine here, which enforces the
//! single-install invariant.

use crate::format::{spec_default_options, FormatOptions, ServicePolicy};
use crate::service::Service;
use vstd::prelude::*;

verus! {

/// Why initialization can fail.  Both conditions are fatal to the caller:
/// a program cannot safely continue without its logging sink.
#[derive(Clone, Copy, PartialEq, Eq, Structural, Debug)]
pub enum LoggerError {
    /// A second initialization attempt after a sink was already installed.
    AlreadyInitialized,
    /// The underlying facility refused the installation.
    SinkInstallFailure,
}

/// The sink chosen by initialization.
#[derive(Clone, Debug)]
pub enum SinkConfig {
    /// Developer mode: the human-readable renderer; the record formatter is
    /// bypassed entirely.
    Pretty,
    /// Production mode: the structured record formatter with its resolved
    /// identity and options.
    Structured { service: Option<Service>, options: FormatOptions },
}

/// The one-time initialization guard together with the installed sink.
pub struct LoggerState {
    /// The active sink; none before initialization.
    pub sink: Option<SinkConfig>,
}

impl LoggerState {
    /// A sink has been installed.
    pub open spec fn initialized(&self) -> bool {
        self.sink is Some
    }

    /// The state before any initialization.
    pub fn new() -> (r: Self)
        ensures
            !r.initialized(),
    {
        LoggerState { sink: None }
    }
}

/// The initializer state machine.  `developer` is the build-time
/// developer/production selection; `installed` is the underlying facility's
/// answer to the caller's installation attempt.  Exactly one installation
/// can ever succeed: a second attempt fails with `AlreadyInitialized`, a
/// refused installation with `SinkInstallFailure`, and a failed attempt
/// changes nothing.
pub fn try_init(
    st: &mut LoggerState,
    developer: bool,
    service: Option<Service>,
    report_location: bool,
    installed: bool,
) -> (r: Result<(), LoggerError>)
    ensures
        old(st).initialized() ==> r == Err::<(), LoggerError>(LoggerError::AlreadyInitialized)
            && *final(st) == *old(st),
        !old(st).initialized() && !installed ==> r == Err::<(), LoggerError>(
            LoggerError::SinkInstallFailure,
        ) && *final(st) == *old(st),
        !old(st).initialized() && installed ==> r == Ok::<(), LoggerError>(())
            && final(st).initialized(),
        !old(st).initialized() && installed && developer ==> final(st).sink == Some(
            SinkConfig::Pretty,
        ),
        !old(st).initialized() && installed && !developer ==> final(st).sink == Some(
            SinkConfig::Structured { service, options: spec_default_options(report_location) },
        ),
{
    if st.sink.is_some() {
        return Err(LoggerError::AlreadyInitialized);
    }
    if !installed {
        return Err(LoggerError::SinkInstallFailure);
    }
    if developer {
        st.sink = Some(SinkConfig::Pretty);
    } else {
        st.sink = Some(
            SinkConfig::Structured {
                service,
                options: FormatOptions {
                    report_location,
                    service_policy: ServicePolicy::Omit,
                    custom_fields: true,
                },
            },
        );
    }
    Ok(())
}

/// The zero-configuration initializer: location reporting on, the identity
/// as the caller's environment lookup resolved it.  The convenience forms
/// must succeed — the caller initializes exactly once with an accepted
/// installation — so the failing inputs are excluded rather than reported.
pub fn init(st: &mut LoggerState, developer: bool, service: Option<Service>, installed: bool)
    requires
        !old(st).initialized(),
        installed,
    ensures
        final(st).initialized(),
        developer ==> final(st).sink == Some(SinkConfig::Pretty),
        !developer ==> final(st).sink == Some(
            SinkConfig::Structured { service, options: spec_default_options(true) },
        ),
{
    let _ = try_init(st, developer, service, true, installed);
}

/// The fully parameterized initializer: explicit identity and location
/// switch.  Succeeds under the same conditions as `init`.
pub fn init_with(
    st: &mut LoggerState,
    developer: bool,
    service: Option<Service>,
    report_location: bool,
    installed: bool,
)
    requires
        !old(st).initialized(),
        installed,
    ensures
        final(st).initialized(),
        developer ==> final(st).sink == Some(SinkConfig::Pretty),
        !developer ==> final(st).sink == Some(
            SinkConfig::Structured { service, options: spec_default_options(report_location) },
        ),
{
    let _ = try_init(st, developer, service, report_location, installed);
}

} // verus!
