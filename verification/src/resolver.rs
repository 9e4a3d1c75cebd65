//! Capability interfaces of the subsystem.
//!
//! Focus resolution is modelled as a capability trait with exactly one
//! concrete windowing-system implementation; additional backends plug in
//! behind the same interface without touching the broker.

use vstd::prelude::*;
use crate::focus::SessionDescriptor;

verus! {

/// A structured, synchronous failure during resolver or hotkey setup,
/// fatal to the affected component's startup and propagated to the caller
/// to decide (abort startup, or run without hotkeys).
#[derive(Debug)]
pub enum ResolverError {
    /// The windowing connection could not be established or failed during
    /// setup.
    Connection(String),
    /// A binding specification could not be parsed or registered.
    Registration(String),
}

/// Resolves which tracked session, if any, has focus in the windowing
/// environment.
///
/// Platform adapters implement this so the hotkey client never performs
/// its own focus detection. `NoSession` and `Ambiguous` outcomes are valid
/// resolved states of the underlying resolution, not errors; this
/// interface reports them as an absent session or through the adapter's
/// chosen policy.
pub trait SessionResolver {
    /// Return the focused session's id, or `None` when no registered
    /// session owns the focused window. `sessions` is the current
    /// registry snapshot.
    fn focused_session(&self, sessions: &Vec<SessionDescriptor>) -> Result<
        Option<String>,
        ResolverError,
    >;
}

} // verus!
