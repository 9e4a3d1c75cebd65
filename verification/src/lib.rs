//! Focus-and-hotkey subsystem of a terminal-session daemon.
//!
//! The library resolves which tracked session owns keyboard focus by
//! walking the OS process tree, computes the lock-modifier permutations
//! and NumLock detection needed for robust global key grabs, classifies
//! raw key events, drives the event-polling loop's decisions, and
//! delivers captured output to clipboard and file sinks.

pub mod focus;
pub mod keys;
pub mod poll;
pub mod resolver;
pub mod sink;
pub mod winprop;
