//! Sink delivery: best-effort clipboard and file output for captured turns.
//!
//! Sinks are invoked after a delivery decision was already optimistically
//! reported successful; on a sink failure the broker retroactively replaces
//! that response with an error. Sinks never retry, and every root cause is
//! collapsed into one opaque failure code per sink, because the only
//! required reaction is "treat this delivery as failed".

use vstd::prelude::*;
use vstd::string::StringExecFns;

verus! {

/// Per-delivery metadata handed to every sink. The current sinks accept
/// and ignore it; accepting it is part of the contract, so future sinks
/// (e.g. naming files by turn id) need no interface change.
#[derive(Clone, Debug)]
pub struct SinkMetadata {
    /// Identifier of the delivered turn.
    pub turn_id: String,
    /// Capture timestamp of the turn.
    pub timestamp: u64,
    /// Length of the delivered content in bytes.
    pub byte_length: usize,
    /// Whether the turn's capture was interrupted.
    pub interrupted: bool,
    /// Whether the turn's content was truncated.
    pub truncated: bool,
}

/// Write content to the system clipboard via the injected writer.
///
/// The platform clipboard mechanism is supplied by the caller as a
/// callable, decoupling this layer from any specific clipboard process.
/// The call succeeds exactly when the writer does; any writer failure
/// collapses to the opaque `clipboard_failed` code.
pub fn deliver_clipboard<F: Fn(&[u8]) -> Result<(), String>>(
    content: &[u8],
    _metadata: &SinkMetadata,
    clipboard_writer: F,
) -> (r: Result<(), String>)
    requires
        call_requires(clipboard_writer, (content,)),
    ensures
        r matches Err(m) ==> m@ == "clipboard_failed"@,
        exists|out: Result<(), String>|
            {
                &&& #[trigger] call_ensures(clipboard_writer, (content,), out)
                &&& (out is Ok <==> r is Ok)
            },
{
    let out = clipboard_writer(content);
    match out {
        Ok(_) => Ok(()),
        Err(_) => Err(String::from_str("clipboard_failed")),
    }
}

/// Write content to a file at `path` via the injected writer.
///
/// The write itself is supplied by the caller (the platform shell passes
/// its file writer, run off the async scheduler), like the clipboard
/// sink's injected callable. The call succeeds exactly when the writer
/// does; no partial-write recovery is attempted, and any I/O failure
/// (missing directory, permission, disk full) collapses to the opaque
/// `file_write_failed` code.
pub fn deliver_file<F: Fn(&str, &[u8]) -> bool>(
    path: &str,
    content: &[u8],
    _metadata: &SinkMetadata,
    file_writer: F,
) -> (r: Result<(), String>)
    requires
        call_requires(file_writer, (path, content)),
    ensures
        r matches Err(m) ==> m@ == "file_write_failed"@,
        exists|ok: bool|
            {
                &&& #[trigger] call_ensures(file_writer, (path, content), ok)
                &&& (ok <==> r is Ok)
            },
{
    let ok = file_writer(path, content);
    if ok {
        Ok(())
    } else {
        Err(String::from_str("file_write_failed"))
    }
}

} // verus!
