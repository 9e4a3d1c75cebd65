//! Decoding of windowing-protocol property replies.
//!
//! The focused window's pid is found in two steps: the root window's
//! active-window property names a window id, and that window's
//! owning-process property names a pid. Both replies arrive as raw
//! 32-bit-format property data; the platform adapter performs the two
//! reads and decodes each reply here. A reply of unexpected format or
//! length, or a null window id, means "no focused pid", not an error:
//! focus tracking and pid ownership are independent optional properties
//! that many windows omit.

use vstd::prelude::*;

verus! {

/// The property format tag of 32-bit-valued properties.
pub const FORMAT_32: u8 = 32;

/// The 32-bit value carried by the first four bytes of a property reply,
/// least significant byte first. The connection delivers property data in
/// the client's native byte order, so on a big-endian target the caller
/// must hand the four value bytes in least-significant-first order (the
/// platform shell normalises them); on little-endian targets the reply
/// bytes are already in this order.
pub open spec fn le_u32(b: Seq<u8>) -> int
    recommends
        b.len() >= 4,
{
    b[0] + b[1] * 0x100 + b[2] * 0x10000 + b[3] * 0x1000000
}

/// What the active-window property reply names: the window id, unless the
/// reply is malformed or the id is the null window.
pub open spec fn window_property_spec(format: u8, value: Seq<u8>) -> Option<u32> {
    if format != FORMAT_32 || value.len() < 4 {
        None
    } else if le_u32(value) == 0 {
        None
    } else {
        Some(le_u32(value) as u32)
    }
}

/// What the owning-process property reply names: the pid, unless the
/// reply is malformed.
pub open spec fn pid_property_spec(format: u8, value: Seq<u8>) -> Option<u32> {
    if format != FORMAT_32 || value.len() < 4 {
        None
    } else {
        Some(le_u32(value) as u32)
    }
}

/// Decode the first 32-bit value of a property reply.
fn decode_u32(value: &Vec<u8>) -> (r: u32)
    requires
        value@.len() >= 4,
    ensures
        r == le_u32(value@),
{
    (value[0] as u32) + (value[1] as u32) * 0x100 + (value[2] as u32) * 0x10000 + (value[3] as u32)
        * 0x1000000
}

/// Decode an active-window property reply into the focused window's id:
/// `None` when the format or length is unexpected or the id is the null
/// window.
pub fn active_window_from_property(format: u8, value: &Vec<u8>) -> (r: Option<u32>)
    ensures
        r == window_property_spec(format, value@),
{
    if format != FORMAT_32 || value.len() < 4 {
        return None;
    }
    let w = decode_u32(value);
    if w == 0 {
        None
    } else {
        Some(w)
    }
}

/// Decode an owning-process property reply into the window's pid: `None`
/// when the format or length is unexpected.
pub fn pid_from_property(format: u8, value: &Vec<u8>) -> (r: Option<u32>)
    ensures
        r == pid_property_spec(format, value@),
{
    if format != FORMAT_32 || value.len() < 4 {
        return None;
    }
    Some(decode_u32(value))
}

} // verus!
