//! Key bindings, lock-modifier permutations, NumLock detection, and
//! classification of raw key events.
//!
//! A key grab matches modifier state exactly, so each binding is grabbed
//! once per combination of the CapsLock and NumLock bits; ungrabbing uses
//! the same combinations, which keeps grabs leak-free. The NumLock bit is
//! not fixed across keyboard layouts and is detected from the modifier
//! and keyboard mapping tables, with a conventional fallback.

use vstd::prelude::*;

verus! {

/// A user-supplied key binding specification, e.g. `"Super+Shift+C"`.
/// The string's grammar is external; parsing it is the platform
/// adapter's concern.
#[derive(Clone, Debug)]
pub struct KeyBinding {
    /// The raw specification string.
    pub spec: String,
}

/// A parsed, platform-resolved key combination, owned by the adapter for
/// the lifetime of the grab.
#[derive(Clone, Debug)]
pub struct Binding {
    /// Modifier bitmask the binding requires.
    pub modifiers: u16,
    /// Platform key code of the base key.
    pub keycode: u8,
    /// The original specification string, kept for diagnostics.
    pub raw: String,
}

/// A classified hotkey action, one per matched raw key event.
#[derive(Clone, Copy, Debug, PartialEq, Eq, Structural)]
pub enum HotkeyEvent {
    /// Capture the focused session's current turn.
    Capture,
    /// Paste the last captured turn into the focused session.
    Paste,
    /// Capture to the system clipboard.
    Clipboard,
}

/// The CapsLock modifier bit: always the fixed lock bit of the mask.
pub const CAPS_LOCK_MASK: u16 = 0x0002;

/// The conventional NumLock bit (the fifth modifier row), used when
/// detection finds nothing better.
pub const NUMLOCK_FALLBACK_MASK: u16 = 0x0010;

/// Number of rows in the modifier-to-keycode mapping table.
pub const MODIFIER_ROW_COUNT: usize = 8;

/// The key symbol of the NumLock key.
pub const NUMLOCK_KEYSYM: u32 = 0xFF7F;

// ---------------------------------------------------------------------------
// Lock-modifier permutations
// ---------------------------------------------------------------------------

/// The modifier masks a binding is grabbed under: its own modifiers
/// combined with every CapsLock/NumLock toggle state.
pub open spec fn grab_mask_seq(modifiers: u16, numlock_mask: u16) -> Seq<u16> {
    seq![
        modifiers,
        modifiers | CAPS_LOCK_MASK,
        modifiers | numlock_mask,
        modifiers | CAPS_LOCK_MASK | numlock_mask,
    ]
}

/// The modifier masks a binding is ungrabbed under: its own modifiers
/// combined with every CapsLock/NumLock toggle state.
pub open spec fn ungrab_mask_seq(modifiers: u16, numlock_mask: u16) -> Seq<u16> {
    seq![
        modifiers,
        modifiers | CAPS_LOCK_MASK,
        modifiers | numlock_mask,
        modifiers | CAPS_LOCK_MASK | numlock_mask,
    ]
}

/// The masks to register when grabbing `binding`.
pub fn grab_masks(binding: &Binding, numlock_mask: u16) -> (r: Vec<u16>)
    ensures
        r@ == grab_mask_seq(binding.modifiers, numlock_mask),
{
    let mut v: Vec<u16> = Vec::new();
    v.push(binding.modifiers);
    v.push(binding.modifiers | CAPS_LOCK_MASK);
    v.push(binding.modifiers | numlock_mask);
    v.push(binding.modifiers | CAPS_LOCK_MASK | numlock_mask);
    proof {
        assert(v@ =~= grab_mask_seq(binding.modifiers, numlock_mask));
    }
    v
}

/// The masks to release when ungrabbing `binding`.
pub fn ungrab_masks(binding: &Binding, numlock_mask: u16) -> (r: Vec<u16>)
    ensures
        r@ == ungrab_mask_seq(binding.modifiers, numlock_mask),
{
    let mut v: Vec<u16> = Vec::new();
    v.push(binding.modifiers);
    v.push(binding.modifiers | CAPS_LOCK_MASK);
    v.push(binding.modifiers | numlock_mask);
    v.push(binding.modifiers | CAPS_LOCK_MASK | numlock_mask);
    proof {
        assert(v@ =~= ungrab_mask_seq(binding.modifiers, numlock_mask));
    }
    v
}

/// Grab/ungrab symmetry: for any binding, the lock-modifier combinations
/// used during grab are exactly those used during ungrab, in the same
/// order and as a set — no grab is leaked by an asymmetric release.
pub proof fn lemma_grab_ungrab_symmetry(modifiers: u16, numlock_mask: u16)
    ensures
        grab_mask_seq(modifiers, numlock_mask) == ungrab_mask_seq(modifiers, numlock_mask),
        grab_mask_seq(modifiers, numlock_mask).to_set() == ungrab_mask_seq(
            modifiers,
            numlock_mask,
        ).to_set(),
{
    assert(grab_mask_seq(modifiers, numlock_mask) =~= ungrab_mask_seq(modifiers, numlock_mask));
}

// ---------------------------------------------------------------------------
// Event classification
// ---------------------------------------------------------------------------

/// Whether a raw key event with `keycode` and modifier `state` matches a
/// binding, ignoring the lock bits in `lock_bits`.
pub open spec fn binding_matches(b: Binding, keycode: u8, state: u16, lock_bits: u16) -> bool {
    b.keycode == keycode && (state & !lock_bits) == b.modifiers
}

/// The event of the first registered binding the raw event matches, if any.
pub open spec fn classify_spec(
    bindings: Seq<(Binding, HotkeyEvent)>,
    keycode: u8,
    state: u16,
    lock_bits: u16,
) -> Option<HotkeyEvent>
    decreases bindings.len(),
{
    if bindings.len() == 0 {
        None
    } else if binding_matches(bindings[0].0, keycode, state, lock_bits) {
        Some(bindings[0].1)
    } else {
        classify_spec(bindings.drop_first(), keycode, state, lock_bits)
    }
}

/// Classify a raw key event against the registered bindings: the first
/// binding with the event's keycode whose modifiers equal the event's
/// state outside the lock bits. Unmatched events yield `None` and are
/// discarded by the caller.
pub fn classify_key_event(
    bindings: &Vec<(Binding, HotkeyEvent)>,
    keycode: u8,
    state: u16,
    lock_bits: u16,
) -> (r: Option<HotkeyEvent>)
    ensures
        r == classify_spec(bindings@, keycode, state, lock_bits),
{
    let mut i: usize = 0;
    proof {
        assert(bindings@.skip(0) =~= bindings@);
    }
    while i < bindings.len()
        invariant
            0 <= i <= bindings@.len(),
            classify_spec(bindings@, keycode, state, lock_bits) == classify_spec(
                bindings@.skip(i as int),
                keycode,
                state,
                lock_bits,
            ),
        decreases bindings@.len() - i,
    {
        proof {
            let w = bindings@.skip(i as int);
            assert(w[0] == bindings@[i as int]);
            assert(w.drop_first() =~= bindings@.skip(i as int + 1));
        }
        if bindings[i].0.keycode == keycode && (state & !lock_bits) == bindings[i].0.modifiers {
            return Some(bindings[i].1);
        }
        i += 1;
    }
    proof {
        assert(bindings@.skip(i as int).len() == 0);
    }
    None
}

/// How many bindings were fully grabbed, given one success flag per
/// attempted binding; registration reports this count to its caller.
pub open spec fn count_true(flags: Seq<bool>) -> int
    decreases flags.len(),
{
    if flags.len() == 0 {
        0
    } else {
        count_true(flags.drop_last()) + if flags.last() {
            1int
        } else {
            0int
        }
    }
}

/// Count the fully-successful bindings among the attempted ones.
pub fn count_successes(flags: &Vec<bool>) -> (n: usize)
    ensures
        n == count_true(flags@),
{
    let mut n: usize = 0;
    let mut i: usize = 0;
    while i < flags.len()
        invariant
            0 <= i <= flags@.len(),
            n == count_true(flags@.take(i as int)),
            n <= i,
        decreases flags@.len() - i,
    {
        proof {
            assert(flags@.take(i as int + 1).drop_last() =~= flags@.take(i as int));
        }
        if flags[i] {
            n += 1;
        }
        i += 1;
    }
    proof {
        assert(flags@.take(i as int) =~= flags@);
    }
    n
}

// ---------------------------------------------------------------------------
// NumLock bit detection
// ---------------------------------------------------------------------------

/// Whether key code `kc` maps to the NumLock symbol in the keyboard
/// mapping table (`kspk` symbols per keycode, starting at `first`).
pub open spec fn keycode_is_numlock(keysyms: Seq<u32>, kspk: nat, first: u8, kc: u8) -> bool {
    kc >= first && exists|i: int|
        0 <= i && (kc - first) * kspk <= i < (kc - first) * kspk + kspk && i < keysyms.len()
            && (#[trigger] keysyms[i]) == NUMLOCK_KEYSYM
}

/// Whether modifier row `row` holds any keycode mapping to NumLock
/// (`kpm` keycode slots per row; a zero slot is empty).
pub open spec fn row_has_numlock(
    modmap: Seq<u8>,
    kpm: nat,
    keysyms: Seq<u32>,
    kspk: nat,
    first: u8,
    row: nat,
) -> bool {
    exists|j: int|
        0 <= j && row * kpm <= j < row * kpm + kpm && j < modmap.len() && (#[trigger] modmap[j]) != 0
            && keycode_is_numlock(keysyms, kspk, first, modmap[j])
}

/// The first modifier row holding a NumLock keycode, scanning from `row`.
pub open spec fn numlock_row_from(
    modmap: Seq<u8>,
    kpm: nat,
    keysyms: Seq<u32>,
    kspk: nat,
    first: u8,
    row: nat,
) -> Option<nat>
    decreases 8 - row,
{
    if row >= 8 {
        None
    } else if row_has_numlock(modmap, kpm, keysyms, kspk, first, row) {
        Some(row)
    } else {
        numlock_row_from(modmap, kpm, keysyms, kspk, first, row + 1)
    }
}

/// The modifier-mask bit of row `row`.
pub open spec fn row_bit(row: nat) -> u16 {
    if row == 0 {
        1
    } else if row == 1 {
        2
    } else if row == 2 {
        4
    } else if row == 3 {
        8
    } else if row == 4 {
        16
    } else if row == 5 {
        32
    } else if row == 6 {
        64
    } else {
        128
    }
}

/// What NumLock detection yields: the bit of the first modifier row that
/// holds a keycode mapping to the NumLock symbol, or the conventional
/// fallback bit when the tables are empty, malformed, or hold no match.
pub open spec fn numlock_mask_spec(
    modmap: Seq<u8>,
    kpm: nat,
    keysyms: Seq<u32>,
    kspk: nat,
    first: u8,
) -> u16 {
    match numlock_row_from(modmap, kpm, keysyms, kspk, first, 0) {
        Some(row) => row_bit(row),
        None => NUMLOCK_FALLBACK_MASK,
    }
}

/// Whether key code `kc` maps to the NumLock symbol.
fn keycode_maps_numlock(keysyms: &Vec<u32>, kspk: usize, first: u8, kc: u8) -> (r: bool)
    ensures
        r == keycode_is_numlock(keysyms@, kspk as nat, first, kc),
{
    if kc < first {
        return false;
    }
    let n = keysyms.len();
    proof {
        assert(keysyms@.len() <= usize::MAX);
    }
    let base = (kc - first) as usize;
    let start = match base.checked_mul(kspk) {
        Some(v) => v,
        None => {
            return false;
        },
    };
    let mut s: usize = 0;
    while s < kspk
        invariant
            0 <= s <= kspk,
            start == (kc - first) * kspk,
            kc >= first,
            n == keysyms@.len(),
            forall|i: int|
                start <= i < start + s ==> !(i < keysyms@.len() && (#[trigger] keysyms@[i])
                    == NUMLOCK_KEYSYM),
        decreases kspk - s,
    {
        let idx = match start.checked_add(s) {
            Some(v) => v,
            None => {
                return false;
            },
        };
        if idx >= n {
            return false;
        }
        if keysyms[idx] == NUMLOCK_KEYSYM {
            proof {
                assert(keysyms@[idx as int] == NUMLOCK_KEYSYM);
            }
            return true;
        }
        s += 1;
    }
    false
}

/// Whether modifier row `row` holds any keycode mapping to NumLock.
fn row_maps_numlock(
    modmap: &Vec<u8>,
    kpm: usize,
    keysyms: &Vec<u32>,
    kspk: usize,
    first: u8,
    row: usize,
) -> (r: bool)
    requires
        row < MODIFIER_ROW_COUNT,
    ensures
        r == row_has_numlock(modmap@, kpm as nat, keysyms@, kspk as nat, first, row as nat),
{
    let n = modmap.len();
    proof {
        assert(modmap@.len() <= usize::MAX);
    }
    let start = match row.checked_mul(kpm) {
        Some(v) => v,
        None => {
            return false;
        },
    };
    let mut slot: usize = 0;
    while slot < kpm
        invariant
            0 <= slot <= kpm,
            start == row * kpm,
            n == modmap@.len(),
            forall|j: int|
                start <= j < start + slot ==> !(j < modmap@.len() && (#[trigger] modmap@[j]) != 0
                    && keycode_is_numlock(keysyms@, kspk as nat, first, modmap@[j])),
        decreases kpm - slot,
    {
        let idx = match start.checked_add(slot) {
            Some(v) => v,
            None => {
                return false;
            },
        };
        if idx >= n {
            return false;
        }
        let kc = modmap[idx];
        if kc != 0 && keycode_maps_numlock(keysyms, kspk, first, kc) {
            proof {
                assert(modmap@[idx as int] != 0);
            }
            return true;
        }
        slot += 1;
    }
    false
}

/// Detect the NumLock modifier bit from the modifier-to-keycode table
/// (`kpm` slots per row) and the keycode-to-keysym table (`kspk` symbols
/// per keycode, starting at key code `first`). Falls back to the
/// conventional bit when the tables are empty, malformed, or hold no
/// keycode mapping to the NumLock symbol.
pub fn detect_numlock_mask(
    modmap: &Vec<u8>,
    kpm: usize,
    keysyms: &Vec<u32>,
    kspk: usize,
    first: u8,
) -> (r: u16)
    ensures
        r == numlock_mask_spec(modmap@, kpm as nat, keysyms@, kspk as nat, first),
{
    let mut row: usize = 0;
    while row < MODIFIER_ROW_COUNT
        invariant
            0 <= row <= MODIFIER_ROW_COUNT,
            numlock_row_from(modmap@, kpm as nat, keysyms@, kspk as nat, first, 0)
                == numlock_row_from(modmap@, kpm as nat, keysyms@, kspk as nat, first, row as nat),
        decreases MODIFIER_ROW_COUNT - row,
    {
        if row_maps_numlock(modmap, kpm, keysyms, kspk, first, row) {
            if row == 0 {
                return 1;
            } else if row == 1 {
                return 2;
            } else if row == 2 {
                return 4;
            } else if row == 3 {
                return 8;
            } else if row == 4 {
                return 16;
            } else if row == 5 {
                return 32;
            } else if row == 6 {
                return 64;
            } else {
                return 128;
            }
        }
        row += 1;
    }
    NUMLOCK_FALLBACK_MASK
}

} // verus!
