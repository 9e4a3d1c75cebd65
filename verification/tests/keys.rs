use focus_hotkey::keys::{
    classify_key_event, count_successes, detect_numlock_mask, grab_masks, ungrab_masks, Binding,
    HotkeyEvent, CAPS_LOCK_MASK, NUMLOCK_FALLBACK_MASK,
};

fn binding(modifiers: u16, keycode: u8) -> Binding {
    Binding {
        modifiers,
        keycode,
        raw: "Super+Shift+C".to_string(),
    }
}

#[test]
fn grab_and_ungrab_use_the_same_mask_set() {
    let b = binding(0x0041, 54);
    let numlock = 0x0010;
    assert_eq!(grab_masks(&b, numlock), ungrab_masks(&b, numlock));
}

#[test]
fn grab_masks_cover_all_lock_states() {
    let b = binding(0x0040, 54);
    let numlock = 0x0010;
    let masks = grab_masks(&b, numlock);
    assert_eq!(
        masks,
        vec![
            0x0040,
            0x0040 | CAPS_LOCK_MASK,
            0x0040 | 0x0010,
            0x0040 | CAPS_LOCK_MASK | 0x0010,
        ]
    );
}

#[test]
fn grab_masks_follow_detected_numlock_bit() {
    let b = binding(0x0008, 33);
    // A layout where NumLock sits on Mod3 instead of Mod2.
    let masks = grab_masks(&b, 0x0020);
    assert_eq!(masks, vec![0x0008, 0x000A, 0x0028, 0x002A]);
}

#[test]
fn classify_matches_regardless_of_lock_bits() {
    let bindings = vec![
        (binding(0x0040, 54), HotkeyEvent::Capture),
        (binding(0x0040, 55), HotkeyEvent::Paste),
    ];
    let lock_bits = CAPS_LOCK_MASK | 0x0010;
    // CapsLock and NumLock held during the press are ignored.
    assert_eq!(
        classify_key_event(&bindings, 54, 0x0040 | CAPS_LOCK_MASK | 0x0010, lock_bits),
        Some(HotkeyEvent::Capture)
    );
    assert_eq!(
        classify_key_event(&bindings, 55, 0x0040, lock_bits),
        Some(HotkeyEvent::Paste)
    );
}

#[test]
fn classify_discards_unmatched_events() {
    let bindings = vec![(binding(0x0040, 54), HotkeyEvent::Capture)];
    let lock_bits = CAPS_LOCK_MASK | 0x0010;
    // Wrong keycode.
    assert_eq!(classify_key_event(&bindings, 60, 0x0040, lock_bits), None);
    // Extra non-lock modifier held.
    assert_eq!(
        classify_key_event(&bindings, 54, 0x0040 | 0x0004, lock_bits),
        None
    );
}

#[test]
fn classify_takes_the_first_match() {
    let bindings = vec![
        (binding(0x0040, 54), HotkeyEvent::Capture),
        (binding(0x0040, 54), HotkeyEvent::Clipboard),
    ];
    let lock_bits = CAPS_LOCK_MASK | 0x0010;
    assert_eq!(
        classify_key_event(&bindings, 54, 0x0040, lock_bits),
        Some(HotkeyEvent::Capture)
    );
}

#[test]
fn count_successes_counts_only_true() {
    assert_eq!(count_successes(&vec![true, false, true]), 2);
    assert_eq!(count_successes(&Vec::new()), 0);
}

#[test]
fn numlock_detected_under_row_three() {
    // 8 rows of 2 keycode slots; keycode 77 sits in row 3.
    let kpm = 2;
    let mut modmap = vec![0u8; 8 * kpm];
    modmap[3 * kpm] = 77;
    // Keysym table starting at keycode 8, 2 symbols per keycode;
    // keycode 77 maps to the NumLock symbol.
    let first_keycode = 8u8;
    let kspk = 2;
    let mut keysyms = vec![0u32; (77 - 8 + 1) * kspk];
    keysyms[(77 - 8) * kspk] = 0xFF7F;
    let mask = detect_numlock_mask(&modmap, kpm, &keysyms, kspk, first_keycode);
    assert_eq!(mask, 1 << 3);
}

#[test]
fn numlock_detection_takes_first_matching_row() {
    let kpm = 1;
    let mut modmap = vec![0u8; 8];
    modmap[4] = 70;
    modmap[6] = 70;
    let keysyms = vec![0u32, 0xFF7F];
    // Keycode 70, first keycode 69, one symbol per keycode: maps to NumLock.
    let mask = detect_numlock_mask(&modmap, kpm, &keysyms, 1, 69);
    assert_eq!(mask, 1 << 4);
}

#[test]
fn numlock_detection_falls_back_on_empty_tables() {
    let mask = detect_numlock_mask(&Vec::new(), 0, &Vec::new(), 0, 8);
    assert_eq!(mask, NUMLOCK_FALLBACK_MASK);
}

#[test]
fn numlock_detection_falls_back_without_match() {
    let modmap = vec![10u8; 16];
    let keysyms = vec![0u32; 64];
    let mask = detect_numlock_mask(&modmap, 2, &keysyms, 2, 8);
    assert_eq!(mask, NUMLOCK_FALLBACK_MASK);
}
