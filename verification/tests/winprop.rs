use focus_hotkey::winprop::{active_window_from_property, pid_from_property};

#[test]
fn window_id_decodes_little_endian() {
    let value = vec![0x34, 0x12, 0x00, 0x00];
    assert_eq!(active_window_from_property(32, &value), Some(0x1234));
}

#[test]
fn window_id_uses_all_four_bytes() {
    let value = vec![0x78, 0x56, 0x34, 0x12];
    assert_eq!(active_window_from_property(32, &value), Some(0x12345678));
}

#[test]
fn null_window_means_no_focus() {
    let value = vec![0, 0, 0, 0];
    assert_eq!(active_window_from_property(32, &value), None);
}

#[test]
fn unexpected_format_means_no_focus() {
    let value = vec![0x34, 0x12, 0x00, 0x00];
    assert_eq!(active_window_from_property(16, &value), None);
}

#[test]
fn short_reply_means_no_focus() {
    let value = vec![0x34, 0x12];
    assert_eq!(active_window_from_property(32, &value), None);
}

#[test]
fn pid_property_decodes() {
    let value = vec![0x39, 0x30, 0x00, 0x00];
    assert_eq!(pid_from_property(32, &value), Some(12345));
}

#[test]
fn pid_property_rejects_malformed_reply() {
    assert_eq!(pid_from_property(8, &vec![1, 0, 0, 0]), None);
    assert_eq!(pid_from_property(32, &vec![1, 0]), None);
    assert_eq!(pid_from_property(32, &Vec::new()), None);
}
