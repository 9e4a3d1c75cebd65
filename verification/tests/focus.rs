use focus_hotkey::focus::{
    is_ancestor, is_ancestor_in_table, parse_ppid, resolve_session, resolve_session_in_table,
    FocusError, SessionDescriptor,
};

/// Read a process's parent id from the live /proc tree: the blocking read
/// the platform shell performs, feeding the library's verified parser.
fn proc_parent(pid: u32) -> Option<u32> {
    let rt = tokio::runtime::Builder::new_current_thread().build().ok()?;
    let bytes = rt
        .block_on(tokio::fs::read(format!("/proc/{pid}/status")))
        .ok()?;
    parse_ppid(&bytes)
}

fn descriptor(id: &str, pid: u32) -> SessionDescriptor {
    SessionDescriptor {
        session: id.to_string(),
        pid,
        has_turn: false,
    }
}

#[test]
fn parent_of_nonexistent_pid_is_absent() {
    // PID 4294967295 is extremely unlikely to exist.
    assert_eq!(proc_parent(u32::MAX), None);
}

#[test]
fn parent_of_init_is_zero() {
    // PID 1 (init) should have PPid 0.
    let ppid = proc_parent(1);
    assert_eq!(ppid, Some(0));
}

#[test]
fn resolve_session_no_match() {
    let sessions = vec![SessionDescriptor {
        session: "s1".into(),
        pid: 1, // init — window PID 999999 is not an ancestor of PID 1
        has_turn: false,
    }];

    let result = resolve_session(proc_parent, 999_999, &sessions);
    assert!(matches!(result, Err(FocusError::NoSession)));
}

#[test]
fn resolve_session_empty_list() {
    let result = resolve_session(proc_parent, 1, &Vec::new());
    assert!(matches!(result, Err(FocusError::NoSession)));
}

#[test]
fn parse_ppid_reads_the_ppid_line() {
    let status = b"Name:\tbash\nUmask:\t0022\nPPid:\t42\nUid:\t0\n".to_vec();
    assert_eq!(parse_ppid(&status), Some(42));
}

#[test]
fn parse_ppid_first_line() {
    let status = b"PPid: 7\n".to_vec();
    assert_eq!(parse_ppid(&status), Some(7));
}

#[test]
fn parse_ppid_no_field() {
    let status = b"Name:\tbash\nUid:\t0\n".to_vec();
    assert_eq!(parse_ppid(&status), None);
}

#[test]
fn parse_ppid_malformed_value() {
    let status = b"PPid:\tabc\n".to_vec();
    assert_eq!(parse_ppid(&status), None);
}

#[test]
fn parse_ppid_value_too_large() {
    let status = b"PPid:\t99999999999\n".to_vec();
    assert_eq!(parse_ppid(&status), None);
}

#[test]
fn parse_ppid_largest_value() {
    let status = b"PPid:\t4294967295\n".to_vec();
    assert_eq!(parse_ppid(&status), Some(u32::MAX));
}

#[test]
fn parse_ppid_empty_record() {
    assert_eq!(parse_ppid(&Vec::new()), None);
}

#[test]
fn table_walk_finds_chain_ancestor() {
    // 10 -> 11 -> 12: the window process 10 is an ancestor of 12.
    let table = vec![(12, 11), (11, 10), (10, 1)];
    assert!(is_ancestor_in_table(&table, 10, 12));
    assert!(is_ancestor_in_table(&table, 11, 12));
    assert!(!is_ancestor_in_table(&table, 12, 10));
}

#[test]
fn table_walk_root_is_ancestor_of_all() {
    let table = vec![(12, 11), (11, 10), (10, 1)];
    assert!(is_ancestor_in_table(&table, 1, 12));
    assert!(is_ancestor_in_table(&table, 1, 11));
    assert!(is_ancestor_in_table(&table, 1, 10));
}

#[test]
fn table_walk_is_strict() {
    let table = vec![(12, 11), (11, 10), (10, 1)];
    assert!(!is_ancestor_in_table(&table, 12, 12));
    assert!(!is_ancestor_in_table(&table, 1, 1));
}

#[test]
fn table_walk_stops_on_degenerate_entry() {
    // A self-parent entry makes no progress and ends the walk.
    let table = vec![(7, 7)];
    assert!(!is_ancestor_in_table(&table, 1, 7));
}

#[test]
fn table_walk_bounded_on_cycle() {
    // A parent cycle terminates at the step bound without a match.
    let table = vec![(2, 3), (3, 2)];
    assert!(!is_ancestor_in_table(&table, 1, 2));
}

#[test]
fn live_walk_is_strict() {
    assert!(!is_ancestor(proc_parent, 42, 42));
}

#[test]
fn resolve_in_table_single_descendant() {
    let table = vec![(12, 11), (11, 10), (10, 1)];
    let sessions = vec![descriptor("s1", 12)];
    let result = resolve_session_in_table(&table, 10, &sessions);
    assert_eq!(result.unwrap(), "s1");
}

#[test]
fn resolve_in_table_direct_pid_match() {
    let table = vec![(12, 11)];
    let sessions = vec![descriptor("s1", 12)];
    let result = resolve_session_in_table(&table, 12, &sessions);
    assert_eq!(result.unwrap(), "s1");
}

#[test]
fn resolve_in_table_ambiguous_keeps_input_order() {
    let table = vec![(12, 11), (11, 10), (10, 1)];
    let sessions = vec![descriptor("b", 12), descriptor("a", 12)];
    let result = resolve_session_in_table(&table, 10, &sessions);
    match result {
        Err(FocusError::Ambiguous(ids)) => assert_eq!(ids, vec!["b".to_string(), "a".to_string()]),
        other => panic!("expected Ambiguous, got {:?}", other),
    }
}

#[test]
fn resolve_in_table_no_candidates() {
    let table = vec![(12, 11)];
    let sessions = vec![descriptor("s1", 12)];
    let result = resolve_session_in_table(&table, 99, &sessions);
    assert!(matches!(result, Err(FocusError::NoSession)));
}

#[test]
fn resolve_session_direct_match_without_tree() {
    // A pid-equal session matches regardless of what the live tree holds.
    let sessions = vec![descriptor("s1", 424242)];
    let result = resolve_session(proc_parent, 424242, &sessions);
    assert_eq!(result.unwrap(), "s1");
}

#[test]
fn resolve_session_two_direct_matches_are_ambiguous() {
    let sessions = vec![descriptor("s1", 424242), descriptor("s2", 424242)];
    let result = resolve_session(proc_parent, 424242, &sessions);
    match result {
        Err(FocusError::Ambiguous(ids)) => {
            assert_eq!(ids, vec!["s1".to_string(), "s2".to_string()])
        }
        other => panic!("expected Ambiguous, got {:?}", other),
    }
}

#[test]
fn focus_error_messages() {
    assert_eq!(
        FocusError::NoSession.message(),
        "no clippy session in focused window"
    );
    let e = FocusError::Ambiguous(vec!["s1".to_string(), "s2".to_string()]);
    assert_eq!(e.message(), "ambiguous — multiple sessions match: s1, s2");
    let one = FocusError::Ambiguous(vec!["only".to_string()]);
    assert_eq!(one.message(), "ambiguous — multiple sessions match: only");
}
