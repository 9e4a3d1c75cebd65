use focus_hotkey::sink::{deliver_clipboard, deliver_file, SinkMetadata};

fn dummy_metadata() -> SinkMetadata {
    SinkMetadata {
        turn_id: "s1:1".into(),
        timestamp: 1000,
        byte_length: 15,
        interrupted: false,
        truncated: false,
    }
}

/// The blocking file writer the platform shell injects into the file sink.
fn blocking_write(path: &str, content: &[u8]) -> bool {
    match tokio::runtime::Builder::new_current_thread().build() {
        Ok(rt) => rt.block_on(tokio::fs::write(path, content)).is_ok(),
        Err(_) => false,
    }
}

fn read_back(path: &str) -> Result<Vec<u8>, ()> {
    let rt = tokio::runtime::Builder::new_current_thread()
        .build()
        .map_err(|_| ())?;
    rt.block_on(tokio::fs::read(path)).map_err(|_| ())
}

#[test]
fn file_write_success() {
    let dir = tempfile::tempdir().unwrap();
    let path = dir.path().join("output.txt");
    let content = b"hello from sink";

    deliver_file(path.to_str().unwrap(), content, &dummy_metadata(), blocking_write).unwrap();

    let written = read_back(path.to_str().unwrap()).unwrap();
    assert_eq!(written, content);
}

#[test]
fn file_write_bad_path() {
    let result = deliver_file(
        "/nonexistent/dir/file.txt",
        b"data",
        &dummy_metadata(),
        blocking_write,
    );
    assert_eq!(result, Err("file_write_failed".to_string()));
    // No file is left behind.
    assert!(read_back("/nonexistent/dir/file.txt").is_err());
}

#[test]
fn clipboard_succeeds_when_writer_succeeds() {
    let writer = |_c: &[u8]| -> Result<(), String> { Ok(()) };
    let result = deliver_clipboard(b"turn text", &dummy_metadata(), writer);
    assert_eq!(result, Ok(()));
}

#[test]
fn clipboard_failure_collapses_to_code() {
    let writer = |_c: &[u8]| -> Result<(), String> { Err("xclip exited with status 1".to_string()) };
    let result = deliver_clipboard(b"turn text", &dummy_metadata(), writer);
    assert_eq!(result, Err("clipboard_failed".to_string()));
}

#[test]
fn clipboard_writer_sees_the_content() {
    let writer = |c: &[u8]| -> Result<(), String> {
        if c == b"expected bytes" {
            Ok(())
        } else {
            Err("wrong content".to_string())
        }
    };
    assert_eq!(
        deliver_clipboard(b"expected bytes", &dummy_metadata(), writer),
        Ok(())
    );
    assert_eq!(
        deliver_clipboard(b"other bytes", &dummy_metadata(), writer),
        Err("clipboard_failed".to_string())
    );
}

#[test]
fn file_sink_failure_collapses_to_code() {
    let failing_writer = |_p: &str, _c: &[u8]| false;
    let result = deliver_file("anywhere", b"data", &dummy_metadata(), failing_writer);
    assert_eq!(result, Err("file_write_failed".to_string()));
}

#[test]
fn file_sink_succeeds_when_writer_succeeds() {
    let ok_writer = |_p: &str, _c: &[u8]| true;
    let result = deliver_file("anywhere", b"data", &dummy_metadata(), ok_writer);
    assert_eq!(result, Ok(()));
}
