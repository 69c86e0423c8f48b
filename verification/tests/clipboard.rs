//! Clipboard bridge behavior: delayed rendering, percent codec, URI lists
//! and file-name handling.

use lamco_wayland::clipboard::{
    candidate_name, destination_filename, parse_uri_list, percent_decode, percent_encode,
    sanitize_filename, split_stem_ext, u32_to_decimal, PortalClipboardSink, TransferAction,
};

#[test]
fn test_percent_decode() {
    assert_eq!(percent_decode("hello%20world"), "hello world");
    assert_eq!(percent_decode("/path/to/file"), "/path/to/file");
    assert_eq!(percent_decode("/path%2Fwith%2Fencoded"), "/path/with/encoded");
}

#[test]
fn test_percent_round_trip() {
    // Decoding inverts encoding, percent signs and spaces included.
    for path in [
        "/home/user/My Documents/report (1).pdf",
        "/tmp/100%_done",
        "plain",
        "",
        "a%20b%",
    ] {
        let encoded = percent_encode(path);
        assert_eq!(percent_decode(&encoded), path);
    }
}

#[test]
fn test_delayed_render_transfer() {
    // A queued payload answers a transfer; once the write is confirmed the
    // entry is removed, and the next request for the same MIME type signals
    // failure.
    let mut sink = PortalClipboardSink::new();
    sink.write_clipboard("text/plain", b"hi".to_vec(), 0);
    assert!(sink.has_pending("text/plain"));

    match sink.handle_transfer("text/plain", 7) {
        TransferAction::ProvideData { serial, data } => {
            assert_eq!(serial, 7);
            assert_eq!(data, b"hi");
        }
        TransferAction::SignalFailure { .. } => panic!("expected queued data"),
    }
    assert!(sink.complete_transfer("text/plain"));
    assert!(!sink.has_pending("text/plain"));

    match sink.handle_transfer("text/plain", 8) {
        TransferAction::SignalFailure { serial } => assert_eq!(serial, 8),
        TransferAction::ProvideData { .. } => panic!("expected failure"),
    }
}

#[test]
fn test_transfer_retains_payload_until_confirmed() {
    // A payload whose write failed stays queued and answers the retry.
    let mut sink = PortalClipboardSink::new();
    sink.write_clipboard("text/plain", b"hi".to_vec(), 0);

    for serial in [7u32, 8] {
        match sink.handle_transfer("text/plain", serial) {
            TransferAction::ProvideData { data, .. } => assert_eq!(data, b"hi"),
            TransferAction::SignalFailure { .. } => panic!("expected queued data"),
        }
    }
    assert!(sink.has_pending("text/plain"));
    assert!(sink.complete_transfer("text/plain"));
    assert!(!sink.complete_transfer("text/plain"));
}

#[test]
fn test_write_clipboard_purges_stale_entries() {
    // Entries older than thirty seconds leave the queue on the next write;
    // a rewrite for the same MIME type replaces the payload.
    let mut sink = PortalClipboardSink::new();
    sink.write_clipboard("text/plain", b"old".to_vec(), 0);
    sink.write_clipboard("text/html", b"<p>".to_vec(), 1000);
    assert_eq!(sink.pending_len(), 2);

    sink.write_clipboard("image/png", b"png".to_vec(), 40_000);
    assert_eq!(sink.pending_len(), 1);
    assert!(!sink.has_pending("text/plain"));
    assert!(!sink.has_pending("text/html"));
    assert!(sink.has_pending("image/png"));

    sink.write_clipboard("image/png", b"png2".to_vec(), 41_000);
    assert_eq!(sink.pending_len(), 1);
    match sink.handle_transfer("image/png", 1) {
        TransferAction::ProvideData { data, .. } => assert_eq!(data, b"png2"),
        TransferAction::SignalFailure { .. } => panic!("expected queued data"),
    }
}

#[test]
fn test_parse_uri_list() {
    let text = "file:///tmp/a%20b\n# a comment\n\nfile:///tmp/c\nhttp://elsewhere/x\n";
    let paths = parse_uri_list(text);
    assert_eq!(paths.len(), 2);
    assert_eq!(paths[0], "/tmp/a b");
    assert_eq!(paths[1], "/tmp/c");
}

#[test]
fn test_parse_uri_list_trims_lines() {
    let text = "  file:///tmp/x  \r\nfile:///tmp/y";
    let paths = parse_uri_list(text);
    assert_eq!(paths, vec!["/tmp/x", "/tmp/y"]);
}

#[test]
fn test_cached_file_list() {
    let mut sink = PortalClipboardSink::new();
    sink.cache_files(vec!["/tmp/a".to_string(), "/tmp/b".to_string()]);
    assert_eq!(sink.cached_len(), 2);
    assert_eq!(sink.cached_path(1).map(|s| s.as_str()), Some("/tmp/b"));
    assert!(sink.cached_path(2).is_none());
}

#[test]
fn test_sanitize_filename() {
    assert_eq!(sanitize_filename("we:ird*na?me.txt"), "we_ird_na_me.txt");
    assert_eq!(sanitize_filename("plain.txt"), "plain.txt");
    assert_eq!(sanitize_filename("a/b\\c"), "a_b_c");
}

#[test]
fn test_destination_filename() {
    assert_eq!(
        destination_filename("/home/user/docs/report.txt").as_deref(),
        Some("report.txt")
    );
    assert_eq!(destination_filename("C:evil*name").as_deref(), Some("C_evil_name"));
    assert!(destination_filename("/ends/with/slash/").is_none());
    assert!(destination_filename("..").is_none());
}

#[test]
fn test_collision_candidate_names() {
    // The first collision yields the name with a parenthesised one.
    let (stem, ext) = split_stem_ext("report.txt");
    assert_eq!(stem, "report");
    assert_eq!(ext, ".txt");
    assert_eq!(candidate_name(&stem, &ext, 1), "report (1).txt");
    assert_eq!(candidate_name(&stem, &ext, 12), "report (12).txt");

    let (stem, ext) = split_stem_ext(".bashrc");
    assert_eq!(stem, ".bashrc");
    assert_eq!(ext, "");
    assert_eq!(candidate_name(&stem, &ext, 1), ".bashrc (1)");
}

#[test]
fn test_u32_to_decimal() {
    assert_eq!(u32_to_decimal(0), "0");
    assert_eq!(u32_to_decimal(7), "7");
    assert_eq!(u32_to_decimal(1234), "1234");
    assert_eq!(u32_to_decimal(4294967295), "4294967295");
}
