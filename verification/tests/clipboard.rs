use pasta::clipboard::{
    clipboard_change_count, clipboard_looks_concealed, clipboard_looks_transient,
    current_clipboard_signature, finish_secret_autoclear, mime_types_from_targets,
    parse_custom_tags_input, polling_clipboard_change_count, read_clipboard_snapshot,
    secret_autoclear_due, should_ignore_self_clipboard_write, ClipboardChangeSource,
    ClipboardChangeState, PendingClipboardWrite, capture_clipboard_change, expect_own_write,
    Capture, ClipboardSnapshot, SECRET_AUTO_CLEAR_MS,
};
use pasta::digest::{clipboard_bytes_hash, clipboard_text_hash};

fn strings(items: &[&str]) -> Vec<String> {
    items.iter().map(|s| s.to_string()).collect()
}

#[test]
fn hashes_are_lowercase_sha256_hex() {
    assert_eq!(
        clipboard_text_hash(""),
        "e3b0c44298fc1c149afbf4c8996fb92427ae41e4649b934ca495991b7852b855"
    );
    assert_eq!(
        clipboard_text_hash("abc"),
        "ba7816bf8f01cfea414140de5dae2223b00361a396177a9cb410ff61f20015ad"
    );
    assert_eq!(clipboard_bytes_hash(b"abc"), clipboard_text_hash("abc"));
    assert_ne!(clipboard_text_hash("abc"), clipboard_text_hash("abd"));
}

#[test]
fn text_hash_is_over_utf8_bytes() {
    let text = "héllo ✓";
    assert_eq!(clipboard_text_hash(text), clipboard_bytes_hash(text.as_bytes()));
}

#[test]
fn concealed_and_transient_hints() {
    assert!(clipboard_looks_concealed(&strings(&["text/plain", "x-kde-passwordmanagerhint"])));
    assert!(clipboard_looks_concealed(&strings(&["application/x-Bitwarden"])));
    assert!(clipboard_looks_concealed(&strings(&["org.nspasteboard.ConcealedType"])));
    assert!(!clipboard_looks_concealed(&strings(&["text/plain", "UTF8_STRING"])));
    assert!(!clipboard_looks_concealed(&Vec::new()));
    assert!(clipboard_looks_transient(&strings(&["org.nspasteboard.TransientType"])));
    assert!(clipboard_looks_transient(&strings(&["x-kde-passwordmanagerhint"])));
    assert!(clipboard_looks_transient(&strings(&["application/x-gtk-text-buffer-rich-text"])));
    assert!(!clipboard_looks_transient(&strings(&["text/html"])));
}

#[test]
fn snapshot_needs_text() {
    assert!(read_clipboard_snapshot(&strings(&["secret"]), None).is_none());
    let snap = read_clipboard_snapshot(&strings(&["secret"]), Some("pw".to_owned())).unwrap();
    assert_eq!(snap.text, "pw");
    assert!(snap.is_concealed);
    assert!(!snap.is_transient);
}

#[test]
fn custom_tags_are_trimmed_and_blank_ones_dropped() {
    assert_eq!(parse_custom_tags_input(" k8s, prod ,,  , db "), strings(&["k8s", "prod", "db"]));
    assert!(parse_custom_tags_input("").is_empty());
    assert!(parse_custom_tags_input(" , ,").is_empty());
    assert_eq!(parse_custom_tags_input("one"), strings(&["one"]));
}

#[test]
fn targets_output_lists_trimmed_mime_types() {
    assert_eq!(
        mime_types_from_targets("TARGETS\n  text/plain \r\n\nUTF8_STRING\n"),
        strings(&["TARGETS", "text/plain", "UTF8_STRING"])
    );
    assert!(mime_types_from_targets("").is_empty());
}

#[test]
fn signature_combines_types_and_text_hash() {
    let sig = current_clipboard_signature(&strings(&["a", "b"]), Some("abc".to_owned())).unwrap();
    assert_eq!(
        sig,
        "mime:a|b;text:ba7816bf8f01cfea414140de5dae2223b00361a396177a9cb410ff61f20015ad"
    );
    assert_eq!(current_clipboard_signature(&Vec::new(), None).unwrap(), "mime:none;text:none");
}

#[test]
fn polling_counts_changes_of_signature() {
    let mut state = ClipboardChangeState::new();
    assert_eq!(polling_clipboard_change_count(&mut state, None), 0);
    assert_eq!(polling_clipboard_change_count(&mut state, Some("a".to_owned())), 1);
    assert_eq!(polling_clipboard_change_count(&mut state, Some("a".to_owned())), 1);
    assert_eq!(polling_clipboard_change_count(&mut state, Some("b".to_owned())), 2);
    assert_eq!(polling_clipboard_change_count(&mut state, None), 3);
}

#[test]
fn change_count_wraps() {
    let mut state = ClipboardChangeState { next_change_count: i64::MAX, last_signature: None };
    assert_eq!(polling_clipboard_change_count(&mut state, Some("x".to_owned())), i64::MIN);
}

#[test]
fn wayland_count_is_taken_as_is() {
    let mut state = ClipboardChangeState::new();
    assert_eq!(
        clipboard_change_count(&mut state, ClipboardChangeSource::Wayland { change_count: 17 }),
        17
    );
    assert_eq!(state.next_change_count, 0);
    assert_eq!(
        clipboard_change_count(
            &mut state,
            ClipboardChangeSource::Polled { signature: Some("s".to_owned()) }
        ),
        1
    );
}

#[test]
fn own_write_is_ignored_once() {
    let mut pending = Some(PendingClipboardWrite {
        due_at_ms: 1000,
        expected_hash: clipboard_bytes_hash(b"copied"),
    });
    assert!(!should_ignore_self_clipboard_write(&mut pending, 500, b"other"));
    assert!(pending.is_some());
    assert!(should_ignore_self_clipboard_write(&mut pending, 500, b"copied"));
    assert!(pending.is_none());
    assert!(!should_ignore_self_clipboard_write(&mut pending, 500, b"copied"));
}

#[test]
fn expired_own_write_is_dropped() {
    let mut pending = Some(PendingClipboardWrite {
        due_at_ms: 1000,
        expected_hash: clipboard_bytes_hash(b"copied"),
    });
    assert!(!should_ignore_self_clipboard_write(&mut pending, 1001, b"copied"));
    assert!(pending.is_none());
}

#[test]
fn secret_autoclear_only_clears_the_secret() {
    let secret = PendingClipboardWrite { due_at_ms: 30_000, expected_hash: clipboard_text_hash("hunter2") };
    let mut pending = Some(secret);
    assert!(!secret_autoclear_due(&pending, 29_999));
    assert!(secret_autoclear_due(&pending, 30_000));
    assert!(finish_secret_autoclear(&mut pending, Some("hunter2".to_owned())));
    assert!(pending.is_none());

    let mut pending = Some(PendingClipboardWrite { due_at_ms: 0, expected_hash: clipboard_text_hash("hunter2") });
    assert!(!finish_secret_autoclear(&mut pending, Some("something else".to_owned())));
    assert!(pending.is_none());
    let mut pending = Some(PendingClipboardWrite { due_at_ms: 0, expected_hash: clipboard_text_hash("hunter2") });
    assert!(!finish_secret_autoclear(&mut pending, None));
    assert!(!secret_autoclear_due(&None, 5));
}

fn snapshot(text: &str, concealed: bool, transient: bool) -> ClipboardSnapshot {
    ClipboardSnapshot { text: text.to_owned(), is_concealed: concealed, is_transient: transient }
}

#[test]
fn own_write_expectation_recognises_the_text() {
    let pending = expect_own_write("", 100);
    assert_eq!(pending.due_at_ms, 2_100);
    assert_eq!(pending.expected_hash, clipboard_text_hash(""));
    assert_eq!(expect_own_write("x", u64::MAX - 1).due_at_ms, u64::MAX);
}

#[test]
fn captured_changes_are_recorded_or_skipped() {
    let mut own = Some(expect_own_write("mine", 0));
    let mut timer = None;
    assert!(matches!(
        capture_clipboard_change(&mut own, &mut timer, &snapshot("mine", false, false), true, 10),
        Capture::Skip
    ));
    assert!(own.is_none());
    match capture_clipboard_change(&mut own, &mut timer, &snapshot("mine", false, false), true, 20) {
        Capture::Record(hash) => assert_eq!(hash, clipboard_text_hash("mine")),
        Capture::Skip => panic!("a second copy is recorded"),
    }
    assert!(timer.is_none());
    assert!(matches!(
        capture_clipboard_change(&mut own, &mut timer, &snapshot("tmp", true, true), true, 30),
        Capture::Skip
    ));
    assert!(timer.is_none());
}

#[test]
fn concealed_copy_arms_the_auto_clear_when_enabled() {
    let mut own = None;
    let mut timer = None;
    assert!(matches!(
        capture_clipboard_change(&mut own, &mut timer, &snapshot("hunter2", true, false), false, 5),
        Capture::Record(_)
    ));
    assert!(timer.is_none());
    capture_clipboard_change(&mut own, &mut timer, &snapshot("hunter2", true, false), true, 5);
    let armed = timer.as_ref().expect("armed");
    assert_eq!(armed.due_at_ms, 5 + SECRET_AUTO_CLEAR_MS);
    assert_eq!(armed.expected_hash, clipboard_text_hash("hunter2"));
    capture_clipboard_change(&mut own, &mut timer, &snapshot("plain", false, false), true, 6);
    assert_eq!(timer.as_ref().map(|t| t.due_at_ms), Some(5 + SECRET_AUTO_CLEAR_MS));
}
