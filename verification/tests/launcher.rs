use pasta::launcher::{
    action_bar_status, command_and_pin_keys, empty_preview_message, launcher_sections, pin_label,
    preview_text, EMPTY_HISTORY_MESSAGE,
    primary_action, search_placeholder, secret_pill,
};
use pasta::presentation::{CachedRowPresentation, ClipboardItemType, RowSource};

#[test]
fn placeholder_follows_the_mode() {
    assert_eq!(search_placeholder(true), "Search emoji");
    assert_eq!(search_placeholder(false), "Pasta");
}

#[test]
fn primary_action_reveals_only_a_masked_secret() {
    assert_eq!(primary_action(false, true, false), ("Reveal", "Ctrl+R"));
    assert_eq!(primary_action(false, true, true), ("Reveal", "⌘R"));
    assert_eq!(primary_action(false, false, false), ("Copy", "↵"));
    assert_eq!(primary_action(true, true, false), ("Copy", "↵"));
    assert_eq!(command_and_pin_keys(false), ("Ctrl+H", "Ctrl+Shift+P"));
    assert_eq!(command_and_pin_keys(true), ("⌘H", "⌘⇧P"));
    assert_eq!(pin_label(true), "Unpin");
    assert_eq!(pin_label(false), "Pin");
}

#[test]
fn status_names_the_emoji_or_the_mode() {
    assert_eq!(action_bar_status(true, Some("grinning face"), true), "grinning face");
    assert_eq!(action_bar_status(true, None, false), "Emoji picker");
    assert_eq!(action_bar_status(false, None, true), "Pinned — won't auto-hide");
    assert_eq!(action_bar_status(false, Some("x"), false), "Clipboard history");
}

#[test]
fn secret_pill_counts_down_or_locks() {
    assert_eq!(secret_pill(ClipboardItemType::Password, Some(12)), Some("OPEN 12s".to_owned()));
    assert_eq!(secret_pill(ClipboardItemType::Password, Some(0)), Some("OPEN 0s".to_owned()));
    assert_eq!(secret_pill(ClipboardItemType::Password, None), Some("LOCKED".to_owned()));
    assert_eq!(secret_pill(ClipboardItemType::Code, Some(3)), None);
}

#[test]
fn preview_pane_picks_the_preview() {
    assert_eq!(empty_preview_message(true), "Nothing to inspect.");
    assert_eq!(empty_preview_message(false), "No matches.");
    let row = CachedRowPresentation::from_record(&RowSource {
        content: "secret".to_owned(),
        image_metadata: None,
        created_label: "now".to_owned(),
        detected_language: None,
        collapsed_preview: "short".to_owned(),
        expanded_preview: "long text".to_owned(),
        expanded_preview_truncated: false,
        masked_preview: "••••".to_owned(),
    });
    assert_eq!(preview_text(&row, true, true), "••••");
    assert_eq!(preview_text(&row, false, true), "long text");
    assert_eq!(preview_text(&row, false, false), "short");
}

#[test]
fn sections_follow_the_launcher_state() {
    let s = launcher_sections(false, true, true, true, false);
    assert!(!s.emoji_workspace && s.results_and_preview && s.empty_history_message);
    assert!(s.tag_suggestions && !s.command_help);
    let s = launcher_sections(true, true, true, true, true);
    assert!(s.emoji_workspace && !s.results_and_preview && !s.empty_history_message);
    assert!(!s.tag_suggestions && s.command_help);
    let s = launcher_sections(false, false, true, false, false);
    assert!(!s.empty_history_message && !s.tag_suggestions);
    assert_eq!(EMPTY_HISTORY_MESSAGE, "Nothing copied yet.");
}
