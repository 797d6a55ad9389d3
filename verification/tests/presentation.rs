use pasta::presentation::{
    command_help_tips, search_suggestion_heading, search_suggestion_label, single_line_title,
    tag_chip_color, type_color, type_icon_glyph, CachedRowPresentation, ChipColor,
    ClipboardItemType, LanguageTag, RowSource, SearchQueryKind, TextInputState,
};

fn text_row(content: &str, collapsed: &str, expanded: &str) -> RowSource {
    RowSource {
        content: content.to_owned(),
        image_metadata: None,
        created_label: "2m ago".to_owned(),
        detected_language: Some(LanguageTag::Rust),
        collapsed_preview: collapsed.to_owned(),
        expanded_preview: expanded.to_owned(),
        expanded_preview_truncated: true,
        masked_preview: "••••".to_owned(),
    }
}

#[test]
fn title_is_the_first_non_blank_line_squeezed() {
    assert_eq!(single_line_title("\n   \n  fn   main()\t{ \nnext", ""), "fn main() {");
    assert_eq!(single_line_title("", "fallback  line\nsecond"), "fallback line");
    assert_eq!(single_line_title(" \n\t", ""), "Empty");
    assert_eq!(single_line_title("one\r\ntwo", ""), "one");
}

#[test]
fn text_input_state_resets_and_reports_the_caret() {
    let mut state = TextInputState::new();
    assert_eq!(state.cursor_offset(), 0);
    state.selected_range = 2..7;
    assert_eq!(state.cursor_offset(), 7);
    state.selection_reversed = true;
    assert_eq!(state.cursor_offset(), 2);
    state.marked_range = Some(1..3);
    state.is_selecting = true;
    state.reset();
    assert_eq!(state.selected_range, 0..0);
    assert!(!state.selection_reversed);
    assert!(state.marked_range.is_none());
    assert!(!state.is_selecting);
}

#[test]
fn text_row_presentation() {
    let row = CachedRowPresentation::from_record(&text_row("  let x = 1;\nlet y = 2;", "let x", "a\nb\nc\n"));
    assert_eq!(row.title, "let x = 1;");
    assert_eq!(row.created_label, "2m ago");
    assert!(row.detected_language == Some(LanguageTag::Rust));
    assert_eq!(row.expanded_preview_line_count, 3);
    assert!(row.expanded_preview_truncated);
    assert_eq!(row.masked_preview, "••••");
}

#[test]
fn image_row_presentation() {
    let mut source = text_row("", "", "");
    source.image_metadata = Some("PNG 640×480".to_owned());
    let row = CachedRowPresentation::from_record(&source);
    assert_eq!(row.title, "PNG 640×480");
    assert_eq!(row.collapsed_preview, "PNG 640×480");
    assert_eq!(row.expanded_preview, "PNG 640×480");
    assert_eq!(row.expanded_preview_line_count, 1);
    assert!(!row.expanded_preview_truncated);
    assert!(row.detected_language.is_none());
    assert!(row.masked_preview.is_empty());
    let rows = CachedRowPresentation::collect(&[source, text_row("x", "x", "x")]);
    assert_eq!(rows.len(), 2);
    assert_eq!(rows[1].title, "x");
}

#[test]
fn suggestion_headings_and_labels() {
    assert_eq!(search_suggestion_heading(&SearchQueryKind::TagOnly), "Tag suggestions");
    assert_eq!(search_suggestion_heading(&SearchQueryKind::Bowl), "Bowl suggestions");
    assert_eq!(search_suggestion_heading(&SearchQueryKind::ExportBowl), "Bowl suggestions");
    assert_eq!(search_suggestion_heading(&SearchQueryKind::Default), "Suggestions");
    assert_eq!(search_suggestion_label(&SearchQueryKind::TagOnly, "k8s"), ":k8s");
    assert_eq!(search_suggestion_label(&SearchQueryKind::Bowl, "ops"), ":b ops");
    assert_eq!(search_suggestion_label(&SearchQueryKind::ExportBowl, "ops"), ":e ops");
    assert_eq!(search_suggestion_label(&SearchQueryKind::Default, "ops"), "ops");
}

#[test]
fn help_tips_per_platform() {
    let linux = command_help_tips(false);
    assert_eq!(linux.len(), 20);
    assert_eq!(linux[1], "Ctrl+R reveal");
    assert_eq!(linux[19], "Ctrl+H hide help");
    let mac = command_help_tips(true);
    assert_eq!(mac[1], "⌘R reveal");
    assert_eq!(mac[0], linux[0]);
}

#[test]
fn type_glyphs_and_colors() {
    assert_eq!(type_icon_glyph(ClipboardItemType::Text), "T");
    assert_eq!(type_icon_glyph(ClipboardItemType::Code), "#");
    assert_eq!(type_icon_glyph(ClipboardItemType::Command), "$");
    assert_eq!(type_icon_glyph(ClipboardItemType::Password), "*");
    assert_eq!(type_color(ClipboardItemType::Code, true), 0x5FB99A);
    assert_eq!(type_color(ClipboardItemType::Code, false), 0x3F8C6E);
}

#[test]
fn tag_chip_colors() {
    assert!(tag_chip_color("OPEN https://x", true) == ChipColor::Rgb(0x4ade80));
    assert!(tag_chip_color("P:port", false) == ChipColor::Rgb(0x0e7490));
    assert!(tag_chip_color("LOCKED", true) == ChipColor::Rgb(0xfb7185));
    assert!(tag_chip_color("CMD", true) == ChipColor::Rgb(0xCFA85F));
    assert!(tag_chip_color("SECRET", false) == ChipColor::Rgb(0xA85F81));
    assert!(tag_chip_color("RUST", true) == ChipColor::Language(LanguageTag::Rust));
    assert!(tag_chip_color("C++", true) == ChipColor::Language(LanguageTag::Cpp));
    assert!(tag_chip_color("LONG", false) == ChipColor::Rgb(0xc2410c));
    assert!(tag_chip_color("whatever", true) == ChipColor::Rgb(0xd1d5db));
    assert!(tag_chip_color("whatever", false) == ChipColor::Rgb(0x4b5563));
}
