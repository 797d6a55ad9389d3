use pasta::emoji::{
    build_emoji_entries, emoji_asset_path, emoji_entries_from, entry_at, lexical_emoji_score,
    merge_keywords, parse_cldr_annotations, rank_by_score, search_emojis_lexical,
    should_show_emoji_affordance, unescape_xml_entities, CatalogEmoji, CldrAnnotations, EmojiEntry,
};
use pasta::emoji::cldr_keywords;

fn strings(items: &[&str]) -> Vec<String> {
    items.iter().map(|s| s.to_string()).collect()
}

fn entry(glyph: &str, name: &str, keywords: &[&str]) -> EmojiEntry {
    EmojiEntry { glyph: glyph.to_owned(), name: name.to_owned(), keywords: strings(keywords) }
}

#[test]
fn xml_entities_are_decoded_in_order() {
    assert_eq!(unescape_xml_entities("fish &amp; chips"), "fish & chips");
    assert_eq!(unescape_xml_entities("&lt;tag&gt;"), "<tag>");
    assert_eq!(unescape_xml_entities("&amp;lt;"), "<");
    assert_eq!(unescape_xml_entities("plain"), "plain");
}

#[test]
fn cldr_annotations_are_parsed() {
    let xml = "<ldml>\n  <annotation cp=\"😀\">face | grin | happy</annotation>\n  <annotation cp=\"😀\" type=\"tts\">grinning face</annotation>\n  <annotation cp=\"&amp;\">and &amp; more |  </annotation>\n  <annotation cp=\"x\"> | </annotation>\n  <annotation cp=\"y\">unterminated\n</ldml>\n";
    let parsed = parse_cldr_annotations(xml);
    assert_eq!(cldr_keywords(&parsed, "😀").cloned(), Some(strings(&["face", "grin", "happy"])));
    assert_eq!(cldr_keywords(&parsed, "&amp;").cloned(), Some(strings(&["and & more"])));
    assert!(cldr_keywords(&parsed, "x").is_none());
    assert!(cldr_keywords(&parsed, "y").is_none());
    assert!(cldr_keywords(&parsed, "grinning face").is_none());
}

#[test]
fn later_annotation_replaces_earlier() {
    let xml = "<annotation cp=\"a\">one</annotation>\n<annotation cp=\"a\">two | three</annotation>";
    let parsed = parse_cldr_annotations(xml);
    assert_eq!(cldr_keywords(&parsed, "a").cloned(), Some(strings(&["two", "three"])));
}

#[test]
fn emoji_affordance_triggers_on_prefixes_of_emoji() {
    assert!(should_show_emoji_affordance("e"));
    assert!(should_show_emoji_affordance("  EMO "));
    assert!(should_show_emoji_affordance("emoji"));
    assert!(!should_show_emoji_affordance("emojis"));
    assert!(!should_show_emoji_affordance("   "));
    assert!(!should_show_emoji_affordance("moji"));
}

#[test]
fn entry_lookup() {
    let entries = vec![entry("😀", "grinning face", &["grinning"])];
    assert_eq!(entry_at(&entries, 0), Some(("😀", "grinning face")));
    assert_eq!(entry_at(&entries, 1), None);
}

#[test]
fn keywords_merge_without_duplicates() {
    assert_eq!(
        merge_keywords(strings(&["smile", "happy"]), &strings(&["happy", "joy", "smile", "fun"])),
        strings(&["smile", "happy", "joy", "fun"])
    );
}

#[test]
fn corpus_entries_take_annotation_keywords() {
    let annotations = CldrAnnotations {
        entries: vec![("😀".to_owned(), strings(&["face", "grin"]))],
    };
    let catalog = vec![
        CatalogEmoji { glyph: "😀".to_owned(), name: "grinning face".to_owned(), shortcodes: strings(&["grinning"]) },
        CatalogEmoji { glyph: "🚀".to_owned(), name: "rocket".to_owned(), shortcodes: strings(&["rocket"]) },
    ];
    let entries = emoji_entries_from(catalog, &annotations);
    assert_eq!(entries.len(), 2);
    assert_eq!(entries[0].keywords, strings(&["grinning", "face", "grin"]));
    assert_eq!(entries[1].keywords, strings(&["rocket"]));
}

#[test]
fn built_corpus_covers_the_emojis_crate() {
    let entries = build_emoji_entries(&CldrAnnotations { entries: vec![("🚀".to_owned(), strings(&["spaceship"]))] });
    assert!(entries.len() > 1000);
    let rocket = entries.iter().find(|e| e.glyph == "🚀").expect("rocket is listed");
    assert_eq!(rocket.name, "rocket");
    assert!(rocket.keywords.contains(&"spaceship".to_owned()));
}

#[test]
fn lexical_scores_in_half_points() {
    let e = entry("😀", "grinning face", &["grinning", "smile"]);
    let terms = strings(&["grinning", "face", "smiley"]);
    assert_eq!(lexical_emoji_score(&e, &terms, &"grinning face".to_owned(), &strings(&["x"])), 4);
    assert_eq!(
        lexical_emoji_score(&e, &terms, &"smile".to_owned(), &strings(&["x", "y", "z"])),
        8
    );
    assert_eq!(
        lexical_emoji_score(&e, &terms, &"grin fac".to_owned(), &strings(&["grin", "face"])),
        3
    );
    assert_eq!(lexical_emoji_score(&e, &terms, &"cat".to_owned(), &strings(&["cat"])), 0);
}

#[test]
fn ranking_orders_by_score_then_index() {
    assert_eq!(rank_by_score(&vec![0, 2, 5, 2, 0, 5], 10), vec![2, 5, 1, 3]);
    assert_eq!(rank_by_score(&vec![0, 2, 5, 2, 0, 5], 3), vec![2, 5, 1]);
    assert!(rank_by_score(&vec![0, 0], 3).is_empty());
    assert!(rank_by_score(&vec![1, 2], 0).is_empty());
}

#[test]
fn empty_query_lists_the_first_entries() {
    let entries = vec![entry("a", "a", &[]), entry("b", "b", &[]), entry("c", "c", &[])];
    let terms = vec![Vec::new(), Vec::new(), Vec::new()];
    assert_eq!(search_emojis_lexical(&entries, &terms, "  ", &Vec::new(), 2), vec![0, 1]);
    assert_eq!(search_emojis_lexical(&entries, &terms, "", &Vec::new(), 9), vec![0, 1, 2]);
}

#[test]
fn lexical_search_ranks_matches() {
    let entries = vec![
        entry("🐱", "cat face", &["cat"]),
        entry("🐈", "cat", &["feline"]),
        entry("🐶", "dog face", &["dog"]),
    ];
    let terms = vec![strings(&["cat", "face"]), strings(&["cat", "feline"]), strings(&["dog", "face"])];
    assert_eq!(search_emojis_lexical(&entries, &terms, " Cat ", &strings(&["cat"]), 10), vec![0, 1]);
    assert_eq!(search_emojis_lexical(&entries, &terms, "face", &strings(&["face"]), 10), vec![0, 2]);
    assert!(search_emojis_lexical(&entries, &terms, "bird", &strings(&["bird"]), 10).is_empty());
    for query in ["", "cat", "face", "a"] {
        for index in search_emojis_lexical(&entries, &terms, query, &strings(&[query]), 10) {
            assert!(entry_at(&entries, index).is_some());
        }
    }
}

#[test]
fn asset_path_uses_hex_codepoints() {
    assert_eq!(emoji_asset_path("🇺🇸"), "emoji/1f1fa-1f1f8.png");
    assert_eq!(emoji_asset_path("😀"), "emoji/1f600.png");
    assert_eq!(emoji_asset_path("❤️"), "emoji/2764-fe0f.png");
}

#[test]
fn built_corpus_begins_with_the_leading_faces() {
    let entries = build_emoji_entries(&CldrAnnotations {
        entries: vec![("😆".to_owned(), strings(&["laughing", "lol"]))],
    });
    let head: Vec<(&str, &str)> =
        entries.iter().take(5).map(|e| (e.glyph.as_str(), e.name.as_str())).collect();
    assert_eq!(
        head,
        vec![
            ("😀", "grinning face"),
            ("😃", "grinning face with big eyes"),
            ("😄", "grinning face with smiling eyes"),
            ("😁", "beaming face with smiling eyes"),
            ("😆", "grinning squinting face"),
        ]
    );
    assert_eq!(entries.len(), 1923);
    let mut glyphs: Vec<&str> = entries.iter().map(|e| e.glyph.as_str()).collect();
    glyphs.sort();
    glyphs.dedup();
    assert_eq!(glyphs.len(), entries.len());
    assert_eq!(entries[0].keywords, strings(&["grinning"]));
    assert_eq!(entries[4].keywords, strings(&["laughing", "satisfied", "lol"]));
}

#[test]
fn exact_match_outranks_any_number_of_term_matches() {
    let entries = vec![entry("🅰", "q", &[]), entry("🅱", "other", &["x"])];
    let terms = vec![strings(&["q"]), strings(&["x"])];
    let query_terms = strings(&["x", "x", "x", "x"]);
    assert_eq!(search_emojis_lexical(&entries, &terms, "q", &query_terms, 10), vec![0, 1]);
    assert_eq!(search_emojis_lexical(&entries, &terms, "Q ", &query_terms, 1), vec![0]);
}
