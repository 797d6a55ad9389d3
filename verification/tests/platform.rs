use pasta::assets::{asset_route, AssetRoute};
use pasta::fonts::{normalize_font_name, resolve_font_family};
use pasta::neural::{cached_embeddings_usable, compose_text, corpus_fingerprint, MODEL_VERSION};
use pasta::emoji::EmojiEntry;
use pasta::tray::{
    autostart_needs_write, configure_background_mode, launch_agent_is_installed,
    menu_command_from_tag, neural_download_label, render_autostart_entry, MenuCommand,
    NeuralStatus, PastaTray, StyleToggles, TrayMenuItem, MENU_TAG_BRAIN_ON, MENU_TAG_QUIT,
};
use pasta::window::{centered_position, is_launcher_window, MonitorRect};

fn strings(items: &[&str]) -> Vec<String> {
    items.iter().map(|s| s.to_string()).collect()
}

#[test]
fn font_names_normalise() {
    assert_eq!(normalize_font_name("Geist Mono"), "geistmono");
    assert_eq!(normalize_font_name("GeistMono-Regular"), "geistmonoregular");
    assert_eq!(normalize_font_name(" -- "), "");
}

#[test]
fn normalising_twice_changes_nothing() {
    for name in ["Geist Mono", "GeistMono-Regular", "Ünïcode Sans 2", " -- ", ""] {
        let once = normalize_font_name(name);
        assert_eq!(normalize_font_name(&once), once);
    }
}

#[test]
fn font_family_prefers_exact_matches() {
    let names = strings(&["Geist Mono", "Geist", "DejaVu Sans"]);
    assert_eq!(resolve_font_family(&names, &strings(&["Geist"])), Some("Geist".to_owned()));
    assert_eq!(
        resolve_font_family(&names, &strings(&["Geist Mono", "GeistMono"])),
        Some("Geist Mono".to_owned())
    );
    assert_eq!(resolve_font_family(&names, &strings(&["Dejavu"])), Some("DejaVu Sans".to_owned()));
    assert_eq!(resolve_font_family(&names, &strings(&["", "Noto"])), None);
}

#[test]
fn compose_text_joins_terms_and_trims() {
    assert_eq!(compose_text("  hello ", &Vec::new()), "hello");
    assert_eq!(compose_text("grinning face", &strings(&["happy", "joy"])), "grinning face happy joy");
    assert_eq!(compose_text("", &strings(&["x"])), "x");
}

#[test]
fn cache_validity() {
    assert!(cached_embeddings_usable(MODEL_VERSION, "f", "f", 1536 * 3, 3));
    assert!(!cached_embeddings_usable("old-model", "f", "f", 1536 * 3, 3));
    assert!(!cached_embeddings_usable(MODEL_VERSION, "f", "g", 1536 * 3, 3));
    assert!(!cached_embeddings_usable(MODEL_VERSION, "f", "f", 1536 * 3 + 1, 3));
    assert!(!cached_embeddings_usable(MODEL_VERSION, "f", "f", 1536 * 2, 3));
}

#[test]
fn corpus_fingerprint_is_sha256_of_names_and_keywords() {
    let entries = vec![EmojiEntry { glyph: "a".to_owned(), name: "ab".to_owned(), keywords: strings(&["c"]) }];
    // SHA-256 of "ab\0c\0\n".
    assert_eq!(
        corpus_fingerprint(&entries),
        pasta::digest::clipboard_bytes_hash(b"ab\0c\0\n")
    );
    let other = vec![EmojiEntry { glyph: "a".to_owned(), name: "ab".to_owned(), keywords: strings(&["d"]) }];
    assert_ne!(corpus_fingerprint(&entries), corpus_fingerprint(&other));
    assert_eq!(corpus_fingerprint(&Vec::new()), pasta::digest::clipboard_bytes_hash(b""));
}

#[test]
fn menu_tags_map_to_commands() {
    assert!(menu_command_from_tag(MENU_TAG_QUIT) == Some(MenuCommand::QuitApp));
    assert!(menu_command_from_tag(MENU_TAG_BRAIN_ON) == Some(MenuCommand::SetPastaBrain(true)));
    assert!(menu_command_from_tag(-1).is_none());
}

#[test]
fn download_labels() {
    assert_eq!(neural_download_label(NeuralStatus::Loading), "Downloading Model...");
    assert_eq!(neural_download_label(NeuralStatus::Ready), "Model Ready");
    assert_eq!(neural_download_label(NeuralStatus::Failed), "Download Model (Retry)");
}

#[test]
fn launch_agent_and_autostart() {
    configure_background_mode();
    assert!(launch_agent_is_installed(Some(true)));
    assert!(!launch_agent_is_installed(Some(false)));
    assert!(!launch_agent_is_installed(None));
    let entry = render_autostart_entry("/usr/bin/pasta-launcher");
    assert_eq!(
        entry,
        "[Desktop Entry]\nType=Application\nName=Pasta\nComment=Clipboard manager for devs and devops\nExec=/usr/bin/pasta-launcher\nTerminal=false\nStartupNotify=false\nX-GNOME-Autostart-enabled=true\n"
    );
    assert!(!autostart_needs_write(Some(entry.clone()), &entry));
    assert!(autostart_needs_write(Some("old".to_owned()), &entry));
    assert!(autostart_needs_write(None, &entry));
}

#[test]
fn tray_menu_follows_state() {
    let mut tray = PastaTray {
        secret_auto_clear: false,
        pasta_brain_enabled: false,
        neural_status: NeuralStatus::Failed,
        launch_at_login_enabled: false,
    };
    tray.sync_from_app(
        &StyleToggles { secret_auto_clear: true, pasta_brain_enabled: false },
        NeuralStatus::Ready,
        true,
    );
    assert!(tray.secret_auto_clear && tray.launch_at_login_enabled);
    let sent = tray.activate_item(MenuCommand::SetPastaBrain(true));
    assert!(sent == MenuCommand::SetPastaBrain(true));
    assert!(tray.pasta_brain_enabled);
    let items = tray.menu();
    assert_eq!(items.len(), 10);
    match &items[4] {
        TrayMenuItem::SubMenu { label, items: prefs } => {
            assert_eq!(*label, "Preferences");
            match &prefs[1] {
                TrayMenuItem::SubMenu { items: brain, .. } => {
                    assert!(matches!(brain[0], TrayMenuItem::Checkmark { checked: true, .. }));
                    assert!(matches!(brain[3], TrayMenuItem::Standard { label: "Model Ready", .. }));
                }
                _ => panic!("expected the brain submenu"),
            }
        }
        _ => panic!("expected preferences"),
    }
    assert!(matches!(items[6], TrayMenuItem::Checkmark { checked: true, .. }));
    assert!(matches!(items[9], TrayMenuItem::Standard { label: "Quit", .. }));
}

#[test]
fn launcher_window_recognition() {
    assert!(is_launcher_window(1720, 896, Some(7), 7, 1720, 896));
    assert!(is_launcher_window(1722, 894, Some(7), 7, 1720, 896));
    assert!(!is_launcher_window(1723, 896, Some(7), 7, 1720, 896));
    assert!(!is_launcher_window(1720, 896, Some(8), 7, 1720, 896));
    assert!(!is_launcher_window(1720, 896, None, 7, 1720, 896));
    assert!(!is_launcher_window(1, 1, Some(7), 7, 1720, 896));
}

#[test]
fn centring_on_the_primary_monitor() {
    let primary = MonitorRect { x: 0, y: 0, width: 2560, height: 1600 };
    assert_eq!(centered_position(Some(primary), 6400, 2160, 1720, 896), (420, 352));
    let right = MonitorRect { x: 2560, y: 0, width: 3840, height: 2160 };
    assert_eq!(centered_position(Some(right), 6400, 2160, 1720, 896), (2560 + 1060, 632));
    assert_eq!(centered_position(None, 1001, 800, 100, 100), (450, 350));
    assert_eq!(centered_position(None, 100, 100, 201, 100), (-50, 0));
}

#[test]
fn asset_routes() {
    match asset_route("emoji/1f600.png") {
        AssetRoute::EmojiPng(name) => assert_eq!(name, "1f600.png"),
        _ => panic!("expected an emoji png"),
    }
    assert!(matches!(asset_route("icons/search.svg"), AssetRoute::SearchIcon));
    assert!(matches!(asset_route("icons/chevron-left.svg"), AssetRoute::ChevronLeftIcon));
    assert!(matches!(asset_route("icons/other.svg"), AssetRoute::Missing));
}
