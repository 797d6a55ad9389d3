//! What the launcher window shows for its state: which sections appear, the
//! search field's placeholder, the action bar's labels and keys, a secret
//! row's pill, and which preview of the selected item the preview pane shows.
use vstd::prelude::*;
use crate::digits::{decimal, decimal_string};
use crate::presentation::{CachedRowPresentation, ClipboardItemType};
use crate::text::push_all;

verus! {

/// What the results list says when the history is empty.
pub const EMPTY_HISTORY_MESSAGE: &'static str = "Nothing copied yet.";

/// Which parts the launcher window shows below its search field.
pub struct LauncherSections {
    /// The emoji grid in place of the results list and preview pane.
    pub emoji_workspace: bool,
    /// The results list and the preview pane.
    pub results_and_preview: bool,
    /// `EMPTY_HISTORY_MESSAGE` in place of the results list.
    pub empty_history_message: bool,
    /// The tag suggestions under the search field.
    pub tag_suggestions: bool,
    /// The command reference above the action bar.
    pub command_help: bool,
}

/// The sections for a launcher state: the emoji picker replaces the results
/// list and preview pane; an empty history shows its message instead of the
/// list; tag suggestions show when there are some, the search field takes
/// input and the emoji picker is off; the command reference when it is
/// toggled on.
pub fn launcher_sections(
    emoji_search_active: bool,
    history_is_empty: bool,
    has_tag_suggestions: bool,
    query_input_enabled: bool,
    show_command_help: bool,
) -> (sections: LauncherSections)
    ensures
        sections.emoji_workspace == emoji_search_active,
        sections.results_and_preview == !emoji_search_active,
        sections.empty_history_message == (!emoji_search_active && history_is_empty),
        sections.tag_suggestions == (has_tag_suggestions && query_input_enabled && !emoji_search_active),
        sections.command_help == show_command_help,
{
    LauncherSections {
        emoji_workspace: emoji_search_active,
        results_and_preview: !emoji_search_active,
        empty_history_message: !emoji_search_active && history_is_empty,
        tag_suggestions: has_tag_suggestions && query_input_enabled && !emoji_search_active,
        command_help: show_command_help,
    }
}

/// The search field's placeholder: the emoji picker's, or the app's name.
pub fn search_placeholder(emoji_search_active: bool) -> (placeholder: &'static str)
    ensures
        placeholder@ == if emoji_search_active {
            "Search emoji"@
        } else {
            "Pasta"@
        },
{
    if emoji_search_active {
        "Search emoji"
    } else {
        "Pasta"
    }
}

/// The primary action and its key: a selected secret that is still masked is
/// revealed (Ctrl+R, ⌘R on macOS); anything else, and every emoji, is copied
/// with Enter.
pub fn primary_action(emoji_search_active: bool, selected_is_masked_secret: bool, macos: bool) -> (action: (
    &'static str,
    &'static str,
))
    ensures
        !emoji_search_active && selected_is_masked_secret ==> action.0@ == "Reveal"@ && action.1@
            == if macos {
            "⌘R"@
        } else {
            "Ctrl+R"@
        },
        emoji_search_active || !selected_is_masked_secret ==> action.0@ == "Copy"@ && action.1@
            == "↵"@,
{
    if !emoji_search_active && selected_is_masked_secret {
        ("Reveal", if macos { "⌘R" } else { "Ctrl+R" })
    } else {
        ("Copy", "↵")
    }
}

/// The keys of the Commands entry and of pinning.
pub fn command_and_pin_keys(macos: bool) -> (keys: (&'static str, &'static str))
    ensures
        keys.0@ == if macos {
            "⌘H"@
        } else {
            "Ctrl+H"@
        },
        keys.1@ == if macos {
            "⌘⇧P"@
        } else {
            "Ctrl+Shift+P"@
        },
{
    if macos {
        ("⌘H", "⌘⇧P")
    } else {
        ("Ctrl+H", "Ctrl+Shift+P")
    }
}

/// The pin action's label: what pressing it would do.
pub fn pin_label(pinned: bool) -> (label: &'static str)
    ensures
        label@ == if pinned {
            "Unpin"@
        } else {
            "Pin"@
        },
{
    if pinned {
        "Unpin"
    } else {
        "Pin"
    }
}

/// The action bar's status: in the emoji picker the selected emoji's name (or
/// "Emoji picker" with nothing selected); otherwise whether the launcher is
/// pinned open.
pub fn action_bar_status(emoji_search_active: bool, selected_emoji_name: Option<&str>, pinned: bool) -> (status:
    String)
    ensures
        status@ == if emoji_search_active {
            match selected_emoji_name {
                Some(name) => name@,
                None => "Emoji picker"@,
            }
        } else if pinned {
            "Pinned — won't auto-hide"@
        } else {
            "Clipboard history"@
        },
{
    if emoji_search_active {
        match selected_emoji_name {
            Some(name) => String::from_str(name),
            None => String::from_str("Emoji picker"),
        }
    } else if pinned {
        String::from_str("Pinned — won't auto-hide")
    } else {
        String::from_str("Clipboard history")
    }
}

/// The pill a secret row carries: `OPEN {n}s` while it is revealed with `n`
/// seconds left, `LOCKED` otherwise; other rows carry none.
pub open spec fn secret_pill_text(item_type: ClipboardItemType, seconds_left: Option<u64>) -> Option<
    Seq<char>,
> {
    if item_type == ClipboardItemType::Password {
        match seconds_left {
            Some(n) => Some("OPEN "@ + decimal(n as nat) + "s"@),
            None => Some("LOCKED"@),
        }
    } else {
        None
    }
}

/// The secret state pill of a result row, the only inline chip a row keeps.
pub fn secret_pill(item_type: ClipboardItemType, seconds_left: Option<u64>) -> (pill: Option<String>)
    ensures
        match secret_pill_text(item_type, seconds_left) {
            Some(t) => pill matches Some(p) && p@ == t,
            None => pill is None,
        },
{
    if item_type != ClipboardItemType::Password {
        return None;
    }
    match seconds_left {
        Some(n) => {
            let mut pill = String::from_str("OPEN ");
            push_all(&mut pill, &decimal_string(n));
            pill.append("s");
            Some(pill)
        },
        None => Some(String::from_str("LOCKED")),
    }
}

/// What the preview pane says when nothing is selected.
pub fn empty_preview_message(query_is_empty: bool) -> (message: &'static str)
    ensures
        message@ == if query_is_empty {
            "Nothing to inspect."@
        } else {
            "No matches."@
        },
{
    if query_is_empty {
        "Nothing to inspect."
    } else {
        "No matches."
    }
}

/// The preview shown for the selected row: a masked secret shows its masked
/// form; otherwise the full preview once the selection has settled, the
/// short one before.
pub fn preview_text(row: &CachedRowPresentation, is_masked_secret: bool, settled: bool) -> (text: &String)
    ensures
        text@ == if is_masked_secret {
            row.masked_preview@
        } else if settled {
            row.expanded_preview@
        } else {
            row.collapsed_preview@
        },
{
    if is_masked_secret {
        &row.masked_preview
    } else if settled {
        &row.expanded_preview
    } else {
        &row.collapsed_preview
    }
}

} // verus!
