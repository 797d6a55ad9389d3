//! The status-bar (tray) side of the app: the commands the menu sends, the
//! menu's layout and checkmarks, how activating an item changes the tray's
//! state, and the XDG autostart entry behind "Launch at Login".
use vstd::prelude::*;

verus! {

/// A command for the app, sent by the tray menu, the hotkey or the trigger
/// socket.
#[derive(PartialEq, Eq, Structural, Clone, Copy)]
pub enum MenuCommand {
    ShowLauncher,
    QuitApp,
    ShowAbout,
    SetSecretAutoClear(bool),
    SetPastaBrain(bool),
    DownloadBrain,
    RequestClearHistory,
    ToggleLaunchAtLogin,
}

/// Where the on-device embedding model stands.
#[derive(PartialEq, Eq, Structural, Clone, Copy)]
pub enum NeuralStatus {
    Loading,
    Ready,
    Failed,
}

pub const MENU_TAG_SHOW: isize = 1;

pub const MENU_TAG_QUIT: isize = 2;

pub const MENU_TAG_ABOUT: isize = 3;

pub const MENU_TAG_SECRET_CLEAR_ON: isize = 4;

pub const MENU_TAG_SECRET_CLEAR_OFF: isize = 5;

pub const MENU_TAG_BRAIN_ON: isize = 6;

pub const MENU_TAG_BRAIN_OFF: isize = 7;

pub const MENU_TAG_BRAIN_DOWNLOAD: isize = 8;

pub const MENU_TAG_CLEAR_HISTORY: isize = 9;

pub const MENU_TAG_LAUNCH_AT_LOGIN: isize = 10;

/// The command behind each menu tag.
pub open spec fn command_of_tag(tag: isize) -> Option<MenuCommand> {
    if tag == MENU_TAG_SHOW {
        Some(MenuCommand::ShowLauncher)
    } else if tag == MENU_TAG_QUIT {
        Some(MenuCommand::QuitApp)
    } else if tag == MENU_TAG_ABOUT {
        Some(MenuCommand::ShowAbout)
    } else if tag == MENU_TAG_SECRET_CLEAR_ON {
        Some(MenuCommand::SetSecretAutoClear(true))
    } else if tag == MENU_TAG_SECRET_CLEAR_OFF {
        Some(MenuCommand::SetSecretAutoClear(false))
    } else if tag == MENU_TAG_BRAIN_ON {
        Some(MenuCommand::SetPastaBrain(true))
    } else if tag == MENU_TAG_BRAIN_OFF {
        Some(MenuCommand::SetPastaBrain(false))
    } else if tag == MENU_TAG_BRAIN_DOWNLOAD {
        Some(MenuCommand::DownloadBrain)
    } else if tag == MENU_TAG_CLEAR_HISTORY {
        Some(MenuCommand::RequestClearHistory)
    } else if tag == MENU_TAG_LAUNCH_AT_LOGIN {
        Some(MenuCommand::ToggleLaunchAtLogin)
    } else {
        None
    }
}

/// Maps a menu item tag to its command; unknown tags map to nothing.
pub fn menu_command_from_tag(tag: isize) -> (command: Option<MenuCommand>)
    ensures
        command == command_of_tag(tag),
{
    if tag == MENU_TAG_SHOW {
        Some(MenuCommand::ShowLauncher)
    } else if tag == MENU_TAG_QUIT {
        Some(MenuCommand::QuitApp)
    } else if tag == MENU_TAG_ABOUT {
        Some(MenuCommand::ShowAbout)
    } else if tag == MENU_TAG_SECRET_CLEAR_ON {
        Some(MenuCommand::SetSecretAutoClear(true))
    } else if tag == MENU_TAG_SECRET_CLEAR_OFF {
        Some(MenuCommand::SetSecretAutoClear(false))
    } else if tag == MENU_TAG_BRAIN_ON {
        Some(MenuCommand::SetPastaBrain(true))
    } else if tag == MENU_TAG_BRAIN_OFF {
        Some(MenuCommand::SetPastaBrain(false))
    } else if tag == MENU_TAG_BRAIN_DOWNLOAD {
        Some(MenuCommand::DownloadBrain)
    } else if tag == MENU_TAG_CLEAR_HISTORY {
        Some(MenuCommand::RequestClearHistory)
    } else if tag == MENU_TAG_LAUNCH_AT_LOGIN {
        Some(MenuCommand::ToggleLaunchAtLogin)
    } else {
        None
    }
}

/// The label of the model-download menu item for each model status.
pub fn neural_download_label(status: NeuralStatus) -> (label: &'static str)
    ensures
        label@ == match status {
            NeuralStatus::Loading => "Downloading Model..."@,
            NeuralStatus::Ready => "Model Ready"@,
            NeuralStatus::Failed => "Download Model (Retry)"@,
        },
{
    match status {
        NeuralStatus::Loading => "Downloading Model...",
        NeuralStatus::Ready => "Model Ready",
        NeuralStatus::Failed => "Download Model (Retry)",
    }
}

/// Configures the app as a background process; on Linux that is already the
/// default, so there is nothing to do.
pub fn configure_background_mode() {
}

/// Whether a launch-at-login entry is in place, given whether the autostart
/// path could be resolved and, if so, whether a file exists there.
pub fn launch_agent_is_installed(autostart_entry_exists: Option<bool>) -> (installed: bool)
    ensures
        installed == (autostart_entry_exists == Some(true)),
{
    match autostart_entry_exists {
        Some(exists) => exists,
        None => false,
    }
}

/// The XDG autostart entry that launches `exe_path` at login.
pub open spec fn autostart_entry(exe_path: Seq<char>) -> Seq<char> {
    "[Desktop Entry]\nType=Application\nName=Pasta\nComment=Clipboard manager for devs and devops\nExec="@
        + exe_path
        + "\nTerminal=false\nStartupNotify=false\nX-GNOME-Autostart-enabled=true\n"@
}

/// Renders the autostart entry for the executable at `exe_path`.
pub fn render_autostart_entry(exe_path: &str) -> (entry: String)
    ensures
        entry@ == autostart_entry(exe_path@),
{
    let mut entry = String::from_str(
        "[Desktop Entry]\nType=Application\nName=Pasta\nComment=Clipboard manager for devs and devops\nExec=",
    );
    entry.append(exe_path);
    entry.append("\nTerminal=false\nStartupNotify=false\nX-GNOME-Autostart-enabled=true\n");
    entry
}

/// Whether the autostart file must be (re)written: when it could not be read,
/// or reads differently from the entry.
pub fn autostart_needs_write(existing: Option<String>, entry: &String) -> (write: bool)
    ensures
        write == match existing {
            Some(e) => e@ != entry@,
            None => true,
        },
{
    match existing {
        Some(e) => !(e == *entry),
        None => true,
    }
}

} // verus!

verus! {

/// What the tray menu reflects: the two preference toggles, the model status
/// and whether launch at login is on.
pub struct PastaTray {
    pub secret_auto_clear: bool,
    pub pasta_brain_enabled: bool,
    pub neural_status: NeuralStatus,
    pub launch_at_login_enabled: bool,
}

/// The app's preference toggles that the tray mirrors.
pub struct StyleToggles {
    pub secret_auto_clear: bool,
    pub pasta_brain_enabled: bool,
}

impl PastaTray {
    /// Refreshes the tray from the app's state.
    pub fn sync_from_app(
        &mut self,
        style: &StyleToggles,
        neural_status: NeuralStatus,
        launch_agent_installed: bool,
    )
        ensures
            *final(self) == (PastaTray {
                secret_auto_clear: style.secret_auto_clear,
                pasta_brain_enabled: style.pasta_brain_enabled,
                neural_status,
                launch_at_login_enabled: launch_agent_installed,
            }),
    {
        self.secret_auto_clear = style.secret_auto_clear;
        self.pasta_brain_enabled = style.pasta_brain_enabled;
        self.neural_status = neural_status;
        self.launch_at_login_enabled = launch_agent_installed;
    }

    /// Activating a menu item: the checkmark items flip the tray's own state
    /// at once (so the menu redraws right), and the item's command is sent to
    /// the app.
    pub fn activate_item(&mut self, command: MenuCommand) -> (sent: MenuCommand)
        ensures
            sent == command,
            *final(self) == match command {
                MenuCommand::SetSecretAutoClear(on) => PastaTray { secret_auto_clear: on, ..*old(self) },
                MenuCommand::SetPastaBrain(on) => PastaTray { pasta_brain_enabled: on, ..*old(self) },
                _ => *old(self),
            },
    {
        match command {
            MenuCommand::SetSecretAutoClear(on) => {
                self.secret_auto_clear = on;
            },
            MenuCommand::SetPastaBrain(on) => {
                self.pasta_brain_enabled = on;
            },
            _ => {},
        }
        command
    }
}

/// One item of the tray menu.
pub enum TrayMenuItem {
    Standard { label: &'static str, command: MenuCommand },
    Checkmark { label: &'static str, checked: bool, command: MenuCommand },
    Separator,
    SubMenu { label: &'static str, items: Vec<TrayMenuItem> },
}

/// A standard item with this label and command.
pub open spec fn is_standard(item: TrayMenuItem, label: Seq<char>, command: MenuCommand) -> bool {
    item matches TrayMenuItem::Standard { label: l, command: c } && l@ == label && c == command
}

/// A checkmark item with this label, state and command.
pub open spec fn is_check(item: TrayMenuItem, label: Seq<char>, checked: bool, command: MenuCommand) -> bool {
    item matches TrayMenuItem::Checkmark { label: l, checked: k, command: c } && l@ == label && k
        == checked && c == command
}

/// The "Secret Auto-Clear" submenu.
pub open spec fn is_secret_menu(item: TrayMenuItem, tray: PastaTray) -> bool {
    item matches TrayMenuItem::SubMenu { label, items } && label@ == "Secret Auto-Clear"@
        && items@.len() == 2 && is_check(
        items@[0],
        "Enable (30s)"@,
        tray.secret_auto_clear,
        MenuCommand::SetSecretAutoClear(true),
    ) && is_check(
        items@[1],
        "Disable"@,
        !tray.secret_auto_clear,
        MenuCommand::SetSecretAutoClear(false),
    )
}

/// The "Pasta Brain" submenu, its last item naming the model status.
pub open spec fn is_brain_menu(item: TrayMenuItem, tray: PastaTray) -> bool {
    item matches TrayMenuItem::SubMenu { label, items } && label@ == "Pasta Brain"@ && items@.len()
        == 4 && is_check(items@[0], "Enable"@, tray.pasta_brain_enabled, MenuCommand::SetPastaBrain(true))
        && is_check(items@[1], "Disable"@, !tray.pasta_brain_enabled, MenuCommand::SetPastaBrain(false))
        && items@[2] is Separator && is_standard(
        items@[3],
        match tray.neural_status {
            NeuralStatus::Loading => "Downloading Model..."@,
            NeuralStatus::Ready => "Model Ready"@,
            NeuralStatus::Failed => "Download Model (Retry)"@,
        },
        MenuCommand::DownloadBrain,
    )
}

/// The tray menu: Pasta, About, Preferences (secret auto-clear and Pasta
/// Brain), Launch at Login, Clear Clipboard History, Quit, with separators.
pub open spec fn is_tray_menu(items: Seq<TrayMenuItem>, tray: PastaTray) -> bool {
    &&& items.len() == 10
    &&& is_standard(items[0], "Pasta"@, MenuCommand::ShowLauncher)
    &&& items[1] is Separator
    &&& is_standard(items[2], "About"@, MenuCommand::ShowAbout)
    &&& items[3] is Separator
    &&& items[4] matches TrayMenuItem::SubMenu { label, items: prefs } && label@ == "Preferences"@
        && prefs@.len() == 2 && is_secret_menu(prefs@[0], tray) && is_brain_menu(prefs@[1], tray)
    &&& items[5] is Separator
    &&& is_check(items[6], "Launch at Login"@, tray.launch_at_login_enabled, MenuCommand::ToggleLaunchAtLogin)
    &&& is_standard(items[7], "Clear Clipboard History…"@, MenuCommand::RequestClearHistory)
    &&& items[8] is Separator
    &&& is_standard(items[9], "Quit"@, MenuCommand::QuitApp)
}

impl PastaTray {
    /// The menu as it should look for the current state.
    pub fn menu(&self) -> (items: Vec<TrayMenuItem>)
        ensures
            is_tray_menu(items@, *self),
    {
        let mut secret: Vec<TrayMenuItem> = Vec::new();
        secret.push(TrayMenuItem::Checkmark {
            label: "Enable (30s)",
            checked: self.secret_auto_clear,
            command: MenuCommand::SetSecretAutoClear(true),
        });
        secret.push(TrayMenuItem::Checkmark {
            label: "Disable",
            checked: !self.secret_auto_clear,
            command: MenuCommand::SetSecretAutoClear(false),
        });
        let mut brain: Vec<TrayMenuItem> = Vec::new();
        brain.push(TrayMenuItem::Checkmark {
            label: "Enable",
            checked: self.pasta_brain_enabled,
            command: MenuCommand::SetPastaBrain(true),
        });
        brain.push(TrayMenuItem::Checkmark {
            label: "Disable",
            checked: !self.pasta_brain_enabled,
            command: MenuCommand::SetPastaBrain(false),
        });
        brain.push(TrayMenuItem::Separator);
        brain.push(TrayMenuItem::Standard {
            label: neural_download_label(self.neural_status),
            command: MenuCommand::DownloadBrain,
        });
        let mut prefs: Vec<TrayMenuItem> = Vec::new();
        prefs.push(TrayMenuItem::SubMenu { label: "Secret Auto-Clear", items: secret });
        prefs.push(TrayMenuItem::SubMenu { label: "Pasta Brain", items: brain });
        let mut items: Vec<TrayMenuItem> = Vec::new();
        items.push(TrayMenuItem::Standard { label: "Pasta", command: MenuCommand::ShowLauncher });
        items.push(TrayMenuItem::Separator);
        items.push(TrayMenuItem::Standard { label: "About", command: MenuCommand::ShowAbout });
        items.push(TrayMenuItem::Separator);
        items.push(TrayMenuItem::SubMenu { label: "Preferences", items: prefs });
        items.push(TrayMenuItem::Separator);
        items.push(TrayMenuItem::Checkmark {
            label: "Launch at Login",
            checked: self.launch_at_login_enabled,
            command: MenuCommand::ToggleLaunchAtLogin,
        });
        items.push(TrayMenuItem::Standard {
            label: "Clear Clipboard History…",
            command: MenuCommand::RequestClearHistory,
        });
        items.push(TrayMenuItem::Separator);
        items.push(TrayMenuItem::Standard { label: "Quit", command: MenuCommand::QuitApp });
        items
    }
}

} // verus!

verus! {

/// Whether a checkmark item is checked (false for any other item).
pub open spec fn is_checked(item: TrayMenuItem) -> bool {
    match item {
        TrayMenuItem::Checkmark { checked, .. } => checked,
        _ => false,
    }
}

/// The items of a submenu (none for any other item).
pub open spec fn sub_items(item: TrayMenuItem) -> Seq<TrayMenuItem> {
    match item {
        TrayMenuItem::SubMenu { items, .. } => items@,
        _ => Seq::empty(),
    }
}

/// Choosing a preference from the menu shows at once: after activating a
/// "Secret Auto-Clear" or "Pasta Brain" item with `on`, the menu built from
/// the new state checks the matching item and unchecks the other.
pub proof fn lemma_menu_reflects_choice(tray: PastaTray, command: MenuCommand, items: Seq<TrayMenuItem>)
    requires
        is_tray_menu(
            items,
            match command {
                MenuCommand::SetSecretAutoClear(on) => PastaTray { secret_auto_clear: on, ..tray },
                MenuCommand::SetPastaBrain(on) => PastaTray { pasta_brain_enabled: on, ..tray },
                _ => tray,
            },
        ),
    ensures
        command matches MenuCommand::SetSecretAutoClear(on) ==> is_checked(
            sub_items(sub_items(items[4])[0])[0],
        ) == on && is_checked(sub_items(sub_items(items[4])[0])[1]) == !on,
        command matches MenuCommand::SetPastaBrain(on) ==> is_checked(
            sub_items(sub_items(items[4])[1])[0],
        ) == on && is_checked(sub_items(sub_items(items[4])[1])[1]) == !on,
{
}

} // verus!

verus! {

/// The command a menu item sends, if it sends one.
pub open spec fn item_command(item: TrayMenuItem) -> Option<MenuCommand> {
    match item {
        TrayMenuItem::Standard { command, .. } => Some(command),
        TrayMenuItem::Checkmark { command, .. } => Some(command),
        _ => None,
    }
}

/// Every preference item sends the command that checks it: activating any
/// item of the "Secret Auto-Clear" or "Pasta Brain" choices (as
/// `activate_item` applies it to the tray) and rebuilding the menu from the
/// new state leaves that same item checked, and its alternative unchecked.
pub proof fn lemma_preference_item_checks_itself(
    tray: PastaTray,
    items: Seq<TrayMenuItem>,
    group: int,
    choice: int,
    command: MenuCommand,
    rebuilt: Seq<TrayMenuItem>,
)
    requires
        is_tray_menu(items, tray),
        0 <= group < 2,
        0 <= choice < 2,
        item_command(sub_items(sub_items(items[4])[group])[choice]) == Some(command),
        is_tray_menu(
            rebuilt,
            match command {
                MenuCommand::SetSecretAutoClear(on) => PastaTray { secret_auto_clear: on, ..tray },
                MenuCommand::SetPastaBrain(on) => PastaTray { pasta_brain_enabled: on, ..tray },
                _ => tray,
            },
        ),
    ensures
        is_checked(sub_items(sub_items(rebuilt[4])[group])[choice]),
        !is_checked(sub_items(sub_items(rebuilt[4])[group])[1 - choice]),
{
}

} // verus!
