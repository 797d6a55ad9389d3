//! The decisions behind the global hotkey obtained from the
//! `org.freedesktop.portal.GlobalShortcuts` desktop portal: request tokens,
//! reading the granted trigger, classifying portal replies and signals, and
//! what to do when a portal session ends. The D-Bus exchange itself is the
//! caller's.
use vstd::prelude::*;
use crate::digits::{decimal, decimal_string, lemma_decimal_digits, lemma_decimal_injective};
use crate::text::{contains, occurs_at};


verus! {

pub const PORTAL_BUS: &'static str = "org.freedesktop.portal.Desktop";

pub const PORTAL_PATH: &'static str = "/org/freedesktop/portal/desktop";

pub const SHORTCUTS_INTERFACE: &'static str = "org.freedesktop.portal.GlobalShortcuts";

pub const REQUEST_INTERFACE: &'static str = "org.freedesktop.portal.Request";

pub const SESSION_INTERFACE: &'static str = "org.freedesktop.portal.Session";

pub const REGISTRY_INTERFACE: &'static str = "org.freedesktop.host.portal.Registry";

/// Must match the basename of the packaged `com.pasta.launcher.desktop`; the
/// portal rejects an app id it cannot resolve to an installed entry.
pub const APP_ID: &'static str = "com.pasta.launcher";

/// Identifies the one shortcut inside the session, namespaced because
/// unsandboxed apps may share a permission bucket.
pub const SHOW_LAUNCHER_SHORTCUT_ID: &'static str = "pasta-show-launcher";

/// Shown by the portal's permission and shortcut-settings UI.
pub const SHOW_LAUNCHER_DESCRIPTION: &'static str = "Show the Pasta clipboard launcher";

/// Requested key combination in freedesktop shortcuts syntax (`LOGO` is the
/// Super key; key names are xkbcommon keysym names). Only a preference.
pub const PREFERRED_TRIGGER: &'static str = "LOGO+space";

/// `org.freedesktop.portal.Request::Response` codes.
pub const RESPONSE_SUCCESS: u32 = 0;

pub const RESPONSE_CANCELLED: u32 = 1;

/// Signal queue depth for the portal subscription.
pub const SIGNAL_QUEUE_DEPTH: usize = 64;

/// How many times a working session may drop before giving up.
pub const MAX_SESSION_RESTARTS: u32 = 5;

/// Seconds of backoff per restart already made.
pub const SESSION_RESTART_BACKOFF_SECS: u64 = 2;

/// The text appended to a failure reason when the app id did not register.
pub open spec fn failure_with_app_id(reason: Seq<char>, err: Seq<char>) -> Seq<char> {
    reason + "; app id '"@ + APP_ID@ + "' was not registered ("@ + err
        + "), which most desktops require — install the desktop entry with scripts/install-linux-app.sh instead of running the binary straight out of the build tree"@
}

/// The message logged before falling back: an unregistered app id is the most
/// common cause of a portal refusal, so when the id did not take, say so.
pub fn describe_failure(reason: String, app_id_error: Option<&str>) -> (message: String)
    ensures
        match app_id_error {
            Some(err) => message@ == failure_with_app_id(reason@, err@),
            None => message@ == reason@,
        },
{
    match app_id_error {
        Some(err) => {
            let mut message = reason;
            message.append("; app id '");
            message.append(APP_ID);
            message.append("' was not registered (");
            message.append(err);
            message.append(
                "), which most desktops require — install the desktop entry with scripts/install-linux-app.sh instead of running the binary straight out of the build tree",
            );
            message
        },
        None => reason,
    }
}

} // verus!

verus! {

/// A request or session handle token: `pasta_{kind}_{pid}_{serial}`.
pub open spec fn token(kind: Seq<char>, pid: nat, serial: nat) -> Seq<char> {
    "pasta_"@ + kind + "_"@ + decimal(pid) + "_"@ + decimal(serial)
}

/// Characters allowed in the last element of a D-Bus object path.
pub open spec fn is_path_element_char(c: char) -> bool {
    ||| 'a' <= c <= 'z'
    ||| 'A' <= c <= 'Z'
    ||| '0' <= c <= '9'
    ||| c == '_'
}

/// Whether every character of `s` may stand in an object path element.
pub open spec fn is_path_element(s: Seq<char>) -> bool {
    forall|i: int| 0 <= i < s.len() ==> is_path_element_char(#[trigger] s[i])
}

/// Builds the `handle_token` for a portal request of `kind`, issued by process
/// `pid` as its `serial`-th token. Tokens become the last element of a D-Bus
/// object path.
pub fn next_token(kind: &str, pid: u32, serial: u64) -> (t: String)
    ensures
        t@ == token(kind@, pid as nat, serial as nat),
{
    let mut t = String::new();
    t.append("pasta_");
    t.append(kind);
    t.append("_");
    let pid_digits = decimal_string(pid as u64);
    let mut i: usize = 0;
    let ghost base = t@;
    while i < pid_digits.len()
        invariant
            i <= pid_digits@.len(),
            t@ == base + pid_digits@.take(i as int),
        decreases pid_digits@.len() - i,
    {
        t.push(pid_digits[i]);
        assert(pid_digits@.take(i + 1) == pid_digits@.take(i as int).push(pid_digits@[i as int]));
        i = i + 1;
    }
    assert(pid_digits@.take(pid_digits@.len() as int) == pid_digits@);
    t.append("_");
    let serial_digits = decimal_string(serial);
    let ghost base2 = t@;
    let mut j: usize = 0;
    while j < serial_digits.len()
        invariant
            j <= serial_digits@.len(),
            t@ == base2 + serial_digits@.take(j as int),
        decreases serial_digits@.len() - j,
    {
        t.push(serial_digits[j]);
        assert(serial_digits@.take(j + 1) == serial_digits@.take(j as int).push(
            serial_digits@[j as int],
        ));
        j = j + 1;
    }
    assert(serial_digits@.take(serial_digits@.len() as int) == serial_digits@);
    t
}

/// Hands out request tokens for one process, each with the next serial, so
/// that no two requests share a handle.
pub struct TokenIssuer {
    pub pid: u32,
    pub next_serial: u64,
}

impl TokenIssuer {
    /// An issuer for process `pid` whose first token has serial 0.
    pub fn new(pid: u32) -> (issuer: Self)
        ensures
            issuer.pid == pid,
            issuer.next_serial == 0,
    {
        TokenIssuer { pid, next_serial: 0 }
    }

    /// The token for a request of `kind`, with the current serial; the serial
    /// then advances (wrapping, as an atomic counter does).
    pub fn issue(&mut self, kind: &str) -> (t: String)
        ensures
            t@ == token(kind@, old(self).pid as nat, old(self).next_serial as nat),
            final(self).pid == old(self).pid,
            final(self).next_serial == old(self).next_serial.wrapping_add(1),
    {
        let t = next_token(kind, self.pid, self.next_serial);
        self.next_serial = self.next_serial.wrapping_add(1);
        t
    }
}

/// Two successive requests of one kind from one issuer never share a token:
/// the one issued after `issuer`'s differs from it.
pub proof fn lemma_successive_tokens_differ(issuer: TokenIssuer, kind: Seq<char>)
    ensures
        token(kind, issuer.pid as nat, issuer.next_serial as nat) != token(
            kind,
            issuer.pid as nat,
            issuer.next_serial.wrapping_add(1) as nat,
        ),
{
    lemma_tokens_unique(
        kind,
        issuer.pid as nat,
        issuer.next_serial as nat,
        issuer.next_serial.wrapping_add(1) as nat,
    );
}

/// Tokens are valid object path elements whenever the request kind is.
pub proof fn lemma_token_is_path_element(kind: Seq<char>, pid: nat, serial: nat)
    requires
        is_path_element(kind),
    ensures
        is_path_element(token(kind, pid, serial)),
        token(kind, pid, serial).len() > 0,
{
    lemma_decimal_digits(pid);
    lemma_decimal_digits(serial);
    let t = token(kind, pid, serial);
    let a = "pasta_"@ + kind + "_"@;
    let b = a + decimal(pid) + "_"@;
    assert(t == b + decimal(serial));
    assert forall|i: int| 0 <= i < t.len() implies is_path_element_char(#[trigger] t[i]) by {
        reveal_strlit("pasta_");
        reveal_strlit("_");
        if i < 6 {
            assert(t[i] == "pasta_"@[i]);
        } else if i < 6 + kind.len() {
            assert(t[i] == kind[i - 6]);
        } else if i < a.len() {
            assert(t[i] == '_');
        } else if i < a.len() + decimal(pid).len() {
            assert(t[i] == decimal(pid)[i - a.len()]);
        } else if i < b.len() {
            assert(t[i] == '_');
        } else {
            assert(t[i] == decimal(serial)[i - b.len()]);
        }
    }
}

/// Two tokens of one kind from one process differ whenever their serials do,
/// so successive requests never reuse a handle.
pub proof fn lemma_tokens_unique(kind: Seq<char>, pid: nat, first: nat, second: nat)
    requires
        first != second,
    ensures
        token(kind, pid, first) != token(kind, pid, second),
{
    let prefix = "pasta_"@ + kind + "_"@ + decimal(pid) + "_"@;
    let a = token(kind, pid, first);
    let b = token(kind, pid, second);
    if a == b {
        assert(a == prefix + decimal(first));
        assert(b == prefix + decimal(second));
        assert(a.skip(prefix.len() as int) == decimal(first));
        assert(b.skip(prefix.len() as int) == decimal(second));
        lemma_decimal_injective(first, second);
    }
}

} // verus!

verus! {

/// One entry of the portal's `a(sa{sv})` shortcut list: the shortcut id and the
/// `trigger_description` metadata, when the backend supplied it as a string.
pub struct PortalShortcut {
    pub id: String,
    pub trigger_description: Option<String>,
}

/// The results dictionary of a portal `Response`, as far as it is read here:
/// the `shortcuts` array, if present and well formed.
pub struct PortalResults {
    pub shortcuts: Option<Vec<PortalShortcut>>,
}

/// What is shown for a bound shortcut: its non-empty trigger description, or
/// else the id itself.
pub open spec fn shown_trigger(description: Option<String>, id: Seq<char>) -> Seq<char> {
    match description {
        Some(d) if d@.len() > 0 => d@,
        _ => id,
    }
}

/// The trigger granted for `id`: from the first entry with that id, or `None`
/// when no entry has it.
pub open spec fn granted_trigger(list: Seq<PortalShortcut>, id: Seq<char>) -> Option<Seq<char>>
    decreases list.len(),
{
    if list.len() == 0 {
        None
    } else if list[0].id@ == id {
        Some(shown_trigger(list[0].trigger_description, id))
    } else {
        granted_trigger(list.drop_first(), id)
    }
}

/// The human-readable trigger the compositor granted for `id` (e.g. "Press
/// <Super>space"), or `None` if `id` is not in the list. A bound shortcut
/// without a description reads as its id rather than as unbound.
pub fn trigger_description(shortcuts: &Vec<PortalShortcut>, id: &str) -> (r: Option<String>)
    ensures
        r matches Some(s) ==> granted_trigger(shortcuts@, id@) == Some(s@),
        r is None ==> granted_trigger(shortcuts@, id@) is None,
{
    let mut i: usize = 0;
    assert(shortcuts@.skip(0) == shortcuts@);
    while i < shortcuts.len()
        invariant
            i <= shortcuts@.len(),
            granted_trigger(shortcuts@, id@) == granted_trigger(shortcuts@.skip(i as int), id@),
        decreases shortcuts@.len() - i,
    {
        let entry = &shortcuts[i];
        assert(shortcuts@.skip(i as int)[0] == shortcuts@[i as int]);
        assert(shortcuts@.skip(i as int).drop_first() == shortcuts@.skip(i + 1));
        if entry.id == String::from_str(id) {
            let description = match &entry.trigger_description {
                Some(d) => {
                    if d.as_str().is_empty() {
                        None
                    } else {
                        Some(d.clone())
                    }
                },
                None => None,
            };
            return match description {
                Some(d) => Some(d),
                None => Some(String::from_str(id)),
            };
        }
        i = i + 1;
    }
    assert(shortcuts@.skip(i as int).len() == 0);
    None
}

/// The `shortcuts` array of a response, or an empty list when the backend
/// omitted it.
pub fn shortcut_list(results: PortalResults) -> (list: Vec<PortalShortcut>)
    ensures
        list@ == match results.shortcuts {
            Some(v) => v@,
            None => Seq::empty(),
        },
{
    match results.shortcuts {
        Some(v) => v,
        None => Vec::new(),
    }
}

} // verus!

verus! {

/// How a single portal session ended.
pub enum SessionEnd {
    /// The bind was refused, by the user or by a backend that granted nothing.
    Declined,
    /// The session was established and later closed.
    Closed,
    /// The session could not be established.
    Failed(String),
}

/// How a portal attempt ended, from the caller's point of view.
pub enum PortalOutcome {
    /// The portal is authoritative for the hotkey; start no second listener.
    Handled,
    /// The portal cannot provide the hotkey here; fall back.
    Unavailable(String),
}

/// What to do once a session has ended.
pub enum AfterSession {
    /// Stop with this outcome.
    Finish(PortalOutcome),
    /// Wait `backoff_secs`, then open a new session; `restarts` sessions have
    /// been restarted so far.
    Restart { restarts: u32, backoff_secs: u64 },
}

pub open spec fn closing_message() -> Seq<char> {
    "portal shortcut session kept closing"@
}

/// The step that follows a session ending with `end`, `restarts` restarts
/// having been made before: a refusal is final (retrying would re-prompt), a
/// failure falls back with an explanation, and a closed session is restarted
/// with a growing backoff until it has closed too often.
pub fn after_session_end(end: SessionEnd, restarts: u32, app_id_error: Option<&str>) -> (next:
    AfterSession)
    requires
        restarts <= MAX_SESSION_RESTARTS,
    ensures
        match end {
            SessionEnd::Declined => next == AfterSession::Finish(PortalOutcome::Handled),
            SessionEnd::Failed(reason) => next matches AfterSession::Finish(
                PortalOutcome::Unavailable(message),
            ) && message@ == match app_id_error {
                Some(err) => failure_with_app_id(reason@, err@),
                None => reason@,
            },
            SessionEnd::Closed => if restarts + 1 > MAX_SESSION_RESTARTS {
                next matches AfterSession::Finish(PortalOutcome::Unavailable(message))
                    && message@ == closing_message()
            } else {
                next == AfterSession::Restart {
                    restarts: (restarts + 1) as u32,
                    backoff_secs: (SESSION_RESTART_BACKOFF_SECS * (restarts + 1)) as u64,
                }
            },
        },
{
    match end {
        SessionEnd::Declined => AfterSession::Finish(PortalOutcome::Handled),
        SessionEnd::Failed(reason) => AfterSession::Finish(
            PortalOutcome::Unavailable(describe_failure(reason, app_id_error)),
        ),
        SessionEnd::Closed => {
            let restarts = restarts + 1;
            if restarts > MAX_SESSION_RESTARTS {
                AfterSession::Finish(
                    PortalOutcome::Unavailable(String::from_str("portal shortcut session kept closing")),
                )
            } else {
                AfterSession::Restart {
                    restarts,
                    backoff_secs: SESSION_RESTART_BACKOFF_SECS * (restarts as u64),
                }
            }
        },
    }
}

/// `"{what} refused (response {code})"`.
pub open spec fn refused_message(what: Seq<char>, code: u32) -> Seq<char> {
    what + " refused (response "@ + decimal(code as nat) + ")"@
}

fn refused(what: &str, code: u32) -> (m: String)
    ensures
        m@ == refused_message(what@, code),
{
    let mut m = String::from_str(what);
    m.append(" refused (response ");
    let digits = decimal_string(code as u64);
    crate::text::push_all(&mut m, &digits);
    m.append(")");
    m
}

/// The session handle from a `CreateSession` response with `code` and the
/// `session_handle` result (read as a string, as the spec ships it).
pub fn create_session_outcome(code: u32, session_handle: Option<String>) -> (r: Result<
    String,
    String,
>)
    ensures
        code != RESPONSE_SUCCESS ==> (r matches Err(m) && m@ == refused_message(
            "CreateSession"@,
            code,
        )),
        code == RESPONSE_SUCCESS ==> match session_handle {
            Some(h) => r == Ok::<String, String>(h),
            None => (r matches Err(m) && m@ == "CreateSession returned no session_handle"@),
        },
{
    if code != RESPONSE_SUCCESS {
        return Err(refused("CreateSession", code));
    }
    match session_handle {
        Some(h) => Ok(h),
        None => Err(String::from_str("CreateSession returned no session_handle")),
    }
}

/// The shortcuts a previous run already bound, from a `ListShortcuts` response.
pub fn list_shortcuts_outcome(code: u32, results: PortalResults) -> (r: Result<
    Vec<PortalShortcut>,
    String,
>)
    ensures
        code != RESPONSE_SUCCESS ==> (r matches Err(m) && m@ == refused_message(
            "ListShortcuts"@,
            code,
        )),
        code == RESPONSE_SUCCESS ==> (r matches Ok(list) && list@ == match results.shortcuts {
            Some(v) => v@,
            None => Seq::empty(),
        }),
{
    if code != RESPONSE_SUCCESS {
        return Err(refused("ListShortcuts", code));
    }
    Ok(shortcut_list(results))
}

/// Why binding failed.
pub enum BindError {
    Declined,
    Failed(String),
}

/// The granted shortcuts from a `BindShortcuts` response: success yields the
/// list, cancellation is a refusal, any other code a failure.
pub fn bind_outcome(code: u32, results: PortalResults) -> (r: Result<
    Vec<PortalShortcut>,
    BindError,
>)
    ensures
        code == RESPONSE_SUCCESS ==> (r matches Ok(list) && list@ == match results.shortcuts {
            Some(v) => v@,
            None => Seq::empty(),
        }),
        code == RESPONSE_CANCELLED ==> r matches Err(BindError::Declined),
        code != RESPONSE_SUCCESS && code != RESPONSE_CANCELLED ==> (r matches Err(
            BindError::Failed(m),
        ) && m@ == refused_message("BindShortcuts"@, code)),
{
    if code == RESPONSE_SUCCESS {
        Ok(shortcut_list(results))
    } else if code == RESPONSE_CANCELLED {
        Err(BindError::Declined)
    } else {
        Err(BindError::Failed(refused("BindShortcuts", code)))
    }
}

/// What a session does once it knows what a previous run already bound.
pub enum BindStep {
    /// The shortcut is bound already, to this trigger: do not bind again
    /// (some backends prompt on every bind).
    AlreadyBound(String),
    /// Ask the portal to bind the shortcut.
    Bind,
}

/// Whether a session must call `BindShortcuts`: only when the shortcuts a
/// previous run bound do not include ours.
pub fn bind_step(existing: &Vec<PortalShortcut>) -> (step: BindStep)
    ensures
        match granted_trigger(existing@, SHOW_LAUNCHER_SHORTCUT_ID@) {
            Some(t) => step matches BindStep::AlreadyBound(s) && s@ == t,
            None => step is Bind,
        },
{
    match trigger_description(existing, SHOW_LAUNCHER_SHORTCUT_ID) {
        Some(trigger) => BindStep::AlreadyBound(trigger),
        None => BindStep::Bind,
    }
}

/// The trigger after a bind attempt: a success that omits our id means the
/// backend chose not to grant it, which counts as a refusal.
pub fn trigger_after_bind(bound: Result<Vec<PortalShortcut>, BindError>) -> (r: Result<
    String,
    SessionEnd,
>)
    ensures
        match bound {
            Ok(list) => match granted_trigger(list@, SHOW_LAUNCHER_SHORTCUT_ID@) {
                Some(t) => r matches Ok(s) && s@ == t,
                None => r matches Err(SessionEnd::Declined),
            },
            Err(BindError::Declined) => r matches Err(SessionEnd::Declined),
            Err(BindError::Failed(m)) => r == Err::<String, SessionEnd>(SessionEnd::Failed(m)),
        },
{
    match bound {
        Ok(list) => match trigger_description(&list, SHOW_LAUNCHER_SHORTCUT_ID) {
            Some(description) => Ok(description),
            None => Err(SessionEnd::Declined),
        },
        Err(BindError::Declined) => Err(SessionEnd::Declined),
        Err(BindError::Failed(m)) => Err(SessionEnd::Failed(m)),
    }
}

/// Whether an optional header field is present and reads `text`.
pub open spec fn is_text(field: Option<&str>, text: Seq<char>) -> bool {
    match field {
        Some(f) => f@ == text,
        None => false,
    }
}

/// Whether a message with this header is the `Response` to `request_path`.
pub fn is_response_for(
    interface: Option<&str>,
    member: Option<&str>,
    path: Option<&str>,
    request_path: &str,
) -> (b: bool)
    ensures
        b == (is_text(interface, REQUEST_INTERFACE@) && is_text(member, "Response"@) && is_text(
            path,
            request_path@,
        )),
{
    let i_ok = match interface {
        Some(i) => String::from_str(i) == String::from_str(REQUEST_INTERFACE),
        None => false,
    };
    let m_ok = match member {
        Some(m) => String::from_str(m) == String::from_str("Response"),
        None => false,
    };
    let p_ok = match path {
        Some(p) => String::from_str(p) == String::from_str(request_path),
        None => false,
    };
    i_ok && m_ok && p_ok
}

/// A portal signal as far as the listener reads it.
pub enum PortalSignal {
    /// `GlobalShortcuts::Activated` for shortcut `id` in `session`.
    Activated { session: String, id: String },
    /// `GlobalShortcuts::ShortcutsChanged` with the new list.
    ShortcutsChanged { session: String, shortcuts: Vec<PortalShortcut> },
    /// `Session::Closed`, sent on the object `path`.
    SessionClosed { path: Option<String> },
    /// Anything else, or a signal whose body did not parse.
    Other,
}

/// What the listener does with a signal.
pub enum ListenAction {
    Ignore,
    /// Ask the app to show the launcher.
    ShowLauncher,
    /// Log that the shortcut is now bound to this trigger.
    Announce(String),
    /// The session went away.
    Stop,
}

/// The listener's reaction to `signal` while serving `session`: only our own
/// session's events count, activation of our shortcut shows the launcher, a
/// rebinding is announced, and closing our session ends the loop.
pub fn listen_step(signal: PortalSignal, session: &str) -> (action: ListenAction)
    ensures
        match signal {
            PortalSignal::Activated { session: s, id } => if s@ == session@ && id@
                == SHOW_LAUNCHER_SHORTCUT_ID@ {
                action == ListenAction::ShowLauncher
            } else {
                action == ListenAction::Ignore
            },
            PortalSignal::ShortcutsChanged { session: s, shortcuts } => if s@ == session@ {
                match granted_trigger(shortcuts@, SHOW_LAUNCHER_SHORTCUT_ID@) {
                    Some(t) => action matches ListenAction::Announce(a) && a@ == t,
                    None => action == ListenAction::Ignore,
                }
            } else {
                action == ListenAction::Ignore
            },
            PortalSignal::SessionClosed { path } => if path matches Some(p) && p@ == session@ {
                action == ListenAction::Stop
            } else {
                action == ListenAction::Ignore
            },
            PortalSignal::Other => action == ListenAction::Ignore,
        },
{
    let ours = String::from_str(session);
    match signal {
        PortalSignal::Activated { session: s, id } => {
            if s == ours && id == String::from_str(SHOW_LAUNCHER_SHORTCUT_ID) {
                ListenAction::ShowLauncher
            } else {
                ListenAction::Ignore
            }
        },
        PortalSignal::ShortcutsChanged { session: s, shortcuts } => {
            if s == ours {
                match trigger_description(&shortcuts, SHOW_LAUNCHER_SHORTCUT_ID) {
                    Some(t) => ListenAction::Announce(t),
                    None => ListenAction::Ignore,
                }
            } else {
                ListenAction::Ignore
            }
        },
        PortalSignal::SessionClosed { path } => match path {
            Some(p) => {
                if p == ours {
                    ListenAction::Stop
                } else {
                    ListenAction::Ignore
                }
            },
            None => ListenAction::Ignore,
        },
        PortalSignal::Other => ListenAction::Ignore,
    }
}

} // verus!

verus! {

/// A shortcut counts as granted exactly when its id is in the list — a
/// missing or empty description never makes a bound shortcut read as unbound.
pub proof fn lemma_granted_iff_listed(list: Seq<PortalShortcut>, id: Seq<char>)
    ensures
        granted_trigger(list, id) is Some <==> exists|i: int| 0 <= i < list.len() && (#[trigger] list[i]).id@ == id,
        granted_trigger(list, id) matches Some(t) ==> t.len() > 0 || id.len() == 0,
    decreases list.len(),
{
    if list.len() > 0 {
        let rest = list.drop_first();
        lemma_granted_iff_listed(rest, id);
        if list[0].id@ != id {
            assert forall|i: int| 0 <= i < rest.len() implies (#[trigger] rest[i]).id@ == list[i + 1].id@ by {
                assert(rest[i] == list[i + 1]);
            }
            if exists|i: int| 0 <= i < list.len() && (#[trigger] list[i]).id@ == id {
                let i = choose|i: int| 0 <= i < list.len() && (#[trigger] list[i]).id@ == id;
                assert(rest[i - 1] == list[i]);
            }
        }
    }
}

/// The fallback message keeps the original reason and names the app id and
/// the install script.
pub proof fn lemma_failure_message_explains(reason: Seq<char>, err: Seq<char>)
    ensures
        contains(failure_with_app_id(reason, err), reason),
        contains(failure_with_app_id(reason, err), APP_ID@),
        contains(failure_with_app_id(reason, err), "install-linux-app.sh"@),
{
    let m = failure_with_app_id(reason, err);
    let head = "; app id '"@;
    let tail = "), which most desktops require — install the desktop entry with scripts/install-linux-app.sh instead of running the binary straight out of the build tree"@;
    let mid = "' was not registered ("@;
    reveal_strlit("; app id '");
    reveal_strlit("com.pasta.launcher");
    reveal_strlit("install-linux-app.sh");
    reveal_strlit("), which most desktops require — install the desktop entry with scripts/install-linux-app.sh instead of running the binary straight out of the build tree");
    assert(m.subrange(0, reason.len() as int) == reason);
    assert(occurs_at(m, reason, 0));
    let at: int = reason.len() as int + head.len();
    assert(m.subrange(at, at + APP_ID@.len()) == APP_ID@);
    assert(occurs_at(m, APP_ID@, at));
    let before_tail: int = reason.len() as int + head.len() + APP_ID@.len() + mid.len() + err.len();
    assert(m.subrange(before_tail, m.len() as int) == tail);
    let script_at: int = before_tail + 72;
    assert(tail.subrange(72, 92) == "install-linux-app.sh"@);
    assert(m.subrange(script_at, script_at + 20) == tail.subrange(72, 92));
    assert(occurs_at(m, "install-linux-app.sh"@, script_at));
}

} // verus!
