//! Clipboard bookkeeping: change detection, what a snapshot records, how
//! secrets and transient items are recognised from the offered MIME types,
//! and the timers that ignore our own writes and clear copied secrets. The
//! reads and writes themselves belong to the caller.
use vstd::prelude::*;
use crate::digest::{clipboard_bytes_hash, clipboard_text_hash, sha256};
use crate::digits::hex_bytes;
use crate::text::{
    char_vecs, chars_of, contains, contains_chars, join, join_chars, keep_non_empty, lines,
    lines_of, lower, lower_chars, non_empty, push_all, seqs, split_chars, split_on, strings_of,
    strs, trim, trim_all, trim_each,
};

verus! {

/// What one clipboard read yielded.
pub struct ClipboardSnapshot {
    pub text: String,
    pub is_concealed: bool,
    pub is_transient: bool,
}

/// Whether a MIME type marks the item as a secret (password managers and the
/// like), compared case-insensitively.
pub open spec fn marks_concealed(mime: Seq<char>) -> bool {
    let m = lower(mime);
    ||| contains(m, "concealed"@)
    ||| contains(m, "secret"@)
    ||| contains(m, "password"@)
    ||| contains(m, "onepassword"@)
    ||| contains(m, "bitwarden"@)
    ||| contains(m, "keepass"@)
}

/// Whether a MIME type marks the item as transient, compared
/// case-insensitively.
pub open spec fn marks_transient(mime: Seq<char>) -> bool {
    let m = lower(mime);
    ||| contains(m, "transient"@)
    ||| contains(m, "x-kde-passwordmanagerhint"@)
    ||| contains(m, "application/x-gtk-text-buffer-rich-text"@)
}

/// Whether any of the offered MIME types marks the item as a secret.
pub fn clipboard_looks_concealed(mime_types: &Vec<String>) -> (b: bool)
    ensures
        b == exists|i: int| 0 <= i < mime_types@.len() && marks_concealed(#[trigger] mime_types@[i]@),
{
    let mut i: usize = 0;
    while i < mime_types.len()
        invariant
            i <= mime_types@.len(),
            forall|j: int| 0 <= j < i ==> !marks_concealed(#[trigger] mime_types@[j]@),
        decreases mime_types@.len() - i,
    {
        let m = lower_chars(&chars_of(mime_types[i].as_str()));
        if contains_chars(&m, &chars_of("concealed")) || contains_chars(&m, &chars_of("secret"))
            || contains_chars(&m, &chars_of("password")) || contains_chars(
            &m,
            &chars_of("onepassword"),
        ) || contains_chars(&m, &chars_of("bitwarden")) || contains_chars(
            &m,
            &chars_of("keepass"),
        ) {
            assert(marks_concealed(mime_types@[i as int]@));
            return true;
        }
        i = i + 1;
    }
    false
}

/// Whether any of the offered MIME types marks the item as transient.
pub fn clipboard_looks_transient(mime_types: &Vec<String>) -> (b: bool)
    ensures
        b == exists|i: int| 0 <= i < mime_types@.len() && marks_transient(#[trigger] mime_types@[i]@),
{
    let mut i: usize = 0;
    while i < mime_types.len()
        invariant
            i <= mime_types@.len(),
            forall|j: int| 0 <= j < i ==> !marks_transient(#[trigger] mime_types@[j]@),
        decreases mime_types@.len() - i,
    {
        let m = lower_chars(&chars_of(mime_types[i].as_str()));
        if contains_chars(&m, &chars_of("transient")) || contains_chars(
            &m,
            &chars_of("x-kde-passwordmanagerhint"),
        ) || contains_chars(&m, &chars_of("application/x-gtk-text-buffer-rich-text")) {
            assert(marks_transient(mime_types@[i as int]@));
            return true;
        }
        i = i + 1;
    }
    false
}

/// The snapshot of a clipboard read that offered `mime_types` and yielded
/// `text` (no snapshot without text).
pub fn read_clipboard_snapshot(mime_types: &Vec<String>, text: Option<String>) -> (snap: Option<
    ClipboardSnapshot,
>)
    ensures
        match text {
            Some(t) => snap matches Some(s) && s.text == t && s.is_concealed == (exists|i: int|
                0 <= i < mime_types@.len() && marks_concealed(#[trigger] mime_types@[i]@))
                && s.is_transient == (exists|i: int|
                0 <= i < mime_types@.len() && marks_transient(#[trigger] mime_types@[i]@)),
            None => snap is None,
        },
{
    let text = match text {
        Some(t) => t,
        None => return None,
    };
    Some(
        ClipboardSnapshot {
            text,
            is_concealed: clipboard_looks_concealed(mime_types),
            is_transient: clipboard_looks_transient(mime_types),
        },
    )
}

/// The MIME types listed in `xclip -t TARGETS` output: one per line, trimmed,
/// blank lines skipped.
pub fn mime_types_from_targets(output: &str) -> (types: Vec<String>)
    ensures
        strs(types@) == non_empty(trim_each(lines(output@))),
{
    let ls = lines_of(&chars_of(output));
    let trimmed = trim_all(&ls);
    let kept = keep_non_empty(trimmed);
    strings_of(&kept)
}

/// A comma-separated tag input, as its list of trimmed, non-empty tags.
pub fn parse_custom_tags_input(input: &str) -> (tags: Vec<String>)
    ensures
        strs(tags@) == non_empty(trim_each(split_on(input@, ','))),
{
    let pieces = split_chars(&chars_of(input), ',');
    let trimmed = trim_all(&pieces);
    let kept = keep_non_empty(trimmed);
    strings_of(&kept)
}

/// The signature by which polling notices a clipboard change:
/// `mime:<types joined by |>` (or `mime:none`), `;`, then `text:<hash>` (or
/// `text:none`).
pub open spec fn clipboard_signature(mime_types: Seq<Seq<char>>, text: Option<Seq<char>>) -> Seq<
    char,
> {
    let mime = if mime_types.len() == 0 {
        "mime:none"@
    } else {
        "mime:"@ + join(mime_types, "|"@)
    };
    let text_part = match text {
        Some(t) => "text:"@ + hex_bytes(sha256(vstd::utf8::encode_utf8(t))),
        None => "text:none"@,
    };
    mime + ";"@ + text_part
}

/// The current clipboard signature, given the offered MIME types and the text
/// read, if any. Always present.
pub fn current_clipboard_signature(mime_types: &Vec<String>, text: Option<String>) -> (sig: Option<
    String,
>)
    ensures
        sig matches Some(s) && s@ == clipboard_signature(
            strs(mime_types@),
            match text {
                Some(t) => Some(t@),
                None => None,
            },
        ),
{
    let mut sig = String::new();
    if mime_types.len() == 0 {
        sig.append("mime:none");
    } else {
        sig.append("mime:");
        let joined = join_chars(&char_vecs(mime_types), &chars_of("|"));
        push_all(&mut sig, &joined);
    }
    sig.append(";");
    match text {
        Some(t) => {
            sig.append("text:");
            let hash = clipboard_text_hash(t.as_str());
            sig.append(hash.as_str());
        },
        None => {
            sig.append("text:none");
        },
    }
    Some(sig)
}

} // verus!

verus! {

/// Polling-based change detection: a counter that moves whenever the
/// clipboard signature differs from the last one seen.
pub struct ClipboardChangeState {
    pub next_change_count: i64,
    pub last_signature: Option<String>,
}

/// An optional string, as its characters.
pub open spec fn opt_view(s: Option<String>) -> Option<Seq<char>> {
    match s {
        Some(t) => Some(t@),
        None => None,
    }
}

impl ClipboardChangeState {
    /// No change seen yet.
    pub fn new() -> (state: Self)
        ensures
            state.next_change_count == 0,
            state.last_signature is None,
    {
        ClipboardChangeState { next_change_count: 0, last_signature: None }
    }
}

/// `after` is `before` having seen `signature`: unchanged when the signature
/// is the one seen last, otherwise one change further (wrapping) with the new
/// signature remembered.
pub open spec fn counted(before: ClipboardChangeState, after: ClipboardChangeState, signature: Option<String>) -> bool {
    if opt_view(before.last_signature) == opt_view(signature) {
        after == before
    } else {
        after.next_change_count == before.next_change_count.wrapping_add(1)
            && opt_view(after.last_signature) == opt_view(signature)
    }
}

fn same_signature(a: &Option<String>, b: &Option<String>) -> (same: bool)
    ensures
        same == (opt_view(*a) == opt_view(*b)),
{
    match (a, b) {
        (Some(x), Some(y)) => *x == *y,
        (None, None) => true,
        _ => false,
    }
}

/// Records the signature just read and returns the change count: it advances
/// (wrapping) exactly when the signature differs from the previous one.
pub fn polling_clipboard_change_count(
    state: &mut ClipboardChangeState,
    signature: Option<String>,
) -> (count: i64)
    ensures
        counted(*old(state), *final(state), signature),
        count == final(state).next_change_count,
{
    if !same_signature(&state.last_signature, &signature) {
        state.next_change_count = state.next_change_count.wrapping_add(1);
        state.last_signature = signature;
    }
    state.next_change_count
}

/// Where the change count comes from on this session.
pub enum ClipboardChangeSource {
    /// A Wayland data-control monitor that counts selection events itself.
    Wayland { change_count: i64 },
    /// Polling, with the signature of the clipboard as read now.
    Polled { signature: Option<String> },
}

/// The clipboard change count: the monitor's own count on Wayland, otherwise
/// the polling counter updated with the current signature.
pub fn clipboard_change_count(state: &mut ClipboardChangeState, source: ClipboardChangeSource) -> (count:
    i64)
    ensures
        match source {
            ClipboardChangeSource::Wayland { change_count } => count == change_count && *final(state) == *old(state),
            ClipboardChangeSource::Polled { signature } => counted(*old(state), *final(state), signature) && count == final(state).next_change_count,
        },
{
    match source {
        ClipboardChangeSource::Wayland { change_count } => change_count,
        ClipboardChangeSource::Polled { signature } => polling_clipboard_change_count(
            state,
            signature,
        ),
    }
}

/// A clipboard write whose effect is awaited until `due_at_ms` (milliseconds
/// on the caller's monotonic clock), recognised by the hash of its content.
pub struct PendingClipboardWrite {
    pub due_at_ms: u64,
    pub expected_hash: String,
}

/// The verdict on a clipboard change whose content hashes to `hash`, and the
/// pending write left afterwards: nothing pending never ignores; an expired
/// pending write is dropped; a matching one is consumed and the change
/// ignored; otherwise the pending write stays.
pub open spec fn self_write_outcome(
    pending: Option<PendingClipboardWrite>,
    now_ms: u64,
    hash: Seq<char>,
) -> (bool, Option<PendingClipboardWrite>) {
    match pending {
        None => (false, None),
        Some(p) => if now_ms > p.due_at_ms {
            (false, None)
        } else if hash == p.expected_hash@ {
            (true, None)
        } else {
            (false, Some(p))
        },
    }
}

/// Whether a clipboard change carrying `bytes` is our own write coming back
/// and should not be recorded. A pending write that has expired is dropped; a
/// matching one is consumed.
pub fn should_ignore_self_clipboard_write(
    pending: &mut Option<PendingClipboardWrite>,
    now_ms: u64,
    bytes: &[u8],
) -> (ignore: bool)
    ensures
        (ignore, *final(pending)) == self_write_outcome(*old(pending), now_ms, hex_bytes(sha256(bytes@))),
{
    let (due_at_ms, matches) = match &*pending {
        None => return false,
        Some(p) => (p.due_at_ms, clipboard_bytes_hash(bytes) == p.expected_hash),
    };
    if now_ms > due_at_ms {
        *pending = None;
        return false;
    }
    if matches {
        *pending = None;
        return true;
    }
    false
}

/// Whether the secret auto-clear timer has run out, so the clipboard should
/// be read and checked.
pub fn secret_autoclear_due(pending: &Option<PendingClipboardWrite>, now_ms: u64) -> (due: bool)
    ensures
        due == (pending matches Some(p) && now_ms >= p.due_at_ms),
{
    match pending {
        Some(p) => now_ms >= p.due_at_ms,
        None => false,
    }
}

/// Completes a due auto-clear given the clipboard text now: the clipboard is
/// to be cleared only if it still holds the secret that was copied. The timer
/// is dropped either way.
pub fn finish_secret_autoclear(
    pending: &mut Option<PendingClipboardWrite>,
    current_text: Option<String>,
) -> (clear: bool)
    ensures
        *final(pending) is None,
        clear == (*old(pending) matches Some(p) && current_text matches Some(t) && hex_bytes(
            sha256(vstd::utf8::encode_utf8(t@)),
        ) == p.expected_hash@),
{
    let clear = match (&*pending, &current_text) {
        (Some(p), Some(t)) => clipboard_text_hash(t.as_str()) == p.expected_hash,
        _ => false,
    };
    *pending = None;
    clear
}

/// How long a concealed (password-manager) copy stays on the clipboard when
/// secret auto-clear is on; the tray item reads "Enable (30s)".
pub const SECRET_AUTO_CLEAR_MS: u64 = 30_000;

/// How long after writing the clipboard ourselves the change it causes is
/// still recognised as ours.
pub const SELF_WRITE_WINDOW_MS: u64 = 2_000;

/// `now_ms + delay_ms`, held at the largest time rather than wrapping.
pub open spec fn deadline(now_ms: u64, delay_ms: u64) -> u64 {
    if now_ms + delay_ms > u64::MAX {
        u64::MAX
    } else {
        (now_ms + delay_ms) as u64
    }
}

fn deadline_exec(now_ms: u64, delay_ms: u64) -> (due: u64)
    ensures
        due == deadline(now_ms, delay_ms),
{
    if now_ms > u64::MAX - delay_ms {
        u64::MAX
    } else {
        now_ms + delay_ms
    }
}

/// The hash under which clipboard text is recognised.
pub open spec fn text_hash(text: Seq<char>) -> Seq<char> {
    hex_bytes(sha256(vstd::utf8::encode_utf8(text)))
}

/// The pending write to expect after we put `text` on the clipboard at
/// `now_ms`, so that the change it causes is not recorded as a copy.
pub fn expect_own_write(text: &str, now_ms: u64) -> (pending: PendingClipboardWrite)
    ensures
        pending.due_at_ms == deadline(now_ms, SELF_WRITE_WINDOW_MS),
        pending.expected_hash@ == text_hash(text@),
{
    PendingClipboardWrite {
        due_at_ms: deadline_exec(now_ms, SELF_WRITE_WINDOW_MS),
        expected_hash: clipboard_text_hash(text),
    }
}

/// What becomes of a clipboard change that was read.
pub enum Capture {
    /// Not recorded: our own write coming back, or a transient item.
    Skip,
    /// Recorded under this content hash.
    Record(String),
}

/// Decides what to do with a change whose content is `snapshot`, read at
/// `now_ms`: our own write coming back (see `should_ignore_self_clipboard_write`,
/// which also updates the pending write) and transient items are skipped;
/// anything else is recorded under its text hash, and a concealed copy, when
/// secret auto-clear is on, (re)arms the auto-clear timer to clear it after
/// `SECRET_AUTO_CLEAR_MS`. Any other change leaves the timer as it was.
pub fn capture_clipboard_change(
    self_write: &mut Option<PendingClipboardWrite>,
    auto_clear: &mut Option<PendingClipboardWrite>,
    snapshot: &ClipboardSnapshot,
    secret_auto_clear: bool,
    now_ms: u64,
) -> (capture: Capture)
    ensures
        *final(self_write) == self_write_outcome(*old(self_write), now_ms, text_hash(snapshot.text@)).1,
        self_write_outcome(*old(self_write), now_ms, text_hash(snapshot.text@)).0 || snapshot.is_transient
            ==> capture is Skip && *final(auto_clear) == *old(auto_clear),
        !self_write_outcome(*old(self_write), now_ms, text_hash(snapshot.text@)).0 && !snapshot.is_transient
            ==> (capture matches Capture::Record(hash) && hash@ == text_hash(snapshot.text@)
            && if snapshot.is_concealed && secret_auto_clear {
            *final(auto_clear) matches Some(p) && p.due_at_ms == deadline(now_ms, SECRET_AUTO_CLEAR_MS)
                && p.expected_hash@ == hash@
        } else {
            *final(auto_clear) == *old(auto_clear)
        }),
{
    if should_ignore_self_clipboard_write(self_write, now_ms, snapshot.text.as_str().as_bytes()) {
        return Capture::Skip;
    }
    if snapshot.is_transient {
        return Capture::Skip;
    }
    let hash = clipboard_text_hash(snapshot.text.as_str());
    if snapshot.is_concealed && secret_auto_clear {
        *auto_clear = Some(
            PendingClipboardWrite {
                due_at_ms: deadline_exec(now_ms, SECRET_AUTO_CLEAR_MS),
                expected_hash: clipboard_text_hash(snapshot.text.as_str()),
            },
        );
    }
    Capture::Record(hash)
}

} // verus!

verus! {

/// Every tag parsed from a tag input is non-empty and carries no surrounding
/// whitespace.
pub proof fn lemma_parsed_tags_are_clean(input: Seq<char>)
    ensures
        forall|j: int|
            0 <= j < non_empty(trim_each(split_on(input, ','))).len() ==> (#[trigger] non_empty(
                trim_each(split_on(input, ',')),
            )[j]).len() > 0 && trim(non_empty(trim_each(split_on(input, ',')))[j]) == non_empty(
                trim_each(split_on(input, ',')),
            )[j],
{
    crate::text::lemma_trimmed_pieces(split_on(input, ','));
}

/// Every MIME type read from a target list is non-empty and carries no
/// surrounding whitespace.
pub proof fn lemma_listed_mime_types_are_clean(output: Seq<char>)
    ensures
        forall|j: int|
            0 <= j < non_empty(trim_each(lines(output))).len() ==> (#[trigger] non_empty(
                trim_each(lines(output)),
            )[j]).len() > 0 && trim(non_empty(trim_each(lines(output)))[j]) == non_empty(
                trim_each(lines(output)),
            )[j],
{
    crate::text::lemma_trimmed_pieces(lines(output));
}

/// Seeing the same signature twice in a row counts as one change at most:
/// the second observation leaves the counter where the first put it.
pub proof fn lemma_same_signature_counts_once(
    first: ClipboardChangeState,
    second: ClipboardChangeState,
    third: ClipboardChangeState,
    signature: Option<String>,
)
    requires
        counted(first, second, signature),
        counted(second, third, signature),
    ensures
        third == second,
{
}

} // verus!

verus! {

/// Our own write is skipped at most once: after a change has been ignored as
/// ours, the next change (even with the same content) is recorded.
pub proof fn lemma_self_write_ignored_once(
    pending: Option<PendingClipboardWrite>,
    now_ms: u64,
    hash: Seq<char>,
    later_ms: u64,
    later_hash: Seq<char>,
)
    requires
        self_write_outcome(pending, now_ms, hash).0,
    ensures
        !self_write_outcome(self_write_outcome(pending, now_ms, hash).1, later_ms, later_hash).0,
{
}

} // verus!

verus! {

/// The words that mark a MIME type as a secret's: concealed-data hints and
/// the names of password managers.
pub open spec fn concealed_markers() -> Seq<Seq<char>> {
    seq!["concealed"@, "secret"@, "password"@, "onepassword"@, "bitwarden"@, "keepass"@]
}

/// The words that mark a MIME type as a transient item's.
pub open spec fn transient_markers() -> Seq<Seq<char>> {
    seq!["transient"@, "x-kde-passwordmanagerhint"@, "application/x-gtk-text-buffer-rich-text"@]
}

/// A MIME type whose lower-cased text holds any of the concealed markers
/// (`concealed`, `secret`, `password`, `onepassword`, `bitwarden`,
/// `keepass`) at any position marks the item as a secret.
pub proof fn lemma_marker_makes_concealed(mime: Seq<char>, marker: int, at: int)
    requires
        0 <= marker < concealed_markers().len(),
        0 <= at,
        at + concealed_markers()[marker].len() <= lower(mime).len(),
        lower(mime).subrange(at, at + concealed_markers()[marker].len()) == concealed_markers()[marker],
    ensures
        marks_concealed(mime),
{
    let m = lower(mime);
    let w = concealed_markers()[marker];
    assert(crate::text::occurs_at(m, w, at));
    if marker == 0 {
        assert(contains(m, "concealed"@));
    } else if marker == 1 {
        assert(contains(m, "secret"@));
    } else if marker == 2 {
        assert(contains(m, "password"@));
    } else if marker == 3 {
        assert(contains(m, "onepassword"@));
    } else if marker == 4 {
        assert(contains(m, "bitwarden"@));
    } else {
        assert(contains(m, "keepass"@));
    }
}

/// Only those markers make a secret: a MIME type marks the item concealed
/// only if its lower-cased text holds one of them somewhere.
pub proof fn lemma_concealed_has_marker(mime: Seq<char>)
    requires
        marks_concealed(mime),
    ensures
        exists|marker: int, at: int|
            0 <= marker < concealed_markers().len() && #[trigger] crate::text::occurs_at(
                lower(mime),
                concealed_markers()[marker],
                at,
            ),
{
    let m = lower(mime);
    let ws = concealed_markers();
    let k: int = if contains(m, ws[0]) {
        0
    } else if contains(m, ws[1]) {
        1
    } else if contains(m, ws[2]) {
        2
    } else if contains(m, ws[3]) {
        3
    } else if contains(m, ws[4]) {
        4
    } else {
        5
    };
    assert(contains(m, ws[k]));
    let at = choose|at: int| crate::text::occurs_at(m, ws[k], at);
    assert(crate::text::occurs_at(m, ws[k], at));
}

/// A MIME type whose lower-cased text holds any of the transient markers at
/// any position marks the item as transient.
pub proof fn lemma_marker_makes_transient(mime: Seq<char>, marker: int, at: int)
    requires
        0 <= marker < transient_markers().len(),
        0 <= at,
        at + transient_markers()[marker].len() <= lower(mime).len(),
        lower(mime).subrange(at, at + transient_markers()[marker].len()) == transient_markers()[marker],
    ensures
        marks_transient(mime),
{
    let m = lower(mime);
    let w = transient_markers()[marker];
    assert(crate::text::occurs_at(m, w, at));
    if marker == 0 {
        assert(contains(m, "transient"@));
    } else if marker == 1 {
        assert(contains(m, "x-kde-passwordmanagerhint"@));
    } else {
        assert(contains(m, "application/x-gtk-text-buffer-rich-text"@));
    }
}

} // verus!
