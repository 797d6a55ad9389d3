//! Pasta, a clipboard manager for devs and devops: the logic behind its
//! Linux runtime, with each function's behaviour stated and proved.
//!
//! - `shortcuts`: the desktop-portal global hotkey handshake and listener.
//! - `clipboard`: change detection, secret/transient hints, own-write and
//!   auto-clear bookkeeping; `digest` the SHA-256 content hashes.
//! - `emoji`: the CLDR annotation parser, the emoji corpus and lexical search.
//! - `presentation`: result-row titles, text-input state, help and colours;
//!   `launcher` the labels and preview choice of the launcher window.
//! - `tray`: the status-bar menu and the autostart entry.
//! - `fonts`, `window`, `assets`, `neural`: font resolution, window placement,
//!   bundled-asset routing and the embedding cache's validity.
//! - `text`, `digits`: character-level string and number formatting primitives.

pub mod assets;
pub mod clipboard;
pub mod digest;
pub mod digits;
pub mod emoji;
pub mod fonts;
pub mod launcher;
pub mod neural;
pub mod presentation;
pub mod shortcuts;
pub mod text;
pub mod tray;
pub mod window;

