# pasta

The logic of Pasta, a clipboard manager for developers, as a Verus-verified
library, with the Linux runtime around it.

- `src/` is the library. Every function states its behaviour in `requires` /
  `ensures` over mathematical models (`Seq<char>`, `Map`, spec functions) and
  Verus proves it. Public proof functions (`lemma_*`) state properties that
  span functions: handle tokens are valid D-Bus path elements and successive
  ones differ, a granted shortcut is one that is listed, our own clipboard
  write is skipped at most once, search rankings are unique, exact font
  spellings win, and so on.
- `tests/` runs the library on concrete values.
- `app/` is the program: the single-instance lock, the `--show` trigger
  socket, the desktop-portal hotkey over D-Bus, the tray icon, the clipboard
  watcher (wl-clipboard-rs on Wayland, `xclip`/`xsel` on X11) and the
  persisted preferences. It hands plain values to the library and acts on
  what the library decides. It has no launcher or About window: those are
  drawn with gpui, which is not part of this build, so the commands that
  would open them (and the ones handled there: clear history, download the
  model) are only reported on stderr. The labels and choices those windows
  show stand in `src/launcher.rs` and `src/presentation.rs`.

Calls into outside crates that the library makes (SHA-256 from `sha2`, the
emoji list from `emojis`) go through small trusted wrappers in `src/digest.rs`
and `src/emoji.rs`, whose contracts say what is assumed of them.
