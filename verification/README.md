# wl-shortcuts-overlay

A keyboard-shortcuts overlay for the COSMIC desktop on Wayland: while Alt is
held on its own, a translucent, blurred panel lists the desktop's shortcuts.

## Layout

- `src/` is the verified library (Verus):
  - `blur.rs` — the separable box blur of RGBA pixel data, with its laws;
  - `config.rs` — configuration defaults and the `#RRGGBB` colour format;
  - `keybinding_reader.rs` — the desktop's shortcuts turned into the sorted,
    grouped list of key bindings that the overlay shows;
  - `shortcut_reader.rs` — parsing of desktop entry (`.desktop`) files and the
    XDG data directories;
  - `input_listener.rs` — when Alt is held alone;
  - `overlay.rs` — when the overlay window is shown, resized, drawn and hidden,
    the column layout, and the preparation of the background pixels;
  - `util.rs`, `singleton.rs`, `text.rs` — placement, paths, text helpers.
- `app/` is the program around it: command line, configuration file, Wayland
  surfaces and drawing, libinput, file watching and the instance lock.
- `tests/` exercises the library.
