# flatui_lib

The logic of the FlatUI Hush Windows shell (a Tauri taskbar, a search
launcher and a Win-key table picker), written in Verus and proved against
its contracts.

- `src/` — the verified library: the Win-key gesture machine (`hotkey`),
  the launcher and picker state machines (`launcher`, `tables`), taskbar
  bookkeeping and the window blacklist (`app_state`, `peek`, `winrules`),
  program search and its ranking (`search`, `order`), the desktop grid
  (`desktop`), settings, themes and table positions (`persist`,
  `positions`), the icon cache (`icon_cache`), PNG / base64 / DIB image
  handling (`image_data`, through the `base64` and `image` crates), the local
  HTTP control endpoint's parsing (`http`), crash reports (`crash`) and
  process-level rules (`system`). Text and number helpers live in `text`,
  `numfmt`.
- `tests/` — tests of the library on concrete values.
- `app/` — the Windows program around it: Tauri commands and windows, Win32
  hooks and enumeration, file and clipboard I/O, and the few computations on
  floating-point values (CPU load, volume, animation easing, DPI scaling).
