# Clipway

A clipboard history manager for GNOME on Wayland. A shell extension hands new
clipboard content to the daemon over D-Bus; the daemon decides what to keep,
stores it in an encrypted SQLite database, and shows it in a popup.

- `src/` is the library, verified with Verus: capture rules, the history and its
  laws, search, previews, settings, bus names, and what the windows show.
- `app/` is the program around it: the bus, the keyring, GSettings, the windows.
  With `RUSTFLAGS="--cfg headless"` it is built without the windows.
- `tests/` runs the library against a real database.

| Module | What it holds |
| --- | --- |
| `text`, `decimal` | characters, lines, words, numbers in decimal |
| `crypto` | keys in hexadecimal, and the steps to get the database key |
| `settings` | the settings as they count, and excluded applications |
| `model` | kinds of content, MIME types, previews |
| `like` | search patterns and what they match |
| `history` | the history as a map of rows, and what every change keeps |
| `sqlite` | the statements and what each does to the rows |
| `store` | adding, listing, searching, pinning and dropping entries |
| `dbus` | capture, entry paths, pasting, lists on the bus |
| `popup`, `prefs`, `gui`, `paths` | what the windows show, and where the database lies |

What the library takes on trust of other crates and of the standard library is
marked `external_body`, `assume_specification` or `external_type_specification`,
and each such item says what it claims.
