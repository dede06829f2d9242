# cs2-buttplug

Drives buttplug.io devices (through Intiface) from Counter-Strike 2 game-state
updates, with the game logic in a user-editable Rhai script.

- `src/` is the library, verified with Verus: the configuration and its
  defaults (`config`), the timed command queue between the script and the
  devices (`timer`), how the device client reacts to events and which
  transport reaches the server (`devices`), when the script is rebuilt
  (`script`), the check for a newer release (`version`), the launcher
  window's settings and buttons (`launcher`), and the text helpers they share
  (`text`).
- `app/` is the command-line program around it: configuration file, the
  game-state server, the Rhai script host, the device client and the threads
  that connect them. `app/ui.rs` is the launcher window, a program of its own.
- `tests/` runs the library on concrete cases.
