# OneSync

A GTK front end for the `onedrive` command-line client, with its logic verified by Verus.

- `src/` — the verified library: the onedrive configuration file model and editor,
  the profile store, the CLI's command lines and output parsing, the operation
  registry and button states, the UI session (what each backend report does, when a
  run may start or stop), the transfer board, the tray menu, and the Microsoft Graph
  paths and upload pieces.
- `app/` — the program around it: GTK and libadwaita windows, the onedrive processes
  and their reader threads, HTTP calls to Microsoft Graph, files on disk, and the
  system tray.
- `tests/` — tests of the library.
