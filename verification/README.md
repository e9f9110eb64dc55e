# Gesture TimeTrack

Time tracking by hand gesture, fully offline. A global hotkey opens a small
camera overlay; the recognized gesture starts, pauses, stops or switches the
tracked project. Projects, time entries, settings, custom gestures and
trained gesture samples live in a local SQLite database.

## Layout

- `src/` — the verified library (Verus). It holds the tracking state
  machine and every rule of the application, each with its contract:
  - `commands` (with `records`, `settings`, `training`): what a gesture, a
    tray click or a click in the main window does to the state;
  - `db` (with `totals`, `tables`): the tables as an in-memory model, the
    queries and day totals, loading from and writing back to plain rows;
  - `state`: sessions, snapshots, slots, settings defaults, entries entered
    by hand, recovery after a restart;
  - `camera`: cutting JPEG frames out of an MJPEG stream, image size, the
    connection state and its back-off;
  - `export`: the rows and header of the CSV export;
  - `i18n`, `error`, `tray`, `shortcut`, `clock`, `text`, `order`: texts in
    German and English, errors, tray labels, hotkey parsing and status,
    time stamps, string helpers, sorting.
- `tests/` — tests of the library on concrete values.
- `app/` — the desktop shell (Tauri): windows, tray, hotkey registration,
  SQLite storage, the camera's HTTP connection and CSV files.
