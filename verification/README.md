# omacal

The rules of a desktop calendar for Google and CalDAV accounts, written in
Verus and proved against their contracts.

`src/` is the library:

- `events`, `guests`, `writes`, `edits`, `resolve` — who may answer or edit
  an event, the guest list a write sends (every guest echoed whole), which
  Google event a write lands on, how an edit's times are carried onto a
  series as a movement rather than as the form's own values (timed instants
  on the zone's clock, all-day dates by whole days), what an edit's patch
  carries and when it is retried, and the order of a split's two writes.
- `civil`, `zone`, `clock` — dates and days, reading instants in a named zone,
  and the day and time of day a notification shows.
- `credentials`, `sync`, `config`, `display_tz`, `paths`, `logging` — the
  token cache and the accounts marked for re-consent, what a sync attempts and
  reports, where the client credentials and the app's files come from.
- `invites`, `export`, `ipc`, `views` — invitation announcements and tray rows,
  exported files, the command-line socket's protocol rules and reply lines, and the windows
  the calendar views read.

`app/` holds the edges around it: reading files and the environment, the
keyring, the log subscriber, and the JSON the webview and the command line
speak. `tests/` runs the library on concrete cases.
