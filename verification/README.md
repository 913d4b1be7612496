# baelyks_shell

The verified core of a small Wayland desktop shell: a status bar, an
application launcher and a notification daemon.

- `src/` is the library, written in Verus. Each public function states what it
  returns in its `ensures`, over spec functions and views, and the laws of the
  library (such as "a replaced notification keeps its place" or "the age label
  of a notification never goes back") are public proof functions.
  - `markup` parses the body markup of notifications (`<b>`, `<i>`, `<u>`,
    `<a href>`, `<img>`) and groups it into paragraphs and images.
  - `notification`, `dbus` and `center` hold the notification daemon: ids,
    expiry, the `Notify` request, and the state machine of the notification
    window.
  - `bar`, `battery`, `volume`, `sway` and `tray` hold the status bar: its
    state machine, its indicators and its tray items; `selection` and
    `launcher` the launcher's result list, state machine and providers;
    `appearance` and `clock` what the windows show; `logging` the logger
    settings; `freedesktop` icon paths and desktop entry ids; `text` string
    helpers; `channel` the channels to other tasks.
- The tray items are kept in a list of (application, item) pairs with no
  application twice, whose view is a map. The shell keys them by `String`,
  and vstd's `HashMap` specification proves nothing of a map with `String`
  keys, whose equality it does not model (with `String` keys, Verus could not
  even show that one insertion into an empty map leaves one entry); so the
  list, with its invariant, takes the place of the hash map.
- What goes to another task over a channel is recorded, for each kind of
  message, as the history of what a sender has queued; the functions that
  send state how that history grows.
- `tests/` runs the library on concrete values.
- `app/` is the program around it: the D-Bus server, `wpctl`, the battery,
  sway, desktop entries and files on disk, and the logger installation.
