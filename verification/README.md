# mithka_tdlib

The verified core of a Telegram desktop client that opens a copied Mithka
TDLib database, and of its local extras (feed subscriptions, local groups and
pins). Everything under `src/` is checked by Verus; `app/` is the headless
`mithka-tdlib-spike` program around it.

## Layout

- `src/driver.rs`: the authorization and chat-list state machine of the
  headless program. Each TDLib event goes in as a typed `TdEvent`; what comes
  out is an `Effect` (lines to print, typed `Request`s to send, an exit code).
- `src/run.rs`: the timing decisions of the receive loop (interrupt, close
  deadline, authorization and chat-title waits).
- `src/request.rs`: the TDLib requests the library can ask for. None of them
  is `logOut`.
- `src/notify.rs`: notification settings, scopes and their requests.
- `src/shell.rs`: what the desktop session shows: chat rows, transcripts,
  search hits, links in message text, photo sizes, status lines.
- `src/desktop.rs`: the desktop session itself, a state machine from typed
  events and window commands to requests and window updates, built on
  `chats.rs`, `contacts.rs`, `messages.rs`, `files.rs`, `history.rs` and
  `search.rs`.
- `src/database.rs`: whether a directory is a usable database slot.
- `src/format.rs`: URL checks and local-time formatting (through chrono).
- `src/rss/`: feed fetching (ureq), parsing (feed-rs), HTML to text, and the
  subscription store.
- `src/gpui/`: local groups, local pins, the subscriptions panel, chat column
  ordering, search rows, message text spans, the window's copy of the session
  state, image headers and other view decisions of the desktop shell.
- `src/gtk.rs`: the GTK window's markup, badges and pane layout.
- `app/`: command line, the `libtdjson.so` loader, the receive loops (the
  headless one and the desktop client's background thread), JSON on the
  wire, the store files, and the feed worker thread.

Laws about several functions are public proof functions named `law_*`.
