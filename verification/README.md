# mercury

A terminal IRC client whose logic is a library verified with Verus.

- `src/` is the verified library:
  - `irc/` — outbound messages and their wire form, the channel table, the
    local user's nick / NickServ / WHOIS / WHO state, and the connection state
    machine with its configuration;
  - `tui/app.rs` — the application state (buffers, navigation, member lists,
    scrolling) and its model `AppView`;
  - `tui/command.rs` — commands typed in the input bar, key presses and the
    connection steps, each a step from state to state plus the outside work
    (`Action`) left to the caller;
  - `tui/inbound.rs` — what messages from the server do;
  - `tui/ui.rs`, `tui/layout.rs` — what each screen area shows, and how many
    rows a wrapped line takes;
  - `text.rs`, `order.rs`, `strmap.rs` — string helpers, sorting, and a small
    string-keyed map.
- `app/` is the program around it: the terminal, the event loop, the network
  connection through the `irc` crate, and drawing with `ratatui`.
- `tests/` exercises the library.
