# fedsurf

The logic of Fedsurf, a desktop browser for the Federate Network, as a
verified library: every function in `src/` carries a contract that Verus
proves, except one trusted wrapper, `text::push_char`, whose contract
(`String::push` appends one character) is taken from the standard library's
documentation.

- `src/tabs.rs` — the tab model and its operations (create, activate, close,
  move, metadata updates, next/previous and number shortcuts, window title),
  with the laws that tie them together;
- `src/address.rs` — address-bar input to URL, search query encoding;
- `src/fed_protocol.rs` — canonical `fed://` URLs, the branded error and
  security pages, and the response to every resolution outcome;
- `src/deep_link.rs` — the one replay of the launch URLs that is ignored;
- `src/ipc.rs` — messages that tab pages post over `fedsurf-ipc://`;
- `src/ua.rs` — user agent and injected script per platform;
- `src/base64.rs`, `src/decimal.rs`, `src/text.rs` — encodings and string
  primitives.

`app/` is the desktop program around it: windows and webviews, the
in-process resolver (network and disk), menus, deep links.
