# Obscura

The decisions of a headless browser, written and proved in Verus.

- `src/net` — which URLs may be fetched, what a page load sends, when it follows a redirect.
- `src/js` — what page scripts may do: read and change the document, fetch, take URLs apart.
- `src/cdp` — the DevTools server: pages and sessions, where a request goes, what waits while
  a navigation lets its client decide about requests, mouse and keyboard.
- `src/api` — the browser for programs that embed it.
- `src/text.rs`, `src/assoc.rs`, `src/json.rs`, `src/base64.rs` — strings, maps kept as lists,
  JSON and base 64, which the rest is stated over.
- `app` — ordinary Rust around the library: sockets, files, timers and the script engine. It
  performs what the library decides and hands back what came of it.
- `tests` — the library run on concrete values, with the real crates behind it.

Where a result comes from another crate (`url`, `serde_json`, `reqwest`, `base64`, `sha1`,
`sha2`, `uuid`) or from a few functions of `std`, a small function marked
`#[verifier::external_body]` makes the call, and its comment says what is believed of it.
Everything else is proved.
