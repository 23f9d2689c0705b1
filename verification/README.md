# salyut-site

The rendering and request logic of the salyut.one website, verified with
Verus: the HTML pages of the read-only BBS view, the per-board RSS and Atom
feeds, the pinky lookup pages, the user list and the redirects to user
sites.

## Layout

- `src/` — the verified library (`salyut_site`).
  - `text.rs`: text building blocks — characters of a string, replacement
    of a pattern, decimal numerals, the order of `String`.
  - `web.rs`: HTML escaping, username validation, page templating.
  - `time.rs`: UTC instants and their textual forms (through `chrono`).
  - `protocol.rs`: the BBS records the site reads.
  - `feed.rs`: feed entries, their order, and the RSS and Atom documents.
  - `view.rs`: the BBS pages.
  - `now.rs`: the pinky pages.
  - `bbs.rs`, `site.rs`, `response.rs`: the answers of the routes.
  - `templates.rs`: the page templates.
- `tests/` — tests of the library.
- `app/` — the web server: argument handling, HTTP routing, the BBS client,
  running `pinky`, reading the account database.

## Build and test

The library is checked with Verus; the tests run with `cargo test`.
