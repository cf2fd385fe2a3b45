# my-rss-feeder

The core of a desktop RSS reader, written in Verus. The library's functions
carry contracts that Verus proves, except for a few small functions that call
outside code and whose contracts Verus takes on trust; each states in its doc
comment what it claims of that code:

- `clock.rs` — `utc_now_rfc3339`, `local_time_of_day`, `local_day_bounds`
  (chrono);
- `commands.rs` — `new_uuid` (uuid);
- `digest.rs` — `sha256_digest` (sha2);
- `feed/parser.rs` — `parse_feed_details`, `parse_entry_texts`,
  `parse_entry_meta` (feed-rs);
- `web.rs` — `select_attrs` (scraper), `join_url` (url);
- `text.rs` — `push_char`, `to_lowercase`, `from_utf8_lossy` (std).

- `src/db` — the store of feeds, articles and settings, with the constraints
  of its schema (unique ids and addresses, one article per feed entry, articles
  removed with their feed), the article listing (filters by feed and date,
  newest first, pages) and the reminder settings.
- `src/feed` — reading Atom, RSS and JSON Feed documents (through feed-rs),
  finding the feed that a web page announces, conditional fetches. feed-rs
  stops the program on some media times (an iTunes `duration`, a Media RSS
  `start`, `end` or `time` attribute) with digits of another script, a
  character reference or 16 digits or more; a document that may hold such a
  time, or that declares namespaces in an encoding whose text cannot be
  checked byte by byte (with a zero or escape byte), is refused with an error
  instead of being read (`reader_may_panic`).
- `src/ogp` — the Open Graph image and description of a page, and the file
  names of cached images.
- `src/notification` — the daily reminder: the configured time, the wait for
  it, today's unread count and the reminder text.
- `src/webview.rs` — the scripts that highlight an article's title in the
  page the viewer shows, with the title escaped for a JavaScript literal.
- `src/commands.rs` — what adding and refreshing feeds and fetching Open
  Graph data decide once the network has answered.
- `app/` — the Tauri application around the library: SQLite storage, HTTP,
  the viewer window and the reminder loop.
- `tests/` — tests of the library on concrete values.
