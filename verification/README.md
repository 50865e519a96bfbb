# easywifi

Passive Wi-Fi and Bluetooth discovery: the core logic, verified with Verus.

## Layout

- `src/` — the verified library.
  - text and parsing: `text`, `http`, `sorted`
  - settings and radio rules: `settings`, `channels`, `scan_setup`, `wifi_lock`
  - device records and their merging: `records`, `merge`, `recency`, `event_batch`
  - the web UI state and its actions: `web_state`, `web_actions`
  - watchlists: `watchlist`, `watch_style`
  - scanning: `watchdog`, `scan_control`, `geiger`, `desktop`
  - tables and detail views: `table`, `table_sort`, `sort_keys`, `cells`,
    `pagination`, `list_signature`, `list_refresh`, `display`, `status`,
    `ap_detail`, `bluetooth_detail`
- `tests/` — tests of the library on concrete values.
- `app/` — the program around it: the web server, file and command I/O,
  JSON encoding.

Each public function states its result in its `ensures`, with two kinds of
exception: where the result comes from the clock (`epoch_timestamp`) or
from a channel (`drain_capture_events_batch`, `drain_bluetooth_events_batch`),
the contract states what holds of every outcome, and a separate function
that takes the outside result as an argument (`seconds_or_zero`,
`coalesce_capture_events`, `coalesce_bluetooth_events`) states the rest
exactly. The laws that relate several functions are public proof functions
(`lemma_*`).

Times are carried as milliseconds since the epoch (`i64`) or seconds of a
monotonic clock (`u64`); floating-point values (coordinates, utilisation)
are carried as IEEE-754 bit patterns and rendered by the caller.
