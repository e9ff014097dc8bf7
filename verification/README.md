# bili_ticker_buy

The decision logic of a ticket-purchasing client for Bilibili shows, written
in Verus and verified against its contracts, with a small web front end around
it.

- `src/` is the verified library:
  - `time_sync` — clock-offset estimation from time samples, and reading
    times out of NTP and HTTP time sources;
  - `clock` — Beijing wall-clock time and scheduled-time parsing;
  - `buy` — strategy choice, retry pacing, the wait for the sale time, background
    offset updates, answer codes;
  - `task` — the course of a purchase task as a state machine;
  - `order` — the ticket, its buyers, and the prepare/create request bodies;
  - `util` — the `ctoken` of hot projects;
  - `project` — normalisation of project-detail responses;
  - `session` — QR-code login, saved accounts, cookie export files;
  - `storage` — order history and project history;
  - `web` — Basic credentials, routing and command arguments;
  - `json`, `text` — the JSON model and character-level helpers.
- `app/` is the web server (`tiny_http`, `reqwest`, `tokio`): it performs the
  I/O and hands plain values to the library.
- `tests/` exercise the library on concrete values.
