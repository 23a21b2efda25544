# streamer_tools

A toolbox for streamers: stream timers for overlays, a Twitch-connected
backend, and its logger. The library under `src/` is written in Verus and
verified; `app/` holds the programs around it (HTTP servers, database,
websockets, settings files).

Modules of the library:

- `clock` — the timer clock (`Time`, `Timer`): seconds to `hh:mm:ss` and
  back, ticking up and down, reading and showing `hh:mm:ss` text, handling
  ticks and page query parameters.
- `num_text`, `text` — decimal text and `i32` parsing, splitting and joining
  text.
- `logs`, `paint` — log levels and scopes, the bounded log buffer and what
  it flushes for the log file, log lines
  and their colours, the log item builder.
- `events` — control-panel buttons and the event bus.
- `config`, `routes`, `sql`, `twitch` — the backend: settings, API paths and
  forms, viewer counts, stored rows, Twitch messages.
- `server`, `client`, `shared` — the overlay server's statements and
  subathon feed, the file server's options, random connection numbers.

`app/main.rs` runs the backend; `app/main.rs overlay` the overlay server,
`app/main.rs files` the static file server.
