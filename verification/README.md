# eocc-core

The core of a session monitor for coding agents: it turns the events that an
agent's hook reports (session start and end, notifications, tool use, stops)
into a dashboard of sessions, detects status transitions that call for a
notification, decides per project and cooldown whether one goes out, and
builds what each channel (ntfy, webhook, Pushover, desktop) is sent.

Everything under `src/` is verified with Verus: each public function states
its result in `ensures`, and the library's laws (cooldowns, deduplication with
the hook, first-matching project rule, bounded histories, URL encoding round
trips, and more) are public proof functions.

Layout:

- `src/state.rs`, `src/events.rs`: sessions, events and how an event changes
  the dashboard; `src/dashboard.rs` orders the dashboard.
- `src/notifications/`: settings, project rules, transition detection,
  templates, the channels and the notification history.
- `src/pipeline.rs`: event batches, cooldown and channel selection.
- `src/hook.rs`, `src/hook_state.rs`: what the hook decides for one event.
- `src/tmux.rs`, `src/api.rs`: tmux command plans and output parsing; HTTP
  routing, query parsing and the viewer page.
- `src/text.rs`, `src/strmap.rs`, `src/urlcode.rs`, `src/timefmt.rs`: text,
  an insertion-ordered string map, URL encoding, and UTC timestamps.
- `app/`: the programs around the library (the hook, the headless watcher and
  the API server), with the file, process and network I/O.
