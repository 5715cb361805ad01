# malverde

The core of the Malverde framework: jobs and their manager, events, their
correlation and their publish-subscribe bus, audit records, the storage row
formats and database schema, configuration, and the command-line and
dashboard logic. Every function in `src/` carries a contract that Verus
checks.

## Layout

- `src/` — the verified library.
  - `ids`, `types`, `error`, `text_map`: identifiers, plain value types,
    errors and their messages, and an insertion-ordered map keyed by text.
  - `job`, `context`, `manager`: jobs and their lifecycle, job contexts, and
    the job manager with its pending and running queues.
  - `events`, `correlation`, `event_bus`, `handlers`: events, their
    parent-child and grouping relations, the bounded event buffer with its
    subscriptions, and handler registration by event type name.
  - `audit`, `audit_logger`: audit records, the logger's bounded buffer,
    and an in-memory audit storage.
  - `storage`, `migrations`: stored records, the rows they are written as
    and read back from, and the schema migrations still to apply.
  - `config`, `logging`, `tui`, `cli`: settings, tagged log lines, the
    dashboard's key handling, and the command-line answers.
- `tests/` — tests of the library.
- `app/` — the `malverde` program around the library: argument parsing,
  configuration files, log output, SQLite, event delivery on tokio tasks,
  background job processing, and the terminal dashboard.

Functions that read the clock have a companion ending in `_at` that takes
the time as an argument and whose contract fixes the result exactly.
Subscribers, handlers and shared resources are referred to by numeric
handles; the program keeps the objects behind them.
