# backend_manager

Management of locally launched model backends, verified with Verus.

- `src/` is the verified library:
  - `text` – trimming, whitespace, decimal text, character access;
  - `kind` – backend kinds and statuses and their stored names;
  - `json` – JSON values as plain data, and reading model listings;
  - `logs` – the bounded log of a backend;
  - `runtime` – the state of one backend and the decisions of its lifecycle
    (start, launch plan, readiness, exit, health, input, stop);
  - `registry` – the backends known at run time, with serial-numbered handles;
  - `store` – the stored form of a backend and the statements that write it;
  - `commands` – requests, the information shown, health checks, model
    listings and environment files;
  - `outside` – the calls into `serde_json`, `uuid` and std that are trusted.
- `app/` holds what Verus does not check: the SQLite database, the processes
  and their tasks, HTTP requests and the command handlers.
- `tests/` runs the library on concrete values.
