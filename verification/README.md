# builder_jobs

Job bookkeeping of a build service, verified with Verus.

- `src/job.rs` — jobs, their states and the `jobs` rows they are read from.
- `src/store.rs` — the arguments of the job queries and the reading of
  their answers; the law that a created job reads back as pending.
- `src/sync.rs` — the decisions of the job-status synchronisation with the
  scheduler.
- `src/config.rs` — worker configuration, its defaults and the job-server
  endpoints derived from it.
- `src/wire.rs` — Protocol Buffers encoding of the log messages, through the
  `protobuf` crate.
- `src/logger.rs` — numbering and framing of streamed build logs.
- `app/` — the PostgreSQL data store, the TOML configuration loader and the
  ZeroMQ log publisher around the library.
