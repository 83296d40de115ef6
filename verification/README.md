# abi

Error types of a reservation service backed by Postgres, with a verified
reader for the detail text of the exclusion-constraint violation that
Postgres reports when two reservations of one resource overlap.

Layout:

- `src/pattern.rs` – the pattern that finds the keys of a detail, the scanner
  for it, and the proof that its match at a position is unique.
- `src/fields.rs` – a small text-to-text map.
- `src/datetime.rs` – instants as integers, and the call into `chrono` that
  reads a timestamp.
- `src/conflict.rs` – the windows and conflicts read from a detail.
- `src/error.rs` – the service error and how a database failure becomes one.
- `src/detail.rs` – the detail text Postgres writes, and the proof that it
  reads back as the windows it names.
- `app/` – the Postgres side: the pool, the insert, and the conversion of
  driver errors.
