# red_hare

An in-memory key-value store with expiring entries, verified with Verus.

- `src/engine`: the store (`RedHare`), its string entries, its snapshot
  records, the laws that its operations keep, and a trigger counter.
- `src/storage`: the snapshot files: which files are snapshots, which one is
  the latest, how a new one is named, and taking and loading snapshots.
- `src/utils`: expiry arithmetic, clock readings and character-level text work.
- `src/api`, `src/config`: the rules of the HTTP endpoints and the settings.
- `app`: the HTTP service, file I/O, serialisation and the shared instances.

Operations that read the wall clock come in two forms: one that reads the
clock, whose contract holds whatever the clock says, and one ending in `_at`
that takes the time as an argument and has an exact contract.
