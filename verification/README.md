# gen_upload

Takes in Archipelago (AP) generations that were made outside the lobby: a room's owner uploads
the zip that AP wrote, and optionally the slot passwords next to it. The library checks that the
generation was made from the room's YAMLs, and says what to associate with each of them.

- `src/` is the library, written in Verus. `validate` is the check itself, `outputs` chooses the
  file to serve for a slot, `patch_name` reads output file names, `reading` and `upload` work on
  zips, `generation` lists what to write to the database, and `ingest` takes an upload through
  its steps. `laws` states what holds of these together.
- `src/archive.rs`, the top of `src/text.rs` and the part on naming in `src/slots.rs` hold
  everything that is trusted without proof: reading zips with the `zip` crate, two functions of
  std, and that a new counter of the `counter` crate is empty.
- Zips are read with stored and deflated entries only: `Cargo.toml` leaves the other compression
  methods of the `zip` crate out.
- `tests/` runs the library on real zips.
- `app/` is the web and database side around it.
