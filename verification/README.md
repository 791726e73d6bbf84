# gear_editor

A web admin panel for the remielle game server, with its logic verified by
Verus.

- `src/` is the verified library: the PlayerSave reader, the ctl packet
  builders and the acknowledgement and presence logic, the session store and
  login checks, the disc rules (stat options, sub-stat validation, random
  generation), the disc list filters and paging, the server selection, the
  ZON and template readers, the asset range planner, and every HTML page and
  fragment the panel serves, each with a contract over `Seq`, `Map` and
  spec functions. Its public proof functions (`law_*`) state what holds
  across calls: round trips, read-after-write of the caches and the session
  store, escaping, sorting and paging.
- `app/` is the Axum server around it: routing, files, UDP, SQLite, the SDK
  HTTP call, JSON dumps and the few floating-point figures the pages show.
- `tests/` runs the library on concrete values.

The server reads the environment variables
`GEAR_EDITOR_ADDR`, `GEAR_CTL_ADDRESS`, `GEAR_CTL_ADDRESS_PROD`,
`GEAR_STATE_DIR`, `GEAR_STATE_DIR_PROD`, `GEAR_ASSET_DIR`,
`GEAR_ASSET_DIR_PROD`, `ZZZ_DUMP_DIR`, `ZZZ_LIVE_DUMP_DIR` and
`GEAR_PASSWD_DIR`, which override the default locations below the workspace
root.
