# fromsoft_bindings

Verified pieces of FromSoftware game tooling, written with Verus.

- `src/input_flags.rs`, `src/input.rs`: the input kinds and the blocker that
  decides which game inputs a debug overlay withholds.
- `src/device_hooks.rs`: which DirectInput hooks to place and when a hooked
  call hands the game a zeroed device state.
- `src/world_info.rs`: the world's area and block tables of Dark Souls III,
  their pools and the parts of them in use, and block IDs.
- `src/text.rs`, `src/game_version.rs`, `src/version_resource.rs`:
  normalizing product names, finding an executable image's version resource
  with pelite, checking that pelite's parser can walk it without panicking,
  reading it with pelite, and telling a game's version from it.
- `app/`: the Windows side, unverified: the process-wide blocker shared
  across live reloads, installing the DirectInput hooks, detecting a loaded
  game's version, the allocator vtables, and the in-memory layouts of the
  world tables with their sizes checked at compile time, copied into the
  verified model and written back after an edit.
