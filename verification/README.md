# spec_chum

The tape, ROM-catalog, debugger and inspect logic of a ZX Spectrum emulator,
written in Verus with its behaviour stated in contracts and proved.

## Layout

- `src/` — the verified library.
  - `tap`, `ear`: TAP images, ROM-timed pulse schedules, the TAP player, the
    LD-BYTES trap search and flash-load writes.
  - `tzx_spec`, `tzx_frame`, `tzx_expand`, `tzx_gdb`, `tzx`: TZX block framing,
    expansion of every supported block (including CSW via `flate2`, generalized
    data and control flow) into a pulse schedule, the TZX player and TAP
    extraction.
  - `machine`, `tape_bay`, `tape_trap`: the inserted deck, load options, EAR
    edges, the LD-BYTES trap as the CPU sees it and the +2A stack repair.
  - `debugger`: breakpoints, watches and stop history.
  - `joystick`, `load_keys`: joystick mappings, the key matrix and scripted
    `LOAD ""` typing.
  - `rom_catalog`, `rom_resolve`, `rom_slots`, `rom_read`: the ROM catalog,
    resolution over a file-system snapshot, slot states and reads.
  - `inspect`, `snapshot`, `z80test`, `msg`, `text`: snapshots as JSON and text,
    hex dumps, snapshot loading, the z80test harness checks and number
    rendering.
- `tests/` — tests run against the compiled library.
- `app/` — host plumbing: file-system probes and search roots, ROM installs,
  tape files, error types with `std::error::Error`, the float progress
  estimate.
