# cpu16

A 16-bit CPU emulator with a custom instruction set, a two-pass assembler,
a direct-mapped write-through L1 cache model and a 5-stage in-order pipeline,
written in Verus: each function of the library carries a contract that
Verus proves.

## Layout

- `src/` — the verified library
  - `flags.rs` — the FLAGS register (Z, C, N, V, IE) and its update rules
  - `memory.rs` — 64 KB little-endian memory, hex dump
  - `cache.rs` — 16-line direct-mapped cache with cold/conflict miss counts
  - `isa.rs` — opcodes, instruction encoding and decoding
  - `alu.rs` — the arithmetic, logic, shift and rotate operations
  - `cpu.rs` — the single-cycle core: fetch, decode, execute, interrupts
  - `pipeline.rs` — the pipelined core: hazards, stalls, branch flushes
  - `lexer.rs`, `numbers.rs`, `assembler.rs` — the assembler
  - `text.rs` — number formatting used by the dumps and messages
- `tests/` — tests of the library
- `app/` — the command-line runner, the `assemble` command, the web
  debugger, and the reports that print floating-point figures

Each module states its model (spec functions over `Seq`, integers and
views) and the laws that hold of it as public proof functions (`law_*`).
