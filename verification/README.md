# IMSAI 8080 emulator

An emulator of the IMSAI 8080: Intel 8080 CPU (the `intel8080` crate), 64K of
RAM, the SIO-2 serial board with its two 8251A UARTs and 80x24 screen, the
Tarbell FD1771 floppy controller, and the front panel. The library is written
in Verus: its functions carry contracts and are proved.

## Layout

- `src/` — the library.
  - `bus.rs`, `cards/`, `chips/`, `io/`, `disk.rs`, `dpb.rs`: the S-100 bus
    and its cards, the 8251A and FD1771 chips, keyboard, screen, disk images.
  - `emulator.rs`: the machine, an `intel8080` core wired to the bus and the
    front panel.
  - `program.rs`: hex parsing and front panel programs.
  - `trace.rs`, `pc_trace.rs`: the trace and diagnostic runs and their reports.
  - `tui.rs`, `cli.rs`: the terminal's command line, key handling and screen
    text, and the command-line arguments.
  - `bios.rs`, `cpm.rs`, `cpm_bios.rs`, `card.rs`, `memory/`, `system/`,
    `disasm.rs`, `text.rs`: BIOS and CP/M loading, the card trait, a plain
    memory, configuration, the disassembler and text helpers.
- `app/` — the `imsai-cli` program: argument and file handling, JSON files,
  the terminal loop (crossterm) and printing.
- `tests/` — tests of the library.
