//! IMSAI 8080 emulator: the S-100 bus with its memory, serial and floppy
//! cards, the front panel, an 8080 core wired to them, CP/M loading, front
//! panel programs, trace reports and the terminal's command line.

pub mod dpb;
pub mod text;
pub mod disk;
pub mod io;
pub mod chips;
pub mod cards;
pub mod bus;
pub mod cpm_bios;
pub mod bios;
pub mod disasm;
pub mod program;
pub mod card;
pub mod cpm;
pub mod memory;
pub mod system;
pub mod cli;
pub mod tui;
pub mod emulator;
pub mod trace;
pub mod pc_trace;

pub use bus::ImsaiBus;
pub use bios::Bios;
pub use cards::memory::{load_memory_segments, memory_image_readable, memory_segments, LoadError, MemorySegment};
pub use cards::{
    CpuControl, FrontPanel, IoEvent, MemoryCard, PanelLeds, PanelSwitch, RunState, SerialCard,
    TarbellCard,
};
pub use chips::Fd1771;
pub use chips::Uart8251;
pub use cpm_bios::CpmBios;
pub use disk::DiskImage;
pub use emulator::Imsai8080;
pub use io::Keyboard;
pub use io::VideoDisplay;
pub use program::{
    execute_panel_program, find_program_start, memory_to_program, parse_hex16, parse_hex8,
    parse_hex_bytes, PanelProgram, PanelStep,
};

