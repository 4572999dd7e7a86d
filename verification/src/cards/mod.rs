//! The cards of the IMSAI 8080: memory, serial I/O, floppy controller, and the front panel.
pub mod front_panel;
pub mod memory;
pub mod serial;
pub mod tarbell;

pub use front_panel::{CpuControl, FrontPanel, IoEvent, PanelLeds, PanelSwitch, RunState};
pub use memory::MemoryCard;
pub use serial::SerialCard;
pub use tarbell::TarbellCard;
