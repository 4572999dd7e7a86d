//! Chip-level models: the Intel 8251A UART and the WD FD1771 floppy controller.
pub mod fd1771;
pub mod uart8251;

pub use fd1771::Fd1771;
pub use uart8251::Uart8251;
