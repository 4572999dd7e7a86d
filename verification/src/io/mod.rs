//! Console keyboard, video display, and the register-level Tarbell controller.
pub mod keyboard;
pub mod panel_terminal;
pub mod tarbell;
pub mod video;

pub use keyboard::Keyboard;
pub use tarbell::TarbellController;
pub use video::VideoDisplay;
