//! S-100 bus card interface and two self-contained cards.
//!
//! In a real IMSAI 8080 the S-100 bus is a passive backplane: each card owns a
//! range of I/O ports and answers reads and writes on them.
use vstd::prelude::*;
use vstd::string::StringSliceAdditionalSpecFns;
use crate::chips::fd1771::opt_model;
use crate::disk::{DiskImage, DiskView};
use crate::io::keyboard::Keyboard;
use crate::io::tarbell::{STATUS_NOT_READY, TarbellController, TarbellView, tc_io_in, tc_io_out};
use crate::io::video::{VideoDisplay, VideoView, spec_write_char};

verus! {

/// An S-100 bus card.
///
/// Each card occupies a range of I/O ports and responds to read/write
/// operations on those ports.
pub trait Card {
    /// The card's internal state is consistent.
    spec fn card_wf(&self) -> bool;

    /// The card can serve an I/O operation on `port`.
    spec fn serves(&self, port: u8) -> bool;

    /// Read from an I/O port that this card owns.
    fn io_read(&mut self, port: u8) -> (r: u8)
        requires
            old(self).card_wf(),
            old(self).serves(port),
        ensures
            final(self).card_wf(),
    ;

    /// Write to an I/O port that this card owns.
    fn io_write(&mut self, port: u8, value: u8)
        requires
            old(self).card_wf(),
            old(self).serves(port),
        ensures
            final(self).card_wf(),
    ;

    /// Check if this card responds to the given I/O port.
    fn owns_port(&self, port: u8) -> (r: bool);

    /// Human-readable name for this card (for diagnostics).
    fn name(&self) -> (r: &'static str);
}

/// Console card combining keyboard input and video display output.
///
/// Ports:
/// - 0x00: Data port. Read: get keyboard character (0 when none is waiting).
///   Write: write character to display.
/// - 0x01: Status port. Read: bit 0 = key ready, bit 1 = display ready.
/// - 0x7B: second output port to the display (CMI5619 alias).
///
/// Redrawing the display is the host's job; `video().auto_render()` says
/// whether it should redraw after each displayed byte.
pub struct ConsoleCard {
    /// Keyboard input buffer
    pub keyboard: Keyboard,
    /// Video display controller
    pub video: VideoDisplay,
}

/// Status byte of the console: display always ready (bit 1), key ready in bit 0.
pub open spec fn console_status(key_ready: bool) -> u8 {
    if key_ready { 0x03 } else { 0x02 }
}

impl ConsoleCard {
    /// Create a new console card with default 80x24 display.
    pub fn new() -> (r: Self)
        ensures
            r.card_wf(),
            r.keyboard@ == Seq::<u8>::empty(),
            r.video@.width == 80,
            r.video@.height == 24,
            r.video@.cursor_x == 0,
            r.video@.cursor_y == 0,
            r.video@.auto_render,
    {
        Self { keyboard: Keyboard::new(), video: VideoDisplay::new(80, 24) }
    }

    /// Queue characters for the CP/M keyboard to read.
    pub fn type_text(&mut self, text: &str)
        requires
            old(self).card_wf(),
        ensures
            final(self).card_wf(),
            final(self).keyboard@ == old(self).keyboard@ + text.spec_bytes(),
            final(self).video@ == old(self).video@,
    {
        self.keyboard.type_text(text);
    }

    /// Check if a keyboard character is ready to read.
    pub fn is_key_ready(&self) -> (r: bool)
        requires
            self.card_wf(),
        ensures
            r == (self.keyboard@.len() > 0),
    {
        self.keyboard.is_char_ready()
    }

    /// Get a reference to the video display for rendering.
    pub fn video(&self) -> (r: &VideoDisplay)
        ensures
            *r == self.video,
    {
        &self.video
    }

    /// Get a mutable reference to the video display.
    pub fn video_mut(&mut self) -> (r: &mut VideoDisplay)
        ensures
            *r == old(self).video,
            final(self).video == *final(r),
            final(self).keyboard == old(self).keyboard,
    {
        &mut self.video
    }

    /// Turn redraw-on-output on or off.
    pub fn set_auto_render(&mut self, enabled: bool)
        requires
            old(self).card_wf(),
        ensures
            final(self).card_wf(),
            final(self).video@ == (VideoView { auto_render: enabled, ..old(self).video@ }),
            final(self).keyboard == old(self).keyboard,
    {
        self.video.set_auto_render(enabled);
    }
}

impl Default for ConsoleCard {
    fn default() -> (r: Self)
        ensures
            r.card_wf(),
    {
        Self::new()
    }
}

impl Card for ConsoleCard {
    open spec fn card_wf(&self) -> bool {
        self.keyboard.wf() && self.video.wf() && self.video@.height > 0
    }

    open spec fn serves(&self, port: u8) -> bool {
        true
    }

    fn io_read(&mut self, port: u8) -> (r: u8)
        ensures
            final(self).video == old(self).video,
            port == 0x00 ==> if old(self).keyboard@.len() == 0 {
                r == 0 && final(self).keyboard@ == old(self).keyboard@
            } else {
                r == old(self).keyboard@[0] && final(self).keyboard@ == old(self).keyboard@.drop_first()
            },
            port == 0x01 ==> r == console_status(old(self).keyboard@.len() > 0)
                && final(self).keyboard@ == old(self).keyboard@,
            port != 0x00 && port != 0x01 ==> r == 0xFF && final(self).keyboard@ == old(
                self,
            ).keyboard@,
    {
        if port == 0x00 {
            match self.keyboard.read_char() {
                Some(c) => c,
                None => 0,
            }
        } else if port == 0x01 {
            let mut status: u8 = 0x02;
            if self.keyboard.is_char_ready() {
                status = status | 0x01;
                assert(0x02u8 | 0x01u8 == 0x03u8) by (bit_vector);
            }
            status
        } else {
            0xFF
        }
    }

    fn io_write(&mut self, port: u8, value: u8)
        ensures
            final(self).keyboard == old(self).keyboard,
            final(self).video@ == (if port == 0x00 || port == 0x7B {
                spec_write_char(old(self).video@, value)
            } else {
                old(self).video@
            }),
    {
        if port == 0x00 || port == 0x7B {
            self.video.write_char(value);
        }
    }

    fn owns_port(&self, port: u8) -> (r: bool)
        ensures
            r == (port == 0x00 || port == 0x01 || port == 0x7B || port == 0x79),
    {
        port == 0x00 || port == 0x01 || port == 0x7B || port == 0x79
    }

    fn name(&self) -> (r: &'static str)
        ensures
            r@ == "Console"@,
    {
        "Console"
    }
}

/// Tarbell 1011/1011B floppy disk controller card.
///
/// Ports:
/// - 0x48: Status register (read) / Command register (write)
/// - 0x49: Track register
/// - 0x4A: Sector register
/// - 0x4B: Data register
///
/// Also responds to CMI5619 aliases at 0xF8-0xFB, 0xFC (wait/DRQ),
/// 0xFD (DMA check), and 0xFF (front panel).
pub struct TarbellCard {
    controller: TarbellController,
}

/// The controller port that a card port stands for.
pub open spec fn tarbell_alias(port: u8) -> u8 {
    if 0xF8 <= port <= 0xFB {
        (port - 0xB0) as u8
    } else {
        port
    }
}

/// The WAIT/DRQ value: bit 7 while a sector transfer has bytes left.
pub open spec fn wait_value(m: TarbellView) -> u8 {
    if (m.reading && m.pos < 128) || (m.writing && m.pos < 128) {
        0x80
    } else {
        0x00
    }
}

impl View for TarbellCard {
    type V = TarbellView;

    closed spec fn view(&self) -> TarbellView {
        self.controller@
    }
}

impl TarbellCard {
    /// Create a new Tarbell card with no disks inserted.
    pub fn new() -> (r: Self)
        ensures
            r.card_wf(),
            r@.drives == seq![None::<DiskView>, None, None, None],
            r@.current_drive == 0 && r@.track == 0 && r@.sector == 1 && r@.data == 0,
            r@.status == STATUS_NOT_READY,
            r@.pos == 0 && !r@.reading && !r@.writing && !r@.error,
    {
        Self { controller: TarbellController::new() }
    }

    /// Insert a disk image into a drive (0-3).
    pub fn insert_disk(&mut self, drive: usize, disk: DiskImage) -> (r: Result<(), String>)
        requires
            old(self).card_wf(),
            disk.wf(),
        ensures
            final(self).card_wf(),
            r is Ok <==> drive <= 3,
            r matches Err(e) ==> e@ == "Drive number must be 0-3"@ && final(self)@ == old(self)@,
            r is Ok ==> final(self)@ == (TarbellView {
                drives: old(self)@.drives.update(drive as int, Some(disk.model())),
                status: if drive == old(self)@.current_drive {
                    old(self)@.status & !STATUS_NOT_READY
                } else {
                    old(self)@.status
                },
                ..old(self)@
            }),
    {
        self.controller.insert_disk_image(drive, disk)
    }

    /// Get a reference to the disk in a drive (for boot loading).
    pub fn get_disk(&self, drive: usize) -> (r: Option<&DiskImage>)
        requires
            self.card_wf(),
        ensures
            drive > 3 ==> r is None,
            drive <= 3 ==> opt_model(
                match r {
                    Some(d) => Some(*d),
                    None => None,
                },
            ) == self@.drives[drive as int],
    {
        self.controller.get_disk(drive)
    }

    /// Get the current track register value (for diagnostics).
    pub fn current_track(&self) -> (r: u8)
        ensures
            r == self@.track,
    {
        self.controller.current_track()
    }

    /// Get the current sector register value (for diagnostics).
    pub fn current_sector(&self) -> (r: u8)
        ensures
            r == self@.sector,
    {
        self.controller.current_sector()
    }
}

impl Default for TarbellCard {
    fn default() -> (r: Self)
        ensures
            r.card_wf(),
    {
        Self::new()
    }
}

impl Card for TarbellCard {
    closed spec fn card_wf(&self) -> bool {
        self.controller.wf()
    }

    /// The controller answers from port 0x48 up; lower ports are not its own.
    open spec fn serves(&self, port: u8) -> bool {
        port >= 0x48
    }

    fn io_read(&mut self, port: u8) -> (r: u8)
        ensures
            port == 0xFC ==> r == wait_value(old(self)@) && final(self)@ == old(self)@,
            port == 0xFD ==> r == 0x00 && final(self)@ == old(self)@,
            port == 0xFF ==> r == 0x03 && final(self)@ == old(self)@,
            port != 0xFC && port != 0xFD && port != 0xFF ==> r == tc_io_in(
                old(self)@,
                tarbell_alias(port),
            ).0 && final(self)@ == tc_io_in(old(self)@, tarbell_alias(port)).1,
    {
        let tarbell_port = if 0xF8 <= port && port <= 0xFB {
            port - 0xB0
        } else if port == 0xFC {
            return self.controller.wait_port_value();
        } else if port == 0xFD {
            return 0x00;
        } else if port == 0xFF {
            return 0x03;
        } else {
            port
        };
        self.controller.io_in(tarbell_port)
    }

    fn io_write(&mut self, port: u8, value: u8)
        ensures
            port == 0xFC || port == 0xFD || port == 0xFF ==> final(self)@ == old(self)@,
            port != 0xFC && port != 0xFD && port != 0xFF ==> final(self)@ == tc_io_out(
                old(self)@,
                tarbell_alias(port),
                value,
            ),
    {
        let tarbell_port = if 0xF8 <= port && port <= 0xFB {
            port - 0xB0
        } else if port == 0xFC || port == 0xFD || port == 0xFF {
            return;
        } else {
            port
        };
        self.controller.io_out(tarbell_port, value);
    }

    fn owns_port(&self, port: u8) -> (r: bool)
        ensures
            r == ((0x48 <= port <= 0x4B) || (0xF8 <= port <= 0xFD) || port == 0xFF),
    {
        (0x48 <= port && port <= 0x4B) || (0xF8 <= port && port <= 0xFD) || port == 0xFF
    }

    fn name(&self) -> (r: &'static str)
        ensures
            r@ == "Tarbell"@,
    {
        "Tarbell"
    }
}

} // verus!
