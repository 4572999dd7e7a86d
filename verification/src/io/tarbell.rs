//! Tarbell 1011 floppy controller, register-level model at ports 0x48-0x4B.
//!
//! The controller supports 8-inch single-density floppy disks with the
//! IBM 3740 format: 77 tracks, 26 sectors per track, 128 bytes per sector.
use vstd::prelude::*;
use vstd::string::StringExecFns;
use crate::disk::{
    DiskImage, DiskView, sector_valid, sector_bytes, with_sector, logical_to_physical,
    spec_logical_to_physical, track_error_text, sector_error_text,
};
use crate::dpb::SECTOR_SIZE;
use crate::chips::fd1771::opt_model;
use crate::text::{push_decimal, dec_seq};

verus! {

/// I/O port base address for the Tarbell controller (standard default)
pub const TARBELL_PORT_BASE: u8 = 0x48;
/// Number of I/O ports the Tarbell controller occupies
pub const TARBELL_PORT_COUNT: usize = 4;

pub const CMD_RESTORE: u8 = 0x00;
pub const CMD_SEEK: u8 = 0x10;
pub const CMD_STEP: u8 = 0x20;
pub const CMD_STEP_IN: u8 = 0x40;
pub const CMD_STEP_OUT: u8 = 0x60;
pub const CMD_READ_SECTOR: u8 = 0x80;
pub const CMD_WRITE_SECTOR: u8 = 0xA0;
pub const CMD_READ_ADDRESS: u8 = 0xC0;
pub const CMD_READ_TRACK: u8 = 0xE0;
pub const CMD_WRITE_TRACK: u8 = 0xF0;
pub const CMD_FORCE_INTERRUPT: u8 = 0xD0;

pub const STATUS_NOT_READY: u8 = 0x80;
pub const STATUS_WRITE_PROTECT: u8 = 0x40;
pub const STATUS_BUSY: u8 = 0x01;

/// Abstract controller state.
pub struct TarbellView {
    pub drives: Seq<Option<DiskView>>,
    pub current_drive: u8,
    pub track: u8,
    pub sector: u8,
    pub data: u8,
    pub status: u8,
    pub buffer: Seq<u8>,
    pub pos: nat,
    pub reading: bool,
    pub writing: bool,
    pub error: bool,
}

/// Disk in the current drive.
pub open spec fn tc_disk(m: TarbellView) -> Option<DiskView> {
    m.drives[m.current_drive as int]
}

/// Status refreshed from the current drive: NOT READY and WRITE PROTECT.
pub open spec fn tc_status(m: TarbellView) -> u8 {
    match tc_disk(m) {
        Some(d) => if d.protected {
            m.status & !STATUS_NOT_READY | STATUS_WRITE_PROTECT
        } else {
            m.status & !STATUS_NOT_READY & !STATUS_WRITE_PROTECT
        },
        None => m.status | STATUS_NOT_READY,
    }
}

/// READ SECTOR at the track and sector registers.
pub open spec fn tc_read_sector(m: TarbellView) -> TarbellView {
    let s = m.status | STATUS_BUSY;
    match tc_disk(m) {
        Some(d) => if sector_valid(m.track, m.sector) {
            TarbellView {
                buffer: sector_bytes(d.data, m.track, m.sector),
                pos: 0,
                reading: true,
                error: false,
                status: s & !STATUS_BUSY,
                ..m
            }
        } else {
            TarbellView { error: true, status: s & !STATUS_BUSY, ..m }
        },
        None => TarbellView { error: true, status: s & !STATUS_BUSY, ..m },
    }
}

/// WRITE SECTOR: the buffer is cleared and filled through the data port;
/// refused without a disk or on a protected disk.
pub open spec fn tc_begin_write(m: TarbellView) -> TarbellView {
    let m1 = TarbellView {
        status: m.status | STATUS_BUSY,
        buffer: Seq::new(128, |i: int| 0u8),
        pos: 0,
        writing: true,
        ..m
    };
    match tc_disk(m) {
        None => TarbellView { error: true, writing: false, status: m1.status & !STATUS_BUSY, ..m1 },
        Some(d) => if d.protected {
            TarbellView {
                error: true,
                writing: false,
                status: (m1.status | STATUS_WRITE_PROTECT) & !STATUS_BUSY,
                ..m1
            }
        } else {
            m1
        },
    }
}

/// The disk after a sector write (unchanged when the write is refused).
pub open spec fn tc_disk_written(d: DiskView, track: u8, sector: u8, buf: Seq<u8>) -> DiskView {
    if !d.protected && sector_valid(track, sector) {
        DiskView { data: with_sector(d.data, track, sector, buf), modified: true, ..d }
    } else {
        d
    }
}

/// Write the full buffer to the current disk.
pub open spec fn tc_finish_write(m: TarbellView) -> TarbellView {
    let m1 = TarbellView { writing: false, ..m };
    let m2 = match tc_disk(m1) {
        Some(d) => TarbellView {
            drives: m1.drives.update(
                m1.current_drive as int,
                Some(tc_disk_written(d, m1.track, m1.sector, m1.buffer)),
            ),
            error: !(!d.protected && sector_valid(m1.track, m1.sector)),
            ..m1
        },
        None => TarbellView { error: true, ..m1 },
    };
    TarbellView { status: m2.status & !STATUS_BUSY, ..m2 }
}

/// Effect of a command byte (upper nibble selects the command).
pub open spec fn tc_command(m: TarbellView, command: u8) -> TarbellView {
    let t = command & 0xF0;
    if t == CMD_RESTORE {
        TarbellView { track: 0, status: m.status & !STATUS_BUSY, error: false, ..m }
    } else if t == CMD_SEEK {
        if m.data < 77 {
            TarbellView { track: m.data, status: m.status & !STATUS_BUSY, error: false, ..m }
        } else {
            TarbellView { error: true, status: m.status & !STATUS_BUSY, ..m }
        }
    } else if t == CMD_STEP || t == CMD_STEP_IN || t == CMD_STEP_OUT {
        let track = if t == CMD_STEP_IN {
            if m.track < 76 {
                (m.track + 1) as u8
            } else {
                m.track
            }
        } else if t == CMD_STEP_OUT && m.track > 0 {
            (m.track - 1) as u8
        } else {
            m.track
        };
        TarbellView { track, status: m.status & !STATUS_BUSY, ..m }
    } else if t == CMD_READ_SECTOR {
        tc_read_sector(m)
    } else if t == CMD_WRITE_SECTOR {
        tc_begin_write(m)
    } else if t == CMD_READ_ADDRESS {
        TarbellView { data: m.track, status: m.status & !STATUS_BUSY, ..m }
    } else if t == CMD_READ_TRACK || t == CMD_WRITE_TRACK {
        TarbellView { status: m.status & !STATUS_BUSY, ..m }
    } else if t == CMD_FORCE_INTERRUPT {
        TarbellView { reading: false, writing: false, status: m.status & !STATUS_BUSY, ..m }
    } else {
        m
    }
}

/// Byte returned by a port read (port 0x48 + offset) and the controller afterwards.
pub open spec fn tc_io_in(m: TarbellView, port: u8) -> (u8, TarbellView) {
    let offset = port - 0x48;
    if offset == 0 {
        let s = tc_status(m);
        (s, TarbellView { status: s, ..m })
    } else if offset == 1 {
        (m.track, m)
    } else if offset == 2 {
        (m.sector, m)
    } else if offset == 3 {
        if m.reading && m.pos < 128 {
            let pos = m.pos + 1;
            (
                m.buffer[m.pos as int],
                if pos >= 128 {
                    TarbellView { pos, reading: false, status: m.status & !STATUS_BUSY, ..m }
                } else {
                    TarbellView { pos, ..m }
                },
            )
        } else {
            (m.data, m)
        }
    } else {
        (0xFF, m)
    }
}

/// The controller after a port write (port 0x48 + offset).
pub open spec fn tc_io_out(m: TarbellView, port: u8, value: u8) -> TarbellView {
    let offset = port - 0x48;
    if offset == 0 {
        tc_command(m, value)
    } else if offset == 1 {
        TarbellView { track: value, ..m }
    } else if offset == 2 {
        TarbellView { sector: value, ..m }
    } else if offset == 3 {
        if m.writing && m.pos < 128 {
            let m1 = TarbellView { buffer: m.buffer.update(m.pos as int, value), pos: m.pos + 1, ..m };
            if m1.pos >= 128 {
                tc_finish_write(m1)
            } else {
                m1
            }
        } else {
            TarbellView { data: value, ..m }
        }
    } else {
        m
    }
}

/// Text of the error for an empty or invalid drive.
pub open spec fn drive_error_text(drive: u8) -> Seq<char> {
    "Drive "@ + dec_seq(drive as nat) + " not ready"@
}

/// The Tarbell floppy disk controller
pub struct TarbellController {
    drives: [Option<DiskImage>; 4],
    current_drive: u8,
    track_register: u8,
    sector_register: u8,
    data_register: u8,
    status: u8,
    sector_buffer: [u8; SECTOR_SIZE],
    buffer_position: usize,
    reading: bool,
    writing: bool,
    error: bool,
}

impl View for TarbellController {
    type V = TarbellView;

    closed spec fn view(&self) -> TarbellView {
        TarbellView {
            drives: Seq::new(4, |i: int| opt_model(self.drives@[i])),
            current_drive: self.current_drive,
            track: self.track_register,
            sector: self.sector_register,
            data: self.data_register,
            status: self.status,
            buffer: self.sector_buffer@,
            pos: self.buffer_position as nat,
            reading: self.reading,
            writing: self.writing,
            error: self.error,
        }
    }
}

impl TarbellController {
    /// Drive number in range, buffer position in range, disks well formed.
    pub closed spec fn wf(&self) -> bool {
        &&& self.current_drive < 4
        &&& self.buffer_position <= 128
        &&& forall|i: int| 0 <= i < 4 ==> (#[trigger] self.drives@[i] matches Some(d) ==> d.wf())
    }

    /// Create a new Tarbell controller with no disks inserted
    pub fn new() -> (r: Self)
        ensures
            r.wf(),
            r@.drives == seq![None::<DiskView>, None, None, None],
            r@.current_drive == 0 && r@.track == 0 && r@.sector == 1 && r@.data == 0,
            r@.status == STATUS_NOT_READY,
            r@.pos == 0 && !r@.reading && !r@.writing && !r@.error,
    {
        let r = Self {
            drives: [None, None, None, None],
            current_drive: 0,
            track_register: 0,
            sector_register: 1,
            data_register: 0,
            status: STATUS_NOT_READY,
            sector_buffer: [0; SECTOR_SIZE],
            buffer_position: 0,
            reading: false,
            writing: false,
            error: false,
        };
        assert(r@.drives =~= seq![None::<DiskView>, None, None, None]);
        r
    }

    /// Insert a DiskImage directly into a drive (0-3)
    pub fn insert_disk_image(&mut self, drive: usize, disk: DiskImage) -> (r: Result<(), String>)
        requires
            old(self).wf(),
            disk.wf(),
        ensures
            final(self).wf(),
            r is Ok <==> drive <= 3,
            r matches Err(e) ==> e@ == "Drive number must be 0-3"@ && final(self)@ == old(self)@,
            r is Ok ==> final(self)@ == (TarbellView {
                drives: old(self)@.drives.update(drive as int, Some(disk.model())),
                status: if drive == old(self)@.current_drive {
                    old(self)@.status & !STATUS_NOT_READY
                } else {
                    old(self)@.status
                },
                ..old(self)@
            }),
    {
        if drive > 3 {
            return Err(String::from_str("Drive number must be 0-3"));
        }
        let ghost before = self@;
        self.drives[drive] = Some(disk);
        if drive == self.current_drive as usize {
            self.status = self.status & !STATUS_NOT_READY;
        }
        assert(self@.drives =~= before.drives.update(drive as int, Some(disk.model())));
        Ok(())
    }

    /// Insert a blank formatted disk into a drive (0-3)
    pub fn insert_blank_disk(&mut self, drive: usize) -> (r: Result<(), String>)
        requires
            old(self).wf(),
        ensures
            final(self).wf(),
            r is Ok <==> drive <= 3,
            r is Err ==> final(self)@ == old(self)@,
            r is Ok ==> final(self)@ == (TarbellView {
                drives: old(self)@.drives.update(
                    drive as int,
                    Some(
                        DiskView {
                            data: Seq::new(crate::disk::DISK_SIZE as nat, |i: int| 0xE5u8),
                            protected: false,
                            modified: true,
                        },
                    ),
                ),
                status: if drive == old(self)@.current_drive {
                    old(self)@.status & !STATUS_NOT_READY
                } else {
                    old(self)@.status
                },
                ..old(self)@
            }),
    {
        if drive > 3 {
            return Err(String::from_str("Drive number must be 0-3"));
        }
        let disk = DiskImage::new_formatted();
        self.insert_disk_image(drive, disk)
    }

    /// Eject the disk from a drive
    pub fn eject_disk(&mut self, drive: usize) -> (r: Option<DiskImage>)
        requires
            old(self).wf(),
        ensures
            final(self).wf(),
            drive > 3 ==> r is None && final(self)@ == old(self)@,
            drive <= 3 ==> opt_model(r) == old(self)@.drives[drive as int] && final(self)@
                == (TarbellView {
                drives: old(self)@.drives.update(drive as int, None),
                status: if drive == old(self)@.current_drive {
                    old(self)@.status | STATUS_NOT_READY
                } else {
                    old(self)@.status
                },
                ..old(self)@
            }),
            r matches Some(d) ==> d.wf(),
    {
        if drive > 3 {
            return None;
        }
        let ghost before = self@;
        let disk = self.drives[drive].take();
        if drive == self.current_drive as usize {
            self.status = self.status | STATUS_NOT_READY;
        }
        assert(self@.drives =~= before.drives.update(drive as int, None));
        disk
    }

    /// Disk object held in a drive.
    pub closed spec fn drive_image(&self, drive: int) -> Option<DiskImage> {
        self.drives@[drive]
    }

    /// `self` equals `other` except for the disk object in `drive`.
    pub closed spec fn same_except_drive(&self, other: &TarbellController, drive: int) -> bool {
        &&& self.current_drive == other.current_drive
        &&& self.track_register == other.track_register
        &&& self.sector_register == other.sector_register
        &&& self.data_register == other.data_register
        &&& self.status == other.status
        &&& self.sector_buffer == other.sector_buffer
        &&& self.buffer_position == other.buffer_position
        &&& self.reading == other.reading
        &&& self.writing == other.writing
        &&& self.error == other.error
        &&& forall|i: int| 0 <= i < 4 && i != drive ==> #[trigger] self.drives@[i] == other.drives@[i]
    }

    /// A controller that differs only in one drive's disk has the replaced abstract state.
    pub proof fn lemma_replaced_disk(
        new: &TarbellController,
        old: &TarbellController,
        drive: int,
        d: Option<DiskImage>,
    )
        requires
            0 <= drive < 4,
            old.wf(),
            new.same_except_drive(old, drive),
            new.drive_image(drive) == d,
        ensures
            new@ == (TarbellView { drives: old@.drives.update(drive, opt_model(d)), ..old@ }),
            new.wf() <==> (d matches Some(x) ==> x.wf()),
    {
        assert(new@.drives =~= old@.drives.update(drive, opt_model(d)));
        if d matches Some(x) ==> x.wf() {
            assert forall|i: int| 0 <= i < 4 implies (#[trigger] new.drives@[i] matches Some(e) ==> e.wf()) by {
                if i != drive {
                    assert(new.drives@[i] == old.drives@[i]);
                }
            }
        }
    }

    fn drive_slot(&mut self, drive: usize) -> (r: &mut Option<DiskImage>)
        requires
            drive < 4,
        ensures
            *r == old(self).drive_image(drive as int),
            final(self).same_except_drive(old(self), drive as int),
            final(self).drive_image(drive as int) == *final(r),
    {
        &mut self.drives[drive]
    }

    /// Get a mutable reference to the disk in a drive
    pub fn get_disk_mut(&mut self, drive: usize) -> (r: Option<&mut DiskImage>)
        requires
            old(self).wf(),
        ensures
            drive > 3 ==> r is None && final(self)@ == old(self)@ && final(self).wf(),
            drive <= 3 ==> final(self).same_except_drive(old(self), drive as int),
            drive <= 3 ==> old(self).drive_image(drive as int) == (match r {
                Some(d) => Some(*d),
                None => None,
            }),
            drive <= 3 ==> final(self).drive_image(drive as int) == (match r {
                Some(d) => Some(*final(d)),
                None => None,
            }),
            r matches Some(d) ==> d.wf(),
    {
        if drive > 3 {
            return None;
        }
        let slot = self.drive_slot(drive);
        slot.as_mut()
    }

    /// Get a reference to the disk in a drive
    pub fn get_disk(&self, drive: usize) -> (r: Option<&DiskImage>)
        requires
            self.wf(),
        ensures
            drive > 3 ==> r is None,
            drive <= 3 ==> opt_model(match r {
                Some(d) => Some(*d),
                None => None,
            }) == self@.drives[drive as int],
            r matches Some(d) ==> d.wf(),
    {
        if drive > 3 {
            return None;
        }
        self.drives[drive].as_ref()
    }

    /// The track register.
    pub fn current_track(&self) -> (r: u8)
        ensures
            r == self@.track,
    {
        self.track_register
    }

    /// The sector register.
    pub fn current_sector(&self) -> (r: u8)
        ensures
            r == self@.sector,
    {
        self.sector_register
    }

    /// Get the base I/O port address
    pub fn port_base(&self) -> (r: u8)
        ensures
            r == TARBELL_PORT_BASE,
    {
        TARBELL_PORT_BASE
    }

    /// Check if this controller handles the given I/O port (0x48-0x4B).
    pub fn handles_port(&self, port: u8) -> (r: bool)
        ensures
            r == (0x48 <= port < 0x4C),
    {
        port >= TARBELL_PORT_BASE && port < TARBELL_PORT_BASE + TARBELL_PORT_COUNT as u8
    }

    fn update_status(&mut self)
        requires
            old(self).wf(),
        ensures
            final(self).wf(),
            final(self)@ == (TarbellView { status: tc_status(old(self)@), ..old(self)@ }),
    {
        let drive = self.current_drive as usize;
        let present_protected: Option<bool> = match &self.drives[drive] {
            Some(d) => Some(d.is_write_protected()),
            None => None,
        };
        match present_protected {
            Some(p) => {
                self.status = self.status & !STATUS_NOT_READY;
                if p {
                    self.status = self.status | STATUS_WRITE_PROTECT;
                } else {
                    self.status = self.status & !STATUS_WRITE_PROTECT;
                }
            },
            None => {
                self.status = self.status | STATUS_NOT_READY;
            },
        }
    }

    /// Read from an I/O port (0x48 status, 0x49 track, 0x4A sector, 0x4B data).
    pub fn io_in(&mut self, port: u8) -> (r: u8)
        requires
            old(self).wf(),
            port >= TARBELL_PORT_BASE,
        ensures
            final(self).wf(),
            r == tc_io_in(old(self)@, port).0,
            final(self)@ == tc_io_in(old(self)@, port).1,
    {
        let offset = port - TARBELL_PORT_BASE;
        if offset == 0 {
            self.update_status();
            self.status
        } else if offset == 1 {
            self.track_register
        } else if offset == 2 {
            self.sector_register
        } else if offset == 3 {
            if self.reading && self.buffer_position < SECTOR_SIZE {
                let value = self.sector_buffer[self.buffer_position];
                self.buffer_position = self.buffer_position + 1;
                if self.buffer_position >= SECTOR_SIZE {
                    self.reading = false;
                    self.status = self.status & !STATUS_BUSY;
                }
                value
            } else {
                self.data_register
            }
        } else {
            0xFF
        }
    }

    /// Write to an I/O port (0x48 command, 0x49 track, 0x4A sector, 0x4B data).
    pub fn io_out(&mut self, port: u8, value: u8)
        requires
            old(self).wf(),
            port >= TARBELL_PORT_BASE,
        ensures
            final(self).wf(),
            final(self)@ == tc_io_out(old(self)@, port, value),
    {
        let offset = port - TARBELL_PORT_BASE;
        if offset == 0 {
            self.execute_command(value);
        } else if offset == 1 {
            self.track_register = value;
        } else if offset == 2 {
            self.sector_register = value;
        } else if offset == 3 {
            if self.writing && self.buffer_position < SECTOR_SIZE {
                self.sector_buffer[self.buffer_position] = value;
                self.buffer_position = self.buffer_position + 1;
                if self.buffer_position >= SECTOR_SIZE {
                    self.finish_write_sector();
                }
            } else {
                self.data_register = value;
            }
        }
    }

    /// The WAIT/DRQ port value: bit 7 set while a sector transfer has bytes
    /// left to read or write, clear when the transfer is complete.
    pub fn wait_port_value(&self) -> (r: u8)
        ensures
            r == (if (self@.reading && self@.pos < 128) || (self@.writing && self@.pos < 128) {
                0x80u8
            } else {
                0x00u8
            }),
    {
        if self.reading && self.buffer_position < SECTOR_SIZE {
            0x80
        } else if self.writing && self.buffer_position < SECTOR_SIZE {
            0x80
        } else {
            0x00
        }
    }

    fn execute_command(&mut self, command: u8)
        requires
            old(self).wf(),
        ensures
            final(self).wf(),
            final(self)@ == tc_command(old(self)@, command),
    {
        let cmd_type = command & 0xF0;
        if cmd_type == CMD_RESTORE {
            self.track_register = 0;
            self.status = self.status & !STATUS_BUSY;
            self.error = false;
        } else if cmd_type == CMD_SEEK {
            let target_track = self.data_register;
            if target_track < 77 {
                self.track_register = target_track;
                self.status = self.status & !STATUS_BUSY;
                self.error = false;
            } else {
                self.error = true;
                self.status = self.status & !STATUS_BUSY;
            }
        } else if cmd_type == CMD_STEP || cmd_type == CMD_STEP_IN || cmd_type == CMD_STEP_OUT {
            if cmd_type == CMD_STEP_IN {
                if self.track_register < 76 {
                    self.track_register = self.track_register + 1;
                }
            } else if cmd_type == CMD_STEP_OUT && self.track_register > 0 {
                self.track_register = self.track_register - 1;
            }
            self.status = self.status & !STATUS_BUSY;
        } else if cmd_type == CMD_READ_SECTOR {
            self.read_sector();
        } else if cmd_type == CMD_WRITE_SECTOR {
            self.begin_write_sector();
        } else if cmd_type == CMD_READ_ADDRESS {
            self.data_register = self.track_register;
            self.status = self.status & !STATUS_BUSY;
        } else if cmd_type == CMD_READ_TRACK || cmd_type == CMD_WRITE_TRACK {
            self.status = self.status & !STATUS_BUSY;
        } else if cmd_type == CMD_FORCE_INTERRUPT {
            self.reading = false;
            self.writing = false;
            self.status = self.status & !STATUS_BUSY;
        }
    }

    fn read_sector(&mut self)
        requires
            old(self).wf(),
        ensures
            final(self).wf(),
            final(self)@ == tc_read_sector(old(self)@),
    {
        self.status = self.status | STATUS_BUSY;
        let drive = self.current_drive as usize;
        let result: Option<Result<[u8; SECTOR_SIZE], String>> = match &self.drives[drive] {
            Some(disk) => Some(disk.read_sector(self.track_register, self.sector_register)),
            None => None,
        };
        match result {
            Some(Ok(sector_data)) => {
                self.sector_buffer = sector_data;
                self.buffer_position = 0;
                self.reading = true;
                self.error = false;
                self.status = self.status & !STATUS_BUSY;
            },
            _ => {
                self.error = true;
                self.status = self.status & !STATUS_BUSY;
            },
        }
    }

    fn begin_write_sector(&mut self)
        requires
            old(self).wf(),
        ensures
            final(self).wf(),
            final(self)@ == tc_begin_write(old(self)@),
    {
        self.status = self.status | STATUS_BUSY;
        self.sector_buffer = [0; SECTOR_SIZE];
        self.buffer_position = 0;
        self.writing = true;
        assert(self.sector_buffer@ =~= Seq::new(128, |i: int| 0u8));
        let drive = self.current_drive as usize;
        let present_protected: Option<bool> = match &self.drives[drive] {
            Some(d) => Some(d.is_write_protected()),
            None => None,
        };
        match present_protected {
            None => {
                self.error = true;
                self.writing = false;
                self.status = self.status & !STATUS_BUSY;
            },
            Some(true) => {
                self.status = self.status | STATUS_WRITE_PROTECT;
                self.error = true;
                self.writing = false;
                self.status = self.status & !STATUS_BUSY;
            },
            Some(false) => {},
        }
    }

    fn finish_write_sector(&mut self)
        requires
            old(self).wf(),
        ensures
            final(self).wf(),
            final(self)@ == tc_finish_write(old(self)@),
    {
        self.writing = false;
        let track = self.track_register;
        let sector = self.sector_register;
        let data = self.sector_buffer;
        let drive = self.current_drive as usize;
        let ghost before = *self;
        let slot = self.drive_slot(drive);
        let ghost old_slot = *slot;
        let ghost mut new_img: Option<DiskImage> = None;
        let failed: Option<bool> = match slot {
            Some(disk) => {
                let res = disk.write_sector(track, sector, &data);
                assert(disk.model() == tc_disk_written(old_slot.unwrap().model(), track, sector, data@));
                proof {
                    new_img = Some(*disk);
                }
                let f = res.is_err();
                assert(f == !(!old_slot.unwrap().protected() && sector_valid(track, sector)));
                Some(f)
            },
            None => None,
        };
        assert(old_slot is None ==> self.drive_image(drive as int) is None);
        assert(old_slot is Some ==> self.drive_image(drive as int) == new_img);
        proof {
            TarbellController::lemma_replaced_disk(self, &before, drive as int, self.drive_image(drive as int));
        }
        match failed {
            Some(f) => {
                self.error = f;
            },
            None => {
                self.error = true;
            },
        }
        self.status = self.status & !STATUS_BUSY;
        let ghost expected = tc_finish_write(old(self)@);
        assert(self@.drives == expected.drives);
        assert(self@.status == expected.status);
        assert(self@.error == expected.error);
    }

    /// Read a sector using CP/M logical sector addressing (6:1 interleave).
    pub fn read_logical_sector(&mut self, drive: u8, track: u8, logical_sector: u8) -> (r: Result<
        [u8; SECTOR_SIZE],
        String,
    >)
        requires
            old(self).wf(),
            drive <= 3 && old(self)@.drives[drive as int] is Some ==> logical_sector < 255,
        ensures
            *final(self) == *old(self),
            ({
                let p = spec_logical_to_physical(logical_sector) as u8;
                if drive > 3 || old(self)@.drives[drive as int] is None {
                    r matches Err(e) && e@ == drive_error_text(drive)
                } else {
                    let d = old(self)@.drives[drive as int].unwrap();
                    &&& (r is Ok <==> sector_valid(track, p))
                    &&& (r matches Ok(buf) ==> buf@ == sector_bytes(d.data, track, p))
                    &&& (r matches Err(e) ==> e@ == (if track >= 77 {
                        track_error_text(track)
                    } else {
                        sector_error_text(p)
                    }))
                }
            }),
    {
        if drive > 3 || self.drives[drive as usize].is_none() {
            return Err(drive_error(drive));
        }
        let physical = logical_to_physical(logical_sector);
        match &self.drives[drive as usize] {
            Some(d) => d.read_sector(track, physical),
            None => Err(drive_error(drive)),
        }
    }

    /// Write a sector using CP/M logical sector addressing (6:1 interleave).
    pub fn write_logical_sector(
        &mut self,
        drive: u8,
        track: u8,
        logical_sector: u8,
        data: &[u8; SECTOR_SIZE],
    ) -> (r: Result<(), String>)
        requires
            old(self).wf(),
            drive <= 3 && old(self)@.drives[drive as int] is Some ==> logical_sector < 255,
        ensures
            final(self).wf(),
            ({
                let p = spec_logical_to_physical(logical_sector) as u8;
                if drive > 3 || old(self)@.drives[drive as int] is None {
                    &&& r matches Err(e) && e@ == drive_error_text(drive)
                    &&& final(self)@ == old(self)@
                } else {
                    let d = old(self)@.drives[drive as int].unwrap();
                    &&& (r is Ok <==> !d.protected && sector_valid(track, p))
                    &&& final(self)@ == (TarbellView {
                        drives: old(self)@.drives.update(
                            drive as int,
                            Some(tc_disk_written(d, track, p, data@)),
                        ),
                        ..old(self)@
                    })
                }
            }),
    {
        if drive > 3 || self.drives[drive as usize].is_none() {
            return Err(drive_error(drive));
        }
        let physical = logical_to_physical(logical_sector);
        let ghost before = *self;
        let slot = self.drive_slot(drive as usize);
        let ghost old_slot = *slot;
        let ghost mut new_img: Option<DiskImage> = None;
        let r = match slot {
            Some(disk) => {
                let res = disk.write_sector(track, physical, data);
                assert(disk.model() == tc_disk_written(old_slot.unwrap().model(), track, physical, data@));
                proof {
                    new_img = Some(*disk);
                }
                res
            },
            None => Err(drive_error(drive)),
        };
        assert(self.drive_image(drive as int) == new_img);
        proof {
            TarbellController::lemma_replaced_disk(self, &before, drive as int, self.drive_image(drive as int));
        }
        r
    }

    /// Get the number of tracks per disk
    pub fn tracks_per_disk(&self) -> (r: u8)
        ensures
            r == 77,
    {
        77
    }

    /// Get the number of sectors per track
    pub fn sectors_per_track(&self) -> (r: u8)
        ensures
            r == 26,
    {
        26
    }

    /// Get the number of bytes per sector
    pub fn bytes_per_sector(&self) -> (r: usize)
        ensures
            r == SECTOR_SIZE,
    {
        SECTOR_SIZE
    }

    /// Check if a drive has a disk inserted
    pub fn has_disk(&self, drive: usize) -> (r: bool)
        requires
            self.wf(),
        ensures
            r == (drive < 4 && self@.drives[drive as int] is Some),
    {
        drive < 4 && self.drives[drive].is_some()
    }
}

fn drive_error(drive: u8) -> (e: String)
    ensures
        e@ == drive_error_text(drive),
{
    let mut e = String::from_str("Drive ");
    push_decimal(&mut e, drive as u64);
    e.append(" not ready");
    e
}

impl Default for TarbellController {
    fn default() -> (r: Self)
        ensures
            r.wf(),
    {
        Self::new()
    }
}


/// Logical sector I/O reads back what it wrote: after a logical write of
/// `data` to an unprotected disk, the logical sector holds `data`, and every
/// other logical sector of the disk, on any track, is not disturbed.
pub proof fn lemma_logical_write_then_read(
    d: DiskView,
    track: u8,
    logical: u8,
    data: Seq<u8>,
    other_track: u8,
    other: u8,
)
    requires
        !d.protected,
        d.data.len() == crate::disk::DISK_SIZE,
        data.len() == 128,
        track < 77,
        logical < 26,
        other_track < 77,
        other < 26,
    ensures
        ({
            let p = spec_logical_to_physical(logical) as u8;
            let q = spec_logical_to_physical(other) as u8;
            let w = tc_disk_written(d, track, p, data);
            &&& sector_valid(track, p)
            &&& sector_bytes(w.data, track, p) == data
            &&& (other_track != track || other != logical) ==> sector_bytes(w.data, other_track, q)
                == sector_bytes(d.data, other_track, q)
        }),
{
    crate::dpb::lemma_skew_is_permutation();
    let p = spec_logical_to_physical(logical) as u8;
    let q = spec_logical_to_physical(other) as u8;
    assert(1 <= crate::dpb::skew_seq()[logical as int] <= 26);
    assert(1 <= crate::dpb::skew_seq()[other as int] <= 26);
    crate::disk::lemma_read_after_write(d.data, track, p, data);
    if other_track != track || other != logical {
        if other_track == track {
            assert(crate::dpb::skew_seq()[logical as int] != crate::dpb::skew_seq()[other as int]);
        }
        assert(crate::disk::sector_offset(track, p) != crate::disk::sector_offset(other_track, q));
        crate::disk::lemma_write_preserves_other_sectors(d.data, track, p, data, other_track, q);
    }
}

/// A logical write through the controller reads back: after
/// `write_logical_sector` puts `data` at (`drive`, `track`, `logical`) on an
/// unprotected disk, that sector holds `data`, every other logical sector of
/// the disk holds what it held, and every other drive is as it was.
pub proof fn lemma_controller_write_then_read(
    v: TarbellView,
    drive: u8,
    track: u8,
    logical: u8,
    data: Seq<u8>,
    drive2: u8,
    track2: u8,
    logical2: u8,
)
    requires
        drive <= 3,
        drive2 <= 3,
        v.drives.len() == 4,
        v.drives[drive as int] matches Some(d) && !d.protected && d.data.len() == crate::disk::DISK_SIZE,
        data.len() == 128,
        track < 77,
        logical < 26,
        track2 < 77,
        logical2 < 26,
    ensures
        ({
            let d = v.drives[drive as int].unwrap();
            let p = spec_logical_to_physical(logical) as u8;
            let q = spec_logical_to_physical(logical2) as u8;
            let w = v.drives.update(drive as int, Some(tc_disk_written(d, track, p, data)));
            &&& sector_valid(track, p)
            &&& sector_bytes(w[drive as int].unwrap().data, track, p) == data
            &&& (track2 != track || logical2 != logical) ==> sector_bytes(w[drive as int].unwrap().data, track2, q)
                == sector_bytes(d.data, track2, q)
            &&& drive2 != drive ==> w[drive2 as int] == v.drives[drive2 as int]
        }),
{
    let d = v.drives[drive as int].unwrap();
    lemma_logical_write_then_read(d, track, logical, data, track2, logical2);
}

/// Head positioning through the command port (0x48), with the command read
/// as its upper hex digit `command / 16`: RESTORE (0) sets the track register
/// to 0; SEEK (1) moves it to the data register when that names one of the
/// 77 tracks and otherwise flags an error and leaves it; STEP (2) leaves it;
/// STEP IN (4) moves from t to t + 1 below the last track 76; STEP OUT (6)
/// moves from t to t - 1 above track 0; READ ADDRESS (0xC) copies it to the
/// data register. What the track port (0x49) then reads is the new track.
pub proof fn lemma_head_positioning_commands(m: TarbellView, command: u8)
    ensures
        ({
            let r = tc_io_out(m, 0x48, command);
            let t = m.track;
            &&& tc_io_in(r, 0x49).0 == r.track
            &&& command / 16 == 0 ==> r.track == 0 && !r.error
            &&& command / 16 == 1 && m.data < 77 ==> r.track == m.data && !r.error
            &&& command / 16 == 1 && m.data >= 77 ==> r.track == t && r.error
            &&& command / 16 == 2 ==> r.track == t
            &&& command / 16 == 4 && t < 76 ==> r.track == t + 1
            &&& command / 16 == 4 && t >= 76 ==> r.track == t
            &&& command / 16 == 6 && t > 0 ==> r.track == t - 1
            &&& command / 16 == 6 && t == 0 ==> r.track == 0
            &&& command / 16 == 12 ==> r.track == t && r.data == t
        }),
{
    assert((command & 0xF0) == (command / 16) * 16) by (bit_vector);
}

/// The track register reads back what was written to it: a byte written to
/// port 0x49 is what a read of port 0x49 returns, and the read changes nothing.
pub proof fn lemma_track_register_round_trip(m: TarbellView, value: u8)
    ensures
        tc_io_in(tc_io_out(m, 0x49, value), 0x49) == (value, tc_io_out(m, 0x49, value)),
{
}

} // verus!
