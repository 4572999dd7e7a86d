//! Western Digital FD1771 floppy disk formatter/controller.
use vstd::prelude::*;
use vstd::string::StringExecFns;
use crate::disk::{DiskImage, DiskView, sector_valid, sector_bytes, with_sector};
use crate::dpb::SECTOR_SIZE;

verus! {

pub const TRACKS_PER_DISK: u8 = 77;

// Status register bits
pub const S_NOT_READY: u8 = 0x80;
pub const S_WRITE_PROTECT: u8 = 0x40;
pub const S_RNF: u8 = 0x40;
pub const S_HEAD_LOADED: u8 = 0x20;
pub const S_SEEK_ERROR: u8 = 0x10;
pub const S_LOST_DATA: u8 = 0x10;
pub const S_TRACK0: u8 = 0x04;
pub const S_DRQ: u8 = 0x02;
pub const S_BUSY: u8 = 0x01;

/// FD1771 internal state.
#[derive(Debug, Clone, Copy, PartialEq, Eq, Structural)]
pub enum FdcState {
    Idle,
    Seeking,
    Reading,
    ReadingData,
    Writing,
    WritingData,
    ReadingAddress,
    Complete,
}

/// Abstract state of the controller and its four drives.
pub struct FdcView {
    pub track_reg: u8,
    pub sector_reg: u8,
    pub data_reg: u8,
    pub status: u8,
    pub state: FdcState,
    pub current_command: u8,
    pub selected_drive: u8,
    pub drives: Seq<Option<DiskView>>,
    pub head_position: Seq<u8>,
    pub sector_buffer: Seq<u8>,
    pub buffer_pos: nat,
    pub step_direction_in: bool,
    pub step_update_track: bool,
    pub verify: bool,
    pub step_rate_ms: u16,
    pub head_loaded: bool,
}

/// Disk in the selected drive.
pub open spec fn current_disk(m: FdcView) -> Option<DiskView> {
    m.drives[m.selected_drive as int]
}

/// Status with NOT READY reflecting whether the selected drive holds a disk.
pub open spec fn ready_status(m: FdcView) -> u8 {
    if current_disk(m) is Some {
        m.status & !S_NOT_READY
    } else {
        m.status | S_NOT_READY
    }
}

/// Status with TRACK 0 reflecting the selected drive's head position.
pub open spec fn track0_status(status: u8, head: u8) -> u8 {
    if head == 0 {
        status | S_TRACK0
    } else {
        status & !S_TRACK0
    }
}

/// Step rate in milliseconds selected by command bits 1-0.
pub open spec fn step_rate_of(cmd: u8) -> u16 {
    if cmd & 0x03 < 2 {
        6
    } else if cmd & 0x03 == 2 {
        10
    } else {
        20
    }
}

/// Head after one step inward (clamped at track 76) or outward (clamped at 0).
pub open spec fn stepped(head: u8, inward: bool) -> u8 {
    if inward {
        if head < 76 {
            (head + 1) as u8
        } else {
            head
        }
    } else if head > 0 {
        (head - 1) as u8
    } else {
        head
    }
}

/// Effect of one STEP / STEP IN / STEP OUT in the given direction.
pub open spec fn spec_step(m: FdcView, inward: bool, update: bool) -> FdcView {
    let d = m.selected_drive as int;
    let h = stepped(m.head_position[d], inward);
    FdcView {
        step_direction_in: inward,
        step_update_track: update,
        head_position: m.head_position.update(d, h),
        track_reg: if update {
            h
        } else {
            m.track_reg
        },
        status: track0_status(m.status, h) & !S_BUSY,
        ..m
    }
}

/// Effect of a Type I command (RESTORE, SEEK, STEP, STEP IN, STEP OUT; bit 4 = update track).
pub open spec fn spec_type_i(m0: FdcView, cmd: u8) -> FdcView {
    let m = FdcView { verify: cmd & 0x04 != 0, step_rate_ms: step_rate_of(cmd), ..m0 };
    let d = m.selected_drive as int;
    let field = cmd & 0xF0;
    let update = cmd & 0x10 != 0;
    let m2 = if field == 0x00 {
        FdcView {
            head_position: m.head_position.update(d, 0),
            track_reg: 0,
            head_loaded: true,
            status: (if current_disk(m) is Some {
                (m.status & !S_NOT_READY | S_TRACK0) & !S_SEEK_ERROR
            } else {
                m.status | S_NOT_READY
            }) & !S_BUSY,
            ..m
        }
    } else if field == 0x10 {
        let target = m.data_reg;
        let hp = if target < 77 {
            m.head_position.update(d, target)
        } else {
            m.head_position
        };
        let s1 = if target < 77 {
            if current_disk(m) is Some {
                m.status & !S_NOT_READY & !S_SEEK_ERROR
            } else {
                m.status | S_NOT_READY
            }
        } else {
            m.status | S_SEEK_ERROR
        };
        FdcView {
            head_position: hp,
            track_reg: if target < 77 {
                target
            } else {
                m.track_reg
            },
            status: track0_status(s1 & !S_BUSY, hp[d]),
            ..m
        }
    } else if field == 0x20 || field == 0x30 {
        spec_step(m, m.step_direction_in, update)
    } else if field == 0x40 || field == 0x50 {
        spec_step(m, true, update)
    } else {
        spec_step(m, false, update)
    };
    FdcView {
        status: if m2.head_loaded {
            m2.status | S_HEAD_LOADED
        } else {
            m2.status & !S_HEAD_LOADED
        },
        ..m2
    }
}

/// Effect of a Type II command (READ SECTOR, WRITE SECTOR; bit 5 = write).
pub open spec fn spec_type_ii(m: FdcView, cmd: u8) -> FdcView {
    match current_disk(m) {
        None => FdcView { status: S_NOT_READY, state: FdcState::Idle, ..m },
        Some(disk) => if cmd & 0x20 != 0 {
            if disk.protected {
                FdcView { status: S_WRITE_PROTECT, state: FdcState::Idle, ..m }
            } else {
                FdcView {
                    state: FdcState::WritingData,
                    status: S_BUSY | S_DRQ,
                    sector_buffer: Seq::new(128, |i: int| 0xE5u8),
                    buffer_pos: 0,
                    ..m
                }
            }
        } else {
            let sector = if m.sector_reg == 0 {
                1u8
            } else {
                m.sector_reg
            };
            if sector_valid(m.track_reg, sector) {
                FdcView {
                    sector_buffer: sector_bytes(disk.data, m.track_reg, sector),
                    state: FdcState::ReadingData,
                    buffer_pos: 0,
                    status: S_BUSY | S_DRQ,
                    ..m
                }
            } else {
                FdcView { status: S_RNF, state: FdcState::Idle, ..m }
            }
        },
    }
}

/// Effect of a Type III command (READ ADDRESS, READ TRACK, WRITE TRACK).
pub open spec fn spec_type_iii(m: FdcView, cmd: u8) -> FdcView {
    if cmd & 0xF0 == 0xC0 {
        FdcView { data_reg: m.track_reg, status: m.status & !S_BUSY, ..m }
    } else {
        FdcView { status: m.status & !S_BUSY, ..m }
    }
}

/// Effect of FORCE INTERRUPT.
pub open spec fn spec_force_interrupt(m: FdcView) -> FdcView {
    FdcView { state: FdcState::Idle, status: m.status & !S_BUSY & !S_DRQ, ..m }
}

/// Effect of writing the command register. A busy controller ignores every
/// command but FORCE INTERRUPT.
pub open spec fn spec_write_command(m: FdcView, cmd: u8) -> FdcView {
    if m.status & S_BUSY != 0 && cmd & 0xF0 != 0xD0 {
        m
    } else {
        let m1 = FdcView { current_command: cmd, ..m };
        if cmd & 0x80 == 0 {
            spec_type_i(m1, cmd)
        } else if cmd & 0x40 == 0 {
            spec_type_ii(m1, cmd)
        } else if cmd & 0xF0 == 0xD0 {
            spec_force_interrupt(m1)
        } else {
            spec_type_iii(m1, cmd)
        }
    }
}

/// The disk after the sector buffer is written to it.
pub open spec fn disk_after_write(d: DiskView, track: u8, sector: u8, buf: Seq<u8>) -> DiskView {
    if !d.protected && sector_valid(track, sector) {
        DiskView { data: with_sector(d.data, track, sector, buf), modified: true, ..d }
    } else {
        d
    }
}

/// Effect of writing the full sector buffer to the selected disk.
pub open spec fn spec_commit_write(m: FdcView) -> FdcView {
    let sector = if m.sector_reg == 0 {
        1u8
    } else {
        m.sector_reg
    };
    let m1 = match current_disk(m) {
        Some(d) => FdcView {
            drives: m.drives.update(
                m.selected_drive as int,
                Some(disk_after_write(d, m.track_reg, sector, m.sector_buffer)),
            ),
            status: if !d.protected && sector_valid(m.track_reg, sector) {
                m.status & !S_WRITE_PROTECT
            } else {
                m.status | S_WRITE_PROTECT
            },
            ..m
        },
        None => FdcView { status: m.status | S_NOT_READY, ..m },
    };
    FdcView { state: FdcState::Complete, status: m1.status & !S_BUSY, ..m1 }
}

/// Byte returned by a data-register read, and the controller afterwards.
pub open spec fn spec_read_data(m: FdcView) -> (u8, FdcView) {
    if m.state == FdcState::ReadingData {
        if m.buffer_pos < 128 {
            let pos = m.buffer_pos + 1;
            let s = m.status & !S_DRQ;
            (
                m.sector_buffer[m.buffer_pos as int],
                FdcView {
                    buffer_pos: pos,
                    status: if pos >= 128 {
                        s & !S_BUSY
                    } else {
                        s
                    },
                    state: if pos >= 128 {
                        FdcState::Complete
                    } else {
                        m.state
                    },
                    ..m
                },
            )
        } else {
            (0xFF, FdcView { status: m.status | S_LOST_DATA, ..m })
        }
    } else {
        (m.data_reg, m)
    }
}

/// Effect of a data-register write.
pub open spec fn spec_write_data(m: FdcView, value: u8) -> FdcView {
    if m.state == FdcState::WritingData {
        if m.buffer_pos < 128 {
            let m1 = FdcView {
                sector_buffer: m.sector_buffer.update(m.buffer_pos as int, value),
                buffer_pos: m.buffer_pos + 1,
                status: m.status & !S_DRQ,
                ..m
            };
            if m1.buffer_pos >= 128 {
                spec_commit_write(m1)
            } else {
                m1
            }
        } else {
            FdcView { status: m.status | S_LOST_DATA, ..m }
        }
    } else {
        FdcView { data_reg: value, ..m }
    }
}

/// Byte returned by a register read (offset 0=status, 1=track, 2=sector, 3=data).
pub open spec fn spec_read_register(m: FdcView, offset: u8) -> (u8, FdcView) {
    if offset == 0 {
        (m.status, m)
    } else if offset == 1 {
        (m.track_reg, m)
    } else if offset == 2 {
        (m.sector_reg, m)
    } else if offset == 3 {
        spec_read_data(m)
    } else {
        (0xFF, m)
    }
}

/// Effect of a register write (offset 0=command, 1=track, 2=sector, 3=data).
pub open spec fn spec_write_register(m: FdcView, offset: u8, value: u8) -> FdcView {
    if offset == 0 {
        spec_write_command(m, value)
    } else if offset == 1 {
        FdcView { track_reg: value, ..m }
    } else if offset == 2 {
        FdcView { sector_reg: value, ..m }
    } else if offset == 3 {
        spec_write_data(m, value)
    } else {
        m
    }
}

/// Power-on state: no disks, drive 0 selected, sector register 1, NOT READY.
pub open spec fn spec_power_on() -> FdcView {
    FdcView {
        track_reg: 0,
        sector_reg: 1,
        data_reg: 0,
        status: S_NOT_READY,
        state: FdcState::Idle,
        current_command: 0,
        selected_drive: 0,
        drives: seq![None, None, None, None],
        head_position: seq![0u8, 0, 0, 0],
        sector_buffer: Seq::new(128, |i: int| 0u8),
        buffer_pos: 0,
        step_direction_in: true,
        step_update_track: false,
        verify: false,
        step_rate_ms: 6,
        head_loaded: false,
    }
}

/// The FD1771 floppy disk controller chip with four drives.
pub struct Fd1771 {
    track_reg: u8,
    sector_reg: u8,
    data_reg: u8,
    status_reg: u8,
    state: FdcState,
    current_command: u8,
    selected_drive: u8,
    drives: [Option<DiskImage>; 4],
    /// Physical head position per drive (separate from track register).
    head_position: [u8; 4],
    sector_buffer: [u8; SECTOR_SIZE],
    buffer_pos: usize,
    step_direction_in: bool,
    step_update_track: bool,
    verify: bool,
    step_rate_ms: u16,
    head_loaded: bool,
}

/// Abstract view of an optional disk.
pub open spec fn opt_model(d: Option<DiskImage>) -> Option<DiskView> {
    match d {
        Some(d) => Some(d.model()),
        None => None,
    }
}

impl View for Fd1771 {
    type V = FdcView;

    closed spec fn view(&self) -> FdcView {
        FdcView {
            track_reg: self.track_reg,
            sector_reg: self.sector_reg,
            data_reg: self.data_reg,
            status: self.status_reg,
            state: self.state,
            current_command: self.current_command,
            selected_drive: self.selected_drive,
            drives: Seq::new(4, |i: int| opt_model(self.drives@[i])),
            head_position: self.head_position@,
            sector_buffer: self.sector_buffer@,
            buffer_pos: self.buffer_pos as nat,
            step_direction_in: self.step_direction_in,
            step_update_track: self.step_update_track,
            verify: self.verify,
            step_rate_ms: self.step_rate_ms,
            head_loaded: self.head_loaded,
        }
    }
}

/// Well-formed abstract controller state.
pub open spec fn fdc_view_wf(m: FdcView) -> bool {
    &&& m.selected_drive < 4
    &&& m.buffer_pos <= 128
    &&& m.drives.len() == 4
    &&& m.head_position.len() == 4
    &&& m.sector_buffer.len() == 128
    &&& forall|i: int| 0 <= i < 4 ==> (#[trigger] m.drives[i] matches Some(d) ==> d.data.len()
        == crate::disk::DISK_SIZE)
}

impl Fd1771 {
    /// Register and drive invariants.
    pub closed spec fn wf(&self) -> bool {
        &&& self.selected_drive < 4
        &&& self.buffer_pos <= 128
        &&& forall|i: int| 0 <= i < 4 ==> (#[trigger] self.drives@[i] matches Some(d) ==> d.wf())
    }

    /// The abstract state of a well-formed controller is well formed.
    pub proof fn lemma_view_wf(&self)
        requires
            self.wf(),
        ensures
            fdc_view_wf(self@),
    {
        assert forall|i: int| 0 <= i < 4 implies (#[trigger] self@.drives[i] matches Some(d) ==> d.data.len()
            == crate::disk::DISK_SIZE) by {
            if let Some(d) = self.drives@[i] {
                assert(d.wf());
            }
        }
    }

    pub fn new() -> (r: Self)
        ensures
            r.wf(),
            r@ == spec_power_on(),
    {
        let r = Self {
            track_reg: 0,
            sector_reg: 1,
            data_reg: 0,
            status_reg: S_NOT_READY,
            state: FdcState::Idle,
            current_command: 0,
            selected_drive: 0,
            drives: [None, None, None, None],
            head_position: [0; 4],
            sector_buffer: [0; SECTOR_SIZE],
            buffer_pos: 0,
            step_direction_in: true,
            step_update_track: false,
            verify: false,
            step_rate_ms: 6,
            head_loaded: false,
        };
        assert(r@.drives =~= seq![None, None, None, None]);
        assert(r@.head_position =~= seq![0u8, 0, 0, 0]);
        assert(r@.sector_buffer =~= Seq::new(128, |i: int| 0u8));
        r
    }
}

/// Controller after a disk is placed in (or removed from) a drive.
pub open spec fn spec_set_drive(m: FdcView, drive: int, d: Option<DiskView>) -> FdcView {
    let m1 = FdcView { drives: m.drives.update(drive, d), ..m };
    FdcView { status: ready_status(m1), ..m1 }
}

/// Controller after ejecting the disk of a drive.
pub open spec fn spec_eject(m: FdcView, drive: int) -> FdcView {
    FdcView {
        drives: m.drives.update(drive, None),
        status: if drive == m.selected_drive {
            m.status | S_NOT_READY
        } else {
            m.status
        },
        ..m
    }
}

/// Controller after selecting a drive.
pub open spec fn spec_select(m: FdcView, drive: u8) -> FdcView {
    let m1 = FdcView { selected_drive: drive, ..m };
    FdcView { status: ready_status(m1), head_loaded: true, ..m1 }
}

impl Fd1771 {
    fn current_disk_present(&self) -> (r: bool)
        requires
            self.wf(),
        ensures
            r == (current_disk(self@) is Some),
    {
        self.drives[self.selected_drive as usize].is_some()
    }

    fn update_ready_status(&mut self)
        requires
            old(self).wf(),
        ensures
            final(self).wf(),
            final(self)@ == (FdcView { status: ready_status(old(self)@), ..old(self)@ }),
    {
        if self.current_disk_present() {
            self.status_reg = self.status_reg & !S_NOT_READY;
        } else {
            self.status_reg = self.status_reg | S_NOT_READY;
        }
    }

    /// Place a disk in drive 0-3.
    pub fn insert_disk(&mut self, drive: usize, disk: DiskImage) -> (r: Result<(), String>)
        requires
            old(self).wf(),
            disk.wf(),
        ensures
            final(self).wf(),
            r is Ok <==> drive <= 3,
            r is Ok ==> final(self)@ == spec_set_drive(old(self)@, drive as int, Some(disk.model())),
            r is Err ==> final(self)@ == old(self)@,
            r matches Err(e) ==> e@ == "Drive number must be 0-3"@,
    {
        if drive > 3 {
            return Err(String::from_str("Drive number must be 0-3"));
        }
        let ghost before = self@;
        self.drives[drive] = Some(disk);
        assert(self@.drives =~= before.drives.update(drive as int, Some(disk.model())));
        self.update_ready_status();
        Ok(())
    }

    /// Place a freshly formatted disk in drive 0-3.
    pub fn insert_blank_disk(&mut self, drive: usize) -> (r: Result<(), String>)
        requires
            old(self).wf(),
        ensures
            final(self).wf(),
            r is Ok <==> drive <= 3,
            r is Ok ==> final(self)@ == spec_set_drive(
                old(self)@,
                drive as int,
                Some(
                    DiskView {
                        data: Seq::new(crate::disk::DISK_SIZE as nat, |i: int| 0xE5u8),
                        protected: false,
                        modified: true,
                    },
                ),
            ),
            r is Err ==> final(self)@ == old(self)@,
    {
        let disk = DiskImage::new_formatted();
        self.insert_disk(drive, disk)
    }

    /// Remove and return the disk of drive 0-3.
    pub fn eject_disk(&mut self, drive: usize) -> (r: Option<DiskImage>)
        requires
            old(self).wf(),
        ensures
            final(self).wf(),
            drive > 3 ==> r is None && final(self)@ == old(self)@,
            drive <= 3 ==> opt_model(r) == old(self)@.drives[drive as int] && final(self)@
                == spec_eject(old(self)@, drive as int),
            r matches Some(d) ==> d.wf(),
    {
        if drive > 3 {
            return None;
        }
        let ghost before = self@;
        let disk = self.drives[drive].take();
        if drive == self.selected_drive as usize {
            self.status_reg = self.status_reg | S_NOT_READY;
        }
        assert(self@.drives =~= before.drives.update(drive as int, None));
        disk
    }

    pub fn get_disk(&self, drive: usize) -> (r: Option<&DiskImage>)
        requires
            self.wf(),
        ensures
            drive > 3 ==> r is None,
            drive <= 3 ==> opt_model(match r {
                Some(d) => Some(*d),
                None => None,
            }) == self@.drives[drive as int],
            r matches Some(d) ==> d.wf(),
    {
        if drive > 3 {
            return None;
        }
        self.drives[drive].as_ref()
    }

    /// Disk object held in a drive.
    pub closed spec fn drive_image(&self, drive: int) -> Option<DiskImage> {
        self.drives@[drive]
    }

    /// `self` equals `other` except for the disk object in `drive`.
    pub closed spec fn same_except_drive(&self, other: &Fd1771, drive: int) -> bool {
        &&& self.track_reg == other.track_reg
        &&& self.sector_reg == other.sector_reg
        &&& self.data_reg == other.data_reg
        &&& self.status_reg == other.status_reg
        &&& self.state == other.state
        &&& self.current_command == other.current_command
        &&& self.selected_drive == other.selected_drive
        &&& self.head_position == other.head_position
        &&& self.sector_buffer == other.sector_buffer
        &&& self.buffer_pos == other.buffer_pos
        &&& self.step_direction_in == other.step_direction_in
        &&& self.step_update_track == other.step_update_track
        &&& self.verify == other.verify
        &&& self.step_rate_ms == other.step_rate_ms
        &&& self.head_loaded == other.head_loaded
        &&& forall|i: int| 0 <= i < 4 && i != drive ==> #[trigger] self.drives@[i] == other.drives@[i]
    }

    /// A controller that differs only in one drive's disk has the replaced abstract state.
    pub proof fn lemma_replaced_disk(new: &Fd1771, old: &Fd1771, drive: int, d: Option<DiskImage>)
        requires
            0 <= drive < 4,
            old.wf(),
            new.same_except_drive(old, drive),
            new.drive_image(drive) == d,
        ensures
            new@ == (FdcView { drives: old@.drives.update(drive, opt_model(d)), ..old@ }),
            new.wf() <==> (d matches Some(x) ==> x.wf()),
    {
        assert(new@.drives =~= old@.drives.update(drive, opt_model(d)));
        if d matches Some(x) ==> x.wf() {
            assert forall|i: int| 0 <= i < 4 implies (#[trigger] new.drives@[i] matches Some(e) ==> e.wf()) by {
                if i != drive {
                    assert(new.drives@[i] == old.drives@[i]);
                }
            }
        }
    }

    fn drive_slot(&mut self, drive: usize) -> (r: &mut Option<DiskImage>)
        requires
            drive < 4,
        ensures
            *r == old(self).drive_image(drive as int),
            final(self).same_except_drive(old(self), drive as int),
            final(self).drive_image(drive as int) == *final(r),
    {
        &mut self.drives[drive]
    }

    /// Mutable access to the disk of drive 0-3.
    pub fn get_disk_mut(&mut self, drive: usize) -> (r: Option<&mut DiskImage>)
        requires
            old(self).wf(),
        ensures
            drive > 3 ==> r is None && final(self)@ == old(self)@ && final(self).wf(),
            drive <= 3 ==> final(self).same_except_drive(old(self), drive as int),
            drive <= 3 ==> old(self).drive_image(drive as int) == (match r {
                Some(d) => Some(*d),
                None => None,
            }),
            drive <= 3 ==> final(self).drive_image(drive as int) == (match r {
                Some(d) => Some(*final(d)),
                None => None,
            }),
            r matches Some(d) ==> d.wf(),
    {
        if drive > 3 {
            return None;
        }
        let slot = self.drive_slot(drive);
        slot.as_mut()
    }

    pub fn has_disk(&self, drive: usize) -> (r: bool)
        requires
            self.wf(),
        ensures
            r == (drive < 4 && self@.drives[drive as int] is Some),
    {
        drive < 4 && self.drives[drive].is_some()
    }

    /// Select drive 0-3; other numbers are ignored.
    pub fn select_drive(&mut self, drive: u8)
        requires
            old(self).wf(),
        ensures
            final(self).wf(),
            drive > 3 ==> final(self)@ == old(self)@,
            drive <= 3 ==> final(self)@ == spec_select(old(self)@, drive),
    {
        if drive > 3 {
            return;
        }
        self.selected_drive = drive;
        self.update_ready_status();
        self.head_loaded = true;
    }

    pub fn selected_drive(&self) -> (r: u8)
        ensures
            r == self@.selected_drive,
    {
        self.selected_drive
    }
}


impl Fd1771 {
    // Register I/O: offset 0=status/command, 1=track, 2=sector, 3=data

    /// Read a register: 0=status, 1=track, 2=sector, 3=data, other offsets 0xFF.
    pub fn read_register(&mut self, offset: u8) -> (r: u8)
        requires
            old(self).wf(),
        ensures
            final(self).wf(),
            r == spec_read_register(old(self)@, offset).0,
            final(self)@ == spec_read_register(old(self)@, offset).1,
    {
        if offset == 0 {
            self.status_reg
        } else if offset == 1 {
            self.track_reg
        } else if offset == 2 {
            self.sector_reg
        } else if offset == 3 {
            self.read_data_register()
        } else {
            0xFF
        }
    }

    /// Write a register: 0=command, 1=track, 2=sector, 3=data, other offsets ignored.
    pub fn write_register(&mut self, offset: u8, value: u8)
        requires
            old(self).wf(),
        ensures
            final(self).wf(),
            final(self)@ == spec_write_register(old(self)@, offset, value),
    {
        if offset == 0 {
            self.write_command(value);
        } else if offset == 1 {
            self.track_reg = value;
        } else if offset == 2 {
            self.sector_reg = value;
        } else if offset == 3 {
            self.write_data_register(value);
        }
    }

    fn read_data_register(&mut self) -> (r: u8)
        requires
            old(self).wf(),
        ensures
            final(self).wf(),
            r == spec_read_data(old(self)@).0,
            final(self)@ == spec_read_data(old(self)@).1,
    {
        if self.state == FdcState::ReadingData {
            if self.buffer_pos < SECTOR_SIZE {
                let value = self.sector_buffer[self.buffer_pos];
                self.buffer_pos = self.buffer_pos + 1;
                self.status_reg = self.status_reg & !S_DRQ;
                if self.buffer_pos >= SECTOR_SIZE {
                    self.state = FdcState::Complete;
                    self.status_reg = self.status_reg & !S_BUSY;
                }
                value
            } else {
                self.status_reg = self.status_reg | S_LOST_DATA;
                0xFF
            }
        } else {
            self.data_reg
        }
    }

    fn write_data_register(&mut self, value: u8)
        requires
            old(self).wf(),
        ensures
            final(self).wf(),
            final(self)@ == spec_write_data(old(self)@, value),
    {
        if self.state == FdcState::WritingData {
            if self.buffer_pos < SECTOR_SIZE {
                self.sector_buffer[self.buffer_pos] = value;
                self.buffer_pos = self.buffer_pos + 1;
                self.status_reg = self.status_reg & !S_DRQ;
                if self.buffer_pos >= SECTOR_SIZE {
                    self.commit_write();
                }
            } else {
                self.status_reg = self.status_reg | S_LOST_DATA;
            }
        } else {
            self.data_reg = value;
        }
    }

    // Command dispatch: Type I (bit7=0), Type II (10xxxxxx), Type III/IV (11xxxxxx)
    fn write_command(&mut self, command: u8)
        requires
            old(self).wf(),
        ensures
            final(self).wf(),
            final(self)@ == spec_write_command(old(self)@, command),
    {
        if self.status_reg & S_BUSY != 0 && command & 0xF0 != 0xD0 {
            return;
        }
        self.current_command = command;
        if command & 0x80 == 0 {
            self.execute_type_i(command);
        } else if command & 0x40 == 0 {
            self.execute_type_ii(command);
        } else if command & 0xF0 == 0xD0 {
            self.execute_force_interrupt();
        } else {
            self.execute_type_iii(command);
        }
    }

    fn update_track0_status(&mut self)
        requires
            old(self).wf(),
        ensures
            final(self).wf(),
            final(self)@ == (FdcView {
                status: track0_status(
                    old(self)@.status,
                    old(self)@.head_position[old(self)@.selected_drive as int],
                ),
                ..old(self)@
            }),
    {
        if self.head_position[self.selected_drive as usize] == 0 {
            self.status_reg = self.status_reg | S_TRACK0;
        } else {
            self.status_reg = self.status_reg & !S_TRACK0;
        }
    }

    fn step_head(&mut self, inward: bool, update: bool)
        requires
            old(self).wf(),
        ensures
            final(self).wf(),
            final(self)@ == spec_step(old(self)@, inward, update),
    {
        self.step_direction_in = inward;
        self.step_update_track = update;
        let drive = self.selected_drive as usize;
        let ghost h = stepped(old(self)@.head_position[drive as int], inward);
        if inward {
            if self.head_position[drive] < 76 {
                self.head_position[drive] = self.head_position[drive] + 1;
            }
        } else if self.head_position[drive] > 0 {
            self.head_position[drive] = self.head_position[drive] - 1;
        }
        assert(self.head_position@ =~= old(self)@.head_position.update(drive as int, h));
        if self.step_update_track {
            self.track_reg = self.head_position[drive];
        }
        self.update_track0_status();
        self.status_reg = self.status_reg & !S_BUSY;
    }

    // Type I: RESTORE, SEEK, STEP, STEP_IN, STEP_OUT (bit 7 = 0, bit 4 = update flag)
    fn execute_type_i(&mut self, command: u8)
        requires
            old(self).wf(),
            command & 0x80 == 0,
        ensures
            final(self).wf(),
            final(self)@ == spec_type_i(old(self)@, command),
    {
        self.verify = command & 0x04 != 0;
        let rate = command & 0x03;
        self.step_rate_ms = if rate < 2 {
            6
        } else if rate == 2 {
            10
        } else {
            20
        };
        let cmd_field = command & 0xF0;
        let update_track = command & 0x10 != 0;
        let drive = self.selected_drive as usize;
        if cmd_field == 0x00 {
            // RESTORE
            self.head_position[drive] = 0;
            self.track_reg = 0;
            self.head_loaded = true;
            if self.current_disk_present() {
                self.status_reg = self.status_reg & !S_NOT_READY;
                self.status_reg = self.status_reg | S_TRACK0;
                self.status_reg = self.status_reg & !S_SEEK_ERROR;
            } else {
                self.status_reg = self.status_reg | S_NOT_READY;
            }
            self.status_reg = self.status_reg & !S_BUSY;
        } else if cmd_field == 0x10 {
            // SEEK
            let target = self.data_reg;
            if target < TRACKS_PER_DISK {
                self.head_position[drive] = target;
                self.track_reg = target;
                if self.current_disk_present() {
                    self.status_reg = self.status_reg & !S_NOT_READY;
                    self.status_reg = self.status_reg & !S_SEEK_ERROR;
                } else {
                    self.status_reg = self.status_reg | S_NOT_READY;
                }
            } else {
                self.status_reg = self.status_reg | S_SEEK_ERROR;
            }
            self.status_reg = self.status_reg & !S_BUSY;
            self.update_track0_status();
        } else if cmd_field == 0x20 || cmd_field == 0x30 {
            // STEP (same direction as last)
            let inward = self.step_direction_in;
            self.step_head(inward, update_track);
        } else if cmd_field == 0x40 || cmd_field == 0x50 {
            // STEP IN
            self.step_head(true, update_track);
        } else {
            // STEP OUT
            self.step_head(false, update_track);
        }
        if self.head_loaded {
            self.status_reg = self.status_reg | S_HEAD_LOADED;
        } else {
            self.status_reg = self.status_reg & !S_HEAD_LOADED;
        }
    }

    // Type II: READ_SECTOR, WRITE_SECTOR
    fn execute_type_ii(&mut self, command: u8)
        requires
            old(self).wf(),
        ensures
            final(self).wf(),
            final(self)@ == spec_type_ii(old(self)@, command),
    {
        let is_write = command & 0x20 != 0;
        let drive = self.selected_drive as usize;
        proof {
            self.lemma_view_wf();
        }
        assert(current_disk(self@) == opt_model(self.drives@[drive as int]));
        match &self.drives[drive] {
            None => {
                self.status_reg = S_NOT_READY | S_BUSY;
                self.state = FdcState::Idle;
                self.status_reg = self.status_reg & !S_BUSY;
                assert((0x80u8 | 0x01u8) & !0x01u8 == 0x80u8) by (bit_vector);
            },
            Some(disk) => {
                if is_write {
                    if disk.is_write_protected() {
                        self.status_reg = S_WRITE_PROTECT;
                        self.state = FdcState::Idle;
                        return;
                    }
                    self.state = FdcState::WritingData;
                    self.status_reg = S_BUSY | S_DRQ;
                    self.sector_buffer = [0xE5; SECTOR_SIZE];
                    self.buffer_pos = 0;
                    assert(self.sector_buffer@ =~= Seq::new(128, |i: int| 0xE5u8));
                } else {
                    let track = self.track_reg;
                    let sector = self.sector_reg;
                    let physical_sector = if sector == 0 { 1 } else { sector };
                    assert(disk.wf());
                    match disk.read_sector(track, physical_sector) {
                        Ok(data) => {
                            self.sector_buffer = data;
                            self.state = FdcState::ReadingData;
                            self.buffer_pos = 0;
                            self.status_reg = S_BUSY | S_DRQ;
                        },
                        Err(_) => {
                            self.status_reg = S_RNF;
                            self.state = FdcState::Idle;
                        },
                    }
                }
            },
        }
    }

    // Type III: READ_ADDRESS, READ_TRACK, WRITE_TRACK
    fn execute_type_iii(&mut self, command: u8)
        requires
            old(self).wf(),
        ensures
            final(self).wf(),
            final(self)@ == spec_type_iii(old(self)@, command),
    {
        if command & 0xF0 == 0xC0 {
            // READ ADDRESS
            self.data_reg = self.track_reg;
        }
        self.status_reg = self.status_reg & !S_BUSY;
    }

    // Type IV: FORCE_INTERRUPT
    fn execute_force_interrupt(&mut self)
        requires
            old(self).wf(),
        ensures
            final(self).wf(),
            final(self)@ == spec_force_interrupt(old(self)@),
    {
        self.state = FdcState::Idle;
        self.status_reg = self.status_reg & !S_BUSY;
        self.status_reg = self.status_reg & !S_DRQ;
    }

    fn commit_write(&mut self)
        requires
            old(self).wf(),
        ensures
            final(self).wf(),
            final(self)@ == spec_commit_write(old(self)@),
    {
        let track = self.track_reg;
        let sector = if self.sector_reg == 0 { 1 } else { self.sector_reg };
        let data = self.sector_buffer;
        let drive = self.selected_drive as usize;
        let ghost before = *self;
        assert(current_disk(self@) == opt_model(self.drives@[drive as int]));
        let slot = self.drive_slot(drive);
        let ghost old_slot = *slot;
        let ghost mut new_img: Option<DiskImage> = None;
        let failed: Option<bool> = match slot {
            Some(disk) => {
                assert(disk.wf());
                let res = disk.write_sector(track, sector, &data);
                assert(disk.model() == disk_after_write(old_slot.unwrap().model(), track, sector, data@));
                proof {
                    new_img = Some(*disk);
                }
                let f = res.is_err();
                assert(f == !(!old_slot.unwrap().protected() && sector_valid(track, sector)));
                Some(f)
            },
            None => None,
        };
        assert(old_slot is None ==> self.drive_image(drive as int) is None);
        assert(old_slot matches Some(d) ==> failed == Some(!(!d.protected() && sector_valid(track, sector))));
        assert(old_slot is None ==> failed is None);
        assert(old_slot is Some ==> self.drive_image(drive as int) == new_img);
        proof {
            Fd1771::lemma_replaced_disk(self, &before, drive as int, self.drive_image(drive as int));
        }
        let ghost sec: u8 = if before@.sector_reg == 0 { 1u8 } else { before@.sector_reg };
        assert(sec == sector);
        assert(current_disk(before@) == opt_model(old_slot));
        assert(old_slot matches Some(d) ==> self@.drives == before@.drives.update(drive as int, Some(disk_after_write(d.model(), before@.track_reg, sec, before@.sector_buffer))));
        match failed {
            Some(true) => {
                self.status_reg = self.status_reg | S_WRITE_PROTECT;
            },
            Some(false) => {
                self.status_reg = self.status_reg & !S_WRITE_PROTECT;
            },
            None => {
                self.status_reg = self.status_reg | S_NOT_READY;
            },
        }
        self.state = FdcState::Complete;
        self.status_reg = self.status_reg & !S_BUSY;
        let ghost expected = spec_commit_write(before@);
        assert(self@.status == expected.status);
        assert(self@.drives == expected.drives);
        assert(self@.state == expected.state);
        assert(self@.sector_buffer == expected.sector_buffer);
        assert(self@.head_position == expected.head_position);
    }
}

impl Fd1771 {
    // Diagnostic accessors

    pub fn track_register(&self) -> (r: u8)
        ensures
            r == self@.track_reg,
    {
        self.track_reg
    }

    pub fn sector_register(&self) -> (r: u8)
        ensures
            r == self@.sector_reg,
    {
        self.sector_reg
    }

    /// The data register (last value written, or the READ ADDRESS result).
    pub fn data_register(&self) -> (r: u8)
        ensures
            r == self@.data_reg,
    {
        self.data_reg
    }

    /// The status register.
    pub fn status(&self) -> (r: u8)
        ensures
            r == self@.status,
    {
        self.status_reg
    }

    /// Head position of the selected drive.
    pub fn head_position(&self) -> (r: u8)
        requires
            self.wf(),
        ensures
            r == self@.head_position[self@.selected_drive as int],
    {
        self.head_position[self.selected_drive as usize]
    }

    /// Head position of drive 0-3 (0 for other drive numbers).
    pub fn head_position_of(&self, drive: usize) -> (r: u8)
        ensures
            drive < 4 ==> r == self@.head_position[drive as int],
            drive >= 4 ==> r == 0,
    {
        if drive < 4 {
            self.head_position[drive]
        } else {
            0
        }
    }

    pub fn fdc_state(&self) -> (r: FdcState)
        ensures
            r == self@.state,
    {
        self.state
    }

    /// DRQ is status bit 1.
    pub fn is_drq_active(&self) -> (r: bool)
        ensures
            r == (self@.status & S_DRQ != 0),
    {
        self.status_reg & S_DRQ != 0
    }

    /// BUSY is status bit 0.
    pub fn is_busy(&self) -> (r: bool)
        ensures
            r == (self@.status & S_BUSY != 0),
    {
        self.status_reg & S_BUSY != 0
    }

    pub fn sector_buffer(&self) -> (r: &[u8; SECTOR_SIZE])
        ensures
            r@ == self@.sector_buffer,
    {
        &self.sector_buffer
    }

    pub fn buffer_position(&self) -> (r: usize)
        ensures
            r == self@.buffer_pos,
    {
        self.buffer_pos
    }

    /// Direct head position set (testing only; real HW uses commands).
    pub fn set_head_position(&mut self, drive: usize, track: u8)
        requires
            old(self).wf(),
        ensures
            final(self).wf(),
            drive < 4 ==> final(self)@ == (FdcView {
                head_position: old(self)@.head_position.update(drive as int, track),
                ..old(self)@
            }),
            drive >= 4 ==> final(self)@ == old(self)@,
    {
        if drive < 4 {
            self.head_position[drive] = track;
        }
    }
}

impl Default for Fd1771 {
    fn default() -> (r: Self)
        ensures
            r.wf(),
            r@ == spec_power_on(),
    {
        Self::new()
    }
}


/// A busy controller ignores every command except FORCE INTERRUPT.
pub proof fn lemma_busy_ignores_commands(m: FdcView, cmd: u8)
    requires
        m.status & S_BUSY != 0,
        cmd & 0xF0 != 0xD0,
    ensures
        spec_write_command(m, cmd) == m,
        spec_write_register(m, 0, cmd) == m,
{
}

/// Status and command bit facts the command laws below rest on, for status
/// byte `x` and command byte `c`.
proof fn lemma_status_bits(x: u8, c: u8)
    by (bit_vector)
    ensures
        (((x | S_TRACK0) & !S_BUSY) | S_HEAD_LOADED) & S_TRACK0 != 0,
        (((x | S_TRACK0) & !S_BUSY) & !S_HEAD_LOADED) & S_TRACK0 != 0,
        (((x & !S_TRACK0) & !S_BUSY) | S_HEAD_LOADED) & S_TRACK0 == 0,
        (((x & !S_TRACK0) & !S_BUSY) & !S_HEAD_LOADED) & S_TRACK0 == 0,
        (((x | S_TRACK0) & !S_BUSY) | S_HEAD_LOADED) & S_BUSY == 0,
        (((x | S_TRACK0) & !S_BUSY) & !S_HEAD_LOADED) & S_BUSY == 0,
        (((x & !S_TRACK0) & !S_BUSY) | S_HEAD_LOADED) & S_BUSY == 0,
        (((x & !S_TRACK0) & !S_BUSY) & !S_HEAD_LOADED) & S_BUSY == 0,
        (((x & !S_BUSY) | S_TRACK0) | S_HEAD_LOADED) & S_TRACK0 != 0,
        (((x & !S_BUSY) | S_TRACK0) & !S_HEAD_LOADED) & S_TRACK0 != 0,
        (((x & !S_BUSY) & !S_TRACK0) | S_HEAD_LOADED) & S_TRACK0 == 0,
        (((x & !S_BUSY) & !S_TRACK0) & !S_HEAD_LOADED) & S_TRACK0 == 0,
        (((x & !S_BUSY) | S_TRACK0) | S_HEAD_LOADED) & S_BUSY == 0,
        (((x & !S_BUSY) | S_TRACK0) & !S_HEAD_LOADED) & S_BUSY == 0,
        (((x & !S_BUSY) & !S_TRACK0) | S_HEAD_LOADED) & S_BUSY == 0,
        (((x & !S_BUSY) & !S_TRACK0) & !S_HEAD_LOADED) & S_BUSY == 0,
        ((((x | S_SEEK_ERROR) & !S_BUSY) | S_TRACK0) | S_HEAD_LOADED) & S_SEEK_ERROR != 0,
        ((((x | S_SEEK_ERROR) & !S_BUSY) | S_TRACK0) & !S_HEAD_LOADED) & S_SEEK_ERROR != 0,
        ((((x | S_SEEK_ERROR) & !S_BUSY) & !S_TRACK0) | S_HEAD_LOADED) & S_SEEK_ERROR != 0,
        ((((x | S_SEEK_ERROR) & !S_BUSY) & !S_TRACK0) & !S_HEAD_LOADED) & S_SEEK_ERROR != 0,
        x & !S_BUSY & !S_DRQ & S_BUSY == 0,
        x & !S_BUSY & !S_DRQ & S_DRQ == 0,
        c & 0xF0 == 0xD0 ==> c & 0x80 != 0 && c & 0x40 != 0,
        c & 0xE0 == 0x40 ==> c & 0xF0 == 0x40 || c & 0xF0 == 0x50,
        c & 0xE0 == 0x60 ==> c & 0xF0 == 0x60 || c & 0xF0 == 0x70,
        c & 0xE0 == 0x20 ==> c & 0xF0 == 0x20 || c & 0xF0 == 0x30,
        c & 0xF0 == 0x10 ==> c & 0x80 == 0,
        (c & 0xE0 == 0x20 || c & 0xE0 == 0x40 || c & 0xE0 == 0x60) ==> c & 0x80 == 0,
        c & 0xC0 == 0x80 ==> c & 0x80 != 0 && c & 0x40 == 0,
        S_NOT_READY & S_NOT_READY != 0 && S_NOT_READY & S_BUSY == 0,
        S_WRITE_PROTECT & S_WRITE_PROTECT != 0 && S_WRITE_PROTECT & S_BUSY == 0 && S_WRITE_PROTECT & S_DRQ == 0,
        S_RNF & S_RNF != 0 && S_RNF & S_BUSY == 0 && S_RNF & S_DRQ == 0,
{
}

/// FORCE INTERRUPT (0xDx) is taken busy or not: it clears BUSY and DRQ and
/// leaves the controller idle.
pub proof fn lemma_force_interrupt_stops(m: FdcView, cmd: u8)
    requires
        cmd & 0xF0 == 0xD0,
    ensures
        spec_write_command(m, cmd).status & S_BUSY == 0,
        spec_write_command(m, cmd).status & S_DRQ == 0,
        spec_write_command(m, cmd).state == FdcState::Idle,
{
    lemma_status_bits(m.status, cmd);
}

/// SEEK (0x1x) written to the command register of an idle controller, to
/// the track in the data register: a track on the disk
/// (below 77) becomes the head position and the track register, and TRACK0
/// shows whether it is track 0; a track past the disk sets SEEK ERROR and
/// moves nothing. BUSY is clear afterwards, and the other drives' heads stay.
pub proof fn lemma_seek(m: FdcView, cmd: u8)
    requires
        fdc_view_wf(m),
        m.status & S_BUSY == 0,
        cmd & 0xF0 == 0x10,
    ensures
        ({
            let r = spec_write_register(m, 0, cmd);
            let d = m.selected_drive as int;
            let t = m.data_reg;
            &&& t < 77 ==> r.track_reg == t && r.head_position[d] == t && (r.status & S_TRACK0 != 0 <==> t == 0)
            &&& t >= 77 ==> r.status & S_SEEK_ERROR != 0 && r.track_reg == m.track_reg && r.head_position
                == m.head_position
            &&& r.status & S_BUSY == 0
            &&& forall|i: int| 0 <= i < 4 && i != d ==> r.head_position[i] == m.head_position[i]
        }),
{
    lemma_status_bits(m.status, cmd);
    lemma_status_bits(m.status & !S_NOT_READY & !S_SEEK_ERROR, cmd);
    lemma_status_bits(m.status | S_NOT_READY, cmd);
    lemma_status_bits(m.status | S_SEEK_ERROR, cmd);
}

/// STEP IN (0x4x, 0x5x) and STEP OUT (0x6x, 0x7x) written to an idle
/// controller: the head moves one track
/// in (not past 76) or out (not below 0), the track register follows when
/// bit 4 is set, TRACK0 shows whether the head is on track 0, BUSY is clear,
/// and the direction is kept for a later STEP.
pub proof fn lemma_step_in_out(m: FdcView, cmd: u8)
    requires
        fdc_view_wf(m),
        m.status & S_BUSY == 0,
        cmd & 0xE0 == 0x40 || cmd & 0xE0 == 0x60,
    ensures
        ({
            let r = spec_write_register(m, 0, cmd);
            let d = m.selected_drive as int;
            let inward = cmd & 0xE0 == 0x40;
            let h = stepped(m.head_position[d], inward);
            &&& r.head_position[d] == h
            &&& r.track_reg == (if cmd & 0x10 != 0 { h } else { m.track_reg })
            &&& (r.status & S_TRACK0 != 0 <==> h == 0)
            &&& r.status & S_BUSY == 0
            &&& r.step_direction_in == inward
            &&& forall|i: int| 0 <= i < 4 && i != d ==> r.head_position[i] == m.head_position[i]
        }),
{
    lemma_status_bits(m.status, cmd);
}

/// STEP (0x2x, 0x3x) written to an idle controller moves the head one
/// track in the direction of the last step.
pub proof fn lemma_step_repeats_direction(m: FdcView, cmd: u8)
    requires
        fdc_view_wf(m),
        m.status & S_BUSY == 0,
        cmd & 0xE0 == 0x20,
    ensures
        spec_write_register(m, 0, cmd).head_position[m.selected_drive as int] == stepped(
            m.head_position[m.selected_drive as int],
            m.step_direction_in,
        ),
        spec_write_register(m, 0, cmd).step_direction_in == m.step_direction_in,
{
    lemma_status_bits(m.status, cmd);
}

/// READ and WRITE SECTOR (0x8x-0xBx) written to an idle controller that
/// cannot go ahead end at once, idle
/// with BUSY and DRQ clear: NOT READY with no disk in the selected drive,
/// WRITE PROTECT for a write on a protected disk (the disk unchanged), and
/// RECORD NOT FOUND for a read of a sector not on the track.
pub proof fn lemma_sector_command_refused(m: FdcView, cmd: u8)
    requires
        m.status & S_BUSY == 0,
        cmd & 0xC0 == 0x80,
    ensures
        ({
            let r = spec_write_register(m, 0, cmd);
            &&& current_disk(m) is None ==> r.status & S_NOT_READY != 0 && r.status & S_BUSY == 0
                && r.state == FdcState::Idle
            &&& (current_disk(m) matches Some(disk) && cmd & 0x20 != 0 && disk.protected) ==> r.status
                & S_WRITE_PROTECT != 0 && r.status & S_BUSY == 0 && r.status & S_DRQ == 0 && r.state
                == FdcState::Idle && r.drives == m.drives
            &&& (current_disk(m) is Some && cmd & 0x20 == 0 && !sector_valid(
                m.track_reg,
                if m.sector_reg == 0 { 1u8 } else { m.sector_reg },
            )) ==> r.status & S_RNF != 0 && r.status & S_DRQ == 0 && r.status & S_BUSY == 0 && r.state
                == FdcState::Idle
        }),
{
    lemma_status_bits(m.status, cmd);
}

/// One step never moves a head past track 76 or below track 0.
pub proof fn lemma_stepped_on_disk(head: u8, inward: bool)
    requires
        head <= 76,
    ensures
        stepped(head, inward) <= 76,
        inward && head == 76 ==> stepped(head, inward) == 76,
        !inward && head == 0 ==> stepped(head, inward) == 0,
{
}

/// Register writes keep every head on the disk (tracks 0-76): RESTORE goes
/// to 0, SEEK only moves to tracks below 77, steps stop at the ends.
pub proof fn lemma_heads_stay_on_disk(m: FdcView, offset: u8, value: u8)
    requires
        fdc_view_wf(m),
        forall|i: int| 0 <= i < 4 ==> #[trigger] m.head_position[i] <= 76,
    ensures
        forall|i: int| 0 <= i < 4 ==> #[trigger] spec_write_register(m, offset, value).head_position[i] <= 76,
        spec_write_register(m, offset, value).head_position.len() == 4,
{
    let d = m.selected_drive as int;
    lemma_stepped_on_disk(m.head_position[d], true);
    lemma_stepped_on_disk(m.head_position[d], false);
    lemma_stepped_on_disk(m.head_position[d], m.step_direction_in);
}

/// The sector number a Type II command addresses (0 is taken as 1).
pub open spec fn addressed_sector(m: FdcView) -> u8 {
    if m.sector_reg == 0 {
        1u8
    } else {
        m.sector_reg
    }
}

/// What a read gives back of a write: when the last of the 128 data bytes of
/// a WRITE SECTOR to an unprotected disk arrives, the sector is written and
/// the controller is no longer busy; a READ SECTOR (0x80) of the same track
/// and sector then loads exactly the bytes written.
pub proof fn lemma_sector_write_then_read(m: FdcView, last: u8)
    requires
        fdc_view_wf(m),
        m.state == FdcState::WritingData,
        m.buffer_pos == 127,
        current_disk(m) matches Some(d) && !d.protected,
        sector_valid(m.track_reg, addressed_sector(m)),
    ensures
        ({
            let written = m.sector_buffer.update(127, last);
            let m1 = spec_write_data(m, last);
            let m2 = spec_write_command(m1, 0x80);
            &&& m1.status & S_BUSY == 0
            &&& m1.state == FdcState::Complete
            &&& m2.state == FdcState::ReadingData
            &&& m2.sector_buffer == written
            &&& m2.buffer_pos == 0
        }),
{
    let written = m.sector_buffer.update(127, last);
    let d = current_disk(m).unwrap();
    let dd = m.selected_drive as int;
    assert(m.drives[dd] matches Some(x) ==> x.data.len() == crate::disk::DISK_SIZE);
    crate::disk::lemma_read_after_write(d.data, m.track_reg, addressed_sector(m), written);
    let m1 = spec_write_data(m, last);
    assert(forall|x: u8| #[trigger] (x & !S_BUSY) & S_BUSY == 0) by (bit_vector);
    assert(m1.status & S_BUSY == 0);
    assert(m1.state == FdcState::Complete);
    assert(0x80u8 & 0x80 != 0 && 0x80u8 & 0x40 == 0 && 0x80u8 & 0x20 == 0) by (bit_vector);
    assert(current_disk(m1) == Some(disk_after_write(d, m.track_reg, addressed_sector(m), written)));
}

} // verus!
