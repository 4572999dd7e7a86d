//! Tarbell 1011 floppy controller card: the FD1771 on ports 0x48-0x4B (aliases 0xF8-0xFB).
use vstd::prelude::*;
use crate::chips::fd1771::{
    Fd1771, FdcView, S_DRQ, spec_read_register, spec_write_register, opt_model,
};
use crate::disk::{DiskImage, DiskView};

verus! {

/// FD1771 register offset (0-3) of a Tarbell port, if the port is a register port.
pub open spec fn spec_port_offset(port: u8) -> Option<u8> {
    if 0x48 <= port <= 0x4B {
        Some((port - 0x48) as u8)
    } else if 0xF8 <= port <= 0xFB {
        Some((port - 0xF8) as u8)
    } else {
        None
    }
}

/// Byte returned by a port read and the controller afterwards.
pub open spec fn spec_tarbell_read(m: FdcView, port: u8) -> (u8, FdcView) {
    match spec_port_offset(port) {
        Some(off) => spec_read_register(m, off),
        None => if port == 0xFC {
            (
                if m.status & S_DRQ != 0 {
                    0x80u8
                } else {
                    0x00u8
                },
                m,
            )
        } else if port == 0xFD {
            (0x00, m)
        } else if port == 0xFF {
            (0x03, m)
        } else {
            (0xFF, m)
        },
    }
}

/// The controller after a port write (register ports only).
pub open spec fn spec_tarbell_write(m: FdcView, port: u8, value: u8) -> FdcView {
    match spec_port_offset(port) {
        Some(off) => spec_write_register(m, off, value),
        None => m,
    }
}

/// Ports decoded by the card: 0x48-0x4B, 0xF8-0xFD and 0xFF.
pub open spec fn tarbell_port(port: u8) -> bool {
    (0x48 <= port <= 0x4B) || (0xF8 <= port <= 0xFD) || port == 0xFF
}

/// Tarbell 1011/1011B floppy controller card wrapping the FD1771.
pub struct TarbellCard {
    fdc: Fd1771,
}

impl View for TarbellCard {
    type V = FdcView;

    closed spec fn view(&self) -> FdcView {
        self.fdc@
    }
}

impl TarbellCard {
    /// The controller chip is well formed.
    pub closed spec fn wf(&self) -> bool {
        self.fdc.wf()
    }

    pub fn new() -> (r: Self)
        ensures
            r.wf(),
            r@ == crate::chips::fd1771::spec_power_on(),
    {
        Self { fdc: Fd1771::new() }
    }

    /// Place a disk image in drive 0-3.
    pub fn insert_disk(&mut self, drive: usize, disk: DiskImage) -> (r: Result<(), String>)
        requires
            old(self).wf(),
            disk.wf(),
        ensures
            final(self).wf(),
            r is Ok <==> drive <= 3,
            r is Ok ==> final(self)@ == crate::chips::fd1771::spec_set_drive(old(self)@, drive as int, Some(disk.model())),
            r is Err ==> final(self)@ == old(self)@,
            r matches Err(e) ==> e@ == "Drive number must be 0-3"@,
    {
        self.fdc.insert_disk(drive, disk)
    }

    /// Place a freshly formatted disk in drive 0-3.
    pub fn insert_blank_disk(&mut self, drive: usize) -> (r: Result<(), String>)
        requires
            old(self).wf(),
        ensures
            final(self).wf(),
            r is Ok <==> drive <= 3,
            r is Ok ==> final(self)@ == crate::chips::fd1771::spec_set_drive(
                old(self)@,
                drive as int,
                Some(
                    DiskView {
                        data: Seq::new(crate::disk::DISK_SIZE as nat, |i: int| 0xE5u8),
                        protected: false,
                        modified: true,
                    },
                ),
            ),
            r is Err ==> final(self)@ == old(self)@,
    {
        self.fdc.insert_blank_disk(drive)
    }

    pub fn get_disk(&self, drive: usize) -> (r: Option<&DiskImage>)
        requires
            self.wf(),
        ensures
            drive > 3 ==> r is None,
            drive <= 3 ==> opt_model(match r {
                Some(d) => Some(*d),
                None => None,
            }) == self@.drives[drive as int],
            r matches Some(d) ==> d.wf(),
    {
        self.fdc.get_disk(drive)
    }

    /// Mutable access to the disk of drive 0-3.
    pub fn get_disk_mut(&mut self, drive: usize) -> (r: Option<&mut DiskImage>)
        requires
            old(self).wf(),
        ensures
            drive > 3 ==> r is None && final(self)@ == old(self)@ && final(self).wf(),
            drive <= 3 ==> final(self).fdc_ref().same_except_drive(old(self).fdc_ref(), drive as int),
            drive <= 3 ==> old(self).fdc_ref().drive_image(drive as int) == (match r {
                Some(d) => Some(*d),
                None => None,
            }),
            drive <= 3 ==> final(self).fdc_ref().drive_image(drive as int) == (match r {
                Some(d) => Some(*final(d)),
                None => None,
            }),
            r matches Some(d) ==> d.wf(),
    {
        self.fdc.get_disk_mut(drive)
    }

    /// The controller chip.
    pub closed spec fn fdc_ref(&self) -> &Fd1771 {
        &self.fdc
    }

    pub fn fdc_mut(&mut self) -> (r: &mut Fd1771)
        ensures
            *r == *old(self).fdc_ref(),
            *final(self).fdc_ref() == *final(r),
            final(self)@ == final(r)@,
            old(self).wf() ==> r.wf(),
            final(self).wf() <==> final(r).wf(),
    {
        &mut self.fdc
    }

    pub fn fdc(&self) -> (r: &Fd1771)
        ensures
            *r == *self.fdc_ref(),
            r@ == self@,
            self.wf() ==> r.wf(),
    {
        &self.fdc
    }

    pub fn current_track(&self) -> (r: u8)
        ensures
            r == self@.track_reg,
    {
        self.fdc.track_register()
    }

    pub fn current_sector(&self) -> (r: u8)
        ensures
            r == self@.sector_reg,
    {
        self.fdc.sector_register()
    }

    pub fn has_disk(&self, drive: usize) -> (r: bool)
        requires
            self.wf(),
        ensures
            r == (drive < 4 && self@.drives[drive as int] is Some),
    {
        self.fdc.has_disk(drive)
    }

    /// Map a Tarbell port to an FD1771 register offset (0-3): 0x48-0x4B direct, 0xF8-0xFB alias.
    pub fn port_to_fd1771_offset(port: u8) -> (r: Option<u8>)
        ensures
            r == spec_port_offset(port),
    {
        if 0x48 <= port && port <= 0x4B {
            Some(port - 0x48)
        } else if 0xF8 <= port && port <= 0xFB {
            Some(port - 0xF8)
        } else {
            None
        }
    }

    /// Read a port: FD1771 registers, 0xFC = DRQ in bit 7, 0xFD = 0x00,
    /// 0xFF = 0x03, any other port 0xFF.
    pub fn io_read(&mut self, port: u8) -> (r: u8)
        requires
            old(self).wf(),
        ensures
            final(self).wf(),
            r == spec_tarbell_read(old(self)@, port).0,
            final(self)@ == spec_tarbell_read(old(self)@, port).1,
    {
        match Self::port_to_fd1771_offset(port) {
            Some(offset) => self.fdc.read_register(offset),
            // DRQ/wait status: bit 7 set = data byte ready, clear = transfer
            // complete. Boot ROMs test the sign bit (RAL/JM) after IN 0xFC.
            None => if port == 0xFC {
                if self.fdc.is_drq_active() {
                    0x80
                } else {
                    0x00
                }
            } else if port == 0xFD {
                0x00
            } else if port == 0xFF {
                0x03
            } else {
                0xFF
            },
        }
    }

    /// Write a port: FD1771 registers only; other ports are ignored.
    pub fn io_write(&mut self, port: u8, value: u8)
        requires
            old(self).wf(),
        ensures
            final(self).wf(),
            final(self)@ == spec_tarbell_write(old(self)@, port, value),
    {
        match Self::port_to_fd1771_offset(port) {
            Some(offset) => self.fdc.write_register(offset, value),
            None => {},
        }
    }

    pub fn owns_port(&self, port: u8) -> (r: bool)
        ensures
            r == tarbell_port(port),
    {
        (0x48 <= port && port <= 0x4B) || (0xF8 <= port && port <= 0xFD) || port == 0xFF
    }

    /// The card decodes no memory addresses.
    pub fn owns_address(&self, _addr: u16) -> (r: bool)
        ensures
            !r,
    {
        false
    }

    pub fn name(&self) -> (r: &'static str)
        ensures
            r@ == "Tarbell 1011"@,
    {
        "Tarbell 1011"
    }
}

impl Default for TarbellCard {
    fn default() -> (r: Self)
        ensures
            r.wf(),
    {
        Self::new()
    }
}

} // verus!
