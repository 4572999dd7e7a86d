//! S-100 backplane: memory card, SIO-2 serial card and Tarbell floppy card.
use vstd::prelude::*;
use crate::cards::{MemoryCard, SerialCard, TarbellCard};
use crate::cards::serial::{SerialView, spec_io_read, spec_io_write};
use crate::cards::tarbell::{spec_tarbell_read, spec_tarbell_write};
use crate::chips::fd1771::FdcView;

verus! {

/// Abstract bus state.
pub struct BusView {
    pub ram: Seq<u8>,
    pub serial: SerialView,
    pub tarbell: FdcView,
}

/// Ports routed to the serial card.
pub open spec fn is_serial_port(port: u8) -> bool {
    port == 0x00 || port == 0x7B || port == 0x01 || port == 0x79 || port == 0x02 || port == 0x03
}

/// Ports routed to the Tarbell card.
pub open spec fn is_tarbell_port(port: u8) -> bool {
    (0x48 <= port <= 0x4B) || 0xF8 <= port
}

/// Byte returned by an I/O read and the bus afterwards; unclaimed ports float (0xFF).
pub open spec fn spec_bus_io_in(b: BusView, port: u8) -> (u8, BusView) {
    if is_serial_port(port) {
        let (v, s) = spec_io_read(b.serial, port);
        (v, BusView { serial: s, ..b })
    } else if is_tarbell_port(port) {
        let (v, t) = spec_tarbell_read(b.tarbell, port);
        (v, BusView { tarbell: t, ..b })
    } else {
        (0xFF, b)
    }
}

/// The bus after an I/O write; writes to unclaimed ports are ignored.
pub open spec fn spec_bus_io_out(b: BusView, port: u8, value: u8) -> BusView {
    if is_serial_port(port) {
        BusView { serial: spec_io_write(b.serial, port, value), ..b }
    } else if is_tarbell_port(port) {
        BusView { tarbell: spec_tarbell_write(b.tarbell, port, value), ..b }
    } else {
        b
    }
}

/// Memory after writing `data` byte by byte from `start`, wrapping at 0xFFFF.
pub open spec fn spec_load(ram: Seq<u8>, start: u16, data: Seq<u8>) -> Seq<u8>
    decreases data.len(),
{
    if data.len() == 0 {
        ram
    } else {
        spec_load(ram, start, data.drop_last()).update(
            (start as int + data.len() - 1) % 65536,
            data.last(),
        )
    }
}

/// S-100 backplane: MemoryCard + SerialCard + TarbellCard, no dynamic dispatch.
pub struct ImsaiBus {
    pub memory: MemoryCard,
    serial: SerialCard,
    tarbell: TarbellCard,
}

impl View for ImsaiBus {
    type V = BusView;

    closed spec fn view(&self) -> BusView {
        BusView { ram: self.memory.ram@, serial: self.serial@, tarbell: self.tarbell@ }
    }
}

impl ImsaiBus {
    /// Both I/O cards are well formed.
    pub closed spec fn wf(&self) -> bool {
        self.serial.wf() && self.tarbell.wf()
    }

    /// Memory always spans the full 16-bit address space.
    pub proof fn lemma_ram_len(&self)
        ensures
            self@.ram.len() == 65536,
    {
    }

    /// The serial card.
    pub closed spec fn serial_card(&self) -> SerialCard {
        self.serial
    }

    /// The Tarbell card.
    pub closed spec fn tarbell_card(&self) -> TarbellCard {
        self.tarbell
    }

    pub fn new() -> (r: Self)
        ensures
            r.wf(),
            r@.ram == Seq::new(65536, |i: int| 0xFFu8),
            r@.tarbell == crate::chips::fd1771::spec_power_on(),
    {
        Self { memory: MemoryCard::new(), serial: SerialCard::new(), tarbell: TarbellCard::new() }
    }

    /// Copy `data` into memory from `start`, wrapping past 0xFFFF.
    pub fn load(&mut self, start: u16, data: &[u8])
        requires
            old(self).wf(),
        ensures
            final(self).wf(),
            final(self)@ == (BusView { ram: spec_load(old(self)@.ram, start, data@), ..old(self)@ }),
    {
        let mut i: usize = 0;
        while i < data.len()
            invariant
                i <= data@.len(),
                self.wf(),
                self@ == (BusView {
                    ram: spec_load(old(self)@.ram, start, data@.subrange(0, i as int)),
                    ..old(self)@
                }),
            decreases data@.len() - i,
        {
            let addr = start.wrapping_add((i % 65536) as u16);
            assert(addr as int == (start as int + i) % 65536) by {
                assert((start as int + (i % 65536)) % 65536 == (start as int + i) % 65536) by (nonlinear_arith);
            }
            self.memory.ram[addr as usize] = data[i];
            assert(data@.subrange(0, i + 1).drop_last() =~= data@.subrange(0, i as int));
            i = i + 1;
        }
        assert(data@.subrange(0, data@.len() as int) =~= data@);
    }

    /// The console screen as text, one line per row.
    pub fn display_text(&self) -> (r: String)
        requires
            self.wf(),
        ensures
            r@ == crate::io::video::screen_text(self@.serial.video.rows),
    {
        self.serial.display_string()
    }

    /// A copy of the whole memory.
    pub fn ram_image(&self) -> (r: Vec<u8>)
        ensures
            r@ == self@.ram,
    {
        let mut v: Vec<u8> = Vec::new();
        let mut i: usize = 0;
        while i < 65536
            invariant
                i <= 65536,
                self@.ram.len() == 65536,
                v@ == self@.ram.subrange(0, i as int),
            decreases 65536 - i,
        {
            v.push(self.memory.ram[i]);
            i += 1;
        }
        assert(self@.ram.subrange(0, 65536) =~= self@.ram);
        v
    }

    pub fn mem_read(&self, addr: u16) -> (r: u8)
        ensures
            r == self@.ram[addr as int],
    {
        self.memory.ram[addr as usize]
    }

    pub fn mem_write(&mut self, addr: u16, value: u8)
        requires
            old(self).wf(),
        ensures
            final(self).wf(),
            final(self)@ == (BusView { ram: old(self)@.ram.update(addr as int, value), ..old(self)@ }),
    {
        self.memory.ram[addr as usize] = value;
    }

    pub fn serial(&mut self) -> (r: &mut SerialCard)
        ensures
            *r == old(self).serial_card(),
            r@ == old(self)@.serial,
            final(self).serial_card() == *final(r),
            final(self)@ == (BusView { serial: final(r)@, ..old(self)@ }),
            old(self).wf() ==> r.wf(),
            old(self).wf() ==> (final(self).wf() <==> final(r).wf()),
    {
        &mut self.serial
    }

    /// The console (channel A of the serial card).
    pub fn console(&mut self) -> (r: &mut SerialCard)
        ensures
            *r == old(self).serial_card(),
            r@ == old(self)@.serial,
            final(self).serial_card() == *final(r),
            final(self)@ == (BusView { serial: final(r)@, ..old(self)@ }),
            old(self).wf() ==> r.wf(),
            old(self).wf() ==> (final(self).wf() <==> final(r).wf()),
    {
        &mut self.serial
    }

    /// Place a disk image in drive 0-3 of the Tarbell controller.
    pub fn insert_disk(&mut self, drive: usize, disk: crate::disk::DiskImage) -> (r: Result<(), String>)
        requires
            old(self).wf(),
            disk.wf(),
        ensures
            final(self).wf(),
            r is Ok <==> drive <= 3,
            r is Ok ==> final(self)@ == (BusView {
                tarbell: crate::chips::fd1771::spec_set_drive(old(self)@.tarbell, drive as int, Some(disk.model())),
                ..old(self)@
            }),
            r is Err ==> final(self)@ == old(self)@,
            r matches Err(e) ==> e@ == "Drive number must be 0-3"@,
    {
        self.tarbell.insert_disk(drive, disk)
    }

    pub fn tarbell(&mut self) -> (r: &mut TarbellCard)
        ensures
            *r == old(self).tarbell_card(),
            final(self).tarbell_card() == *final(r),
            final(self)@ == (BusView { tarbell: final(r)@, ..old(self)@ }),
            old(self).wf() ==> r.wf(),
            old(self).wf() ==> (final(self).wf() <==> final(r).wf()),
    {
        &mut self.tarbell
    }

    pub fn tarbell_ref(&self) -> (r: &TarbellCard)
        ensures
            *r == self.tarbell_card(),
            r@ == self@.tarbell,
            self.wf() ==> r.wf(),
    {
        &self.tarbell
    }

    pub fn memory_mut(&mut self) -> (r: &mut MemoryCard)
        ensures
            r.ram@ == old(self)@.ram,
            final(self)@ == (BusView { ram: final(r).ram@, ..old(self)@ }),
            final(self).wf() == old(self).wf(),
    {
        &mut self.memory
    }

    /// I/O read: 0x00-0x03, 0x79 and 0x7B go to the serial card, 0x48-0x4B and
    /// 0xF8-0xFF to the Tarbell card, every other port reads 0xFF.
    pub fn io_in(&mut self, port: u8) -> (r: u8)
        requires
            old(self).wf(),
        ensures
            final(self).wf(),
            r == spec_bus_io_in(old(self)@, port).0,
            final(self)@ == spec_bus_io_in(old(self)@, port).1,
    {
        if port == 0x00 || port == 0x7B || port == 0x01 || port == 0x79 || port == 0x02 || port
            == 0x03 {
            self.serial.io_read(port)
        } else if (0x48 <= port && port <= 0x4B) || 0xF8 <= port {
            self.tarbell.io_read(port)
        } else {
            0xFF
        }
    }

    /// I/O write, dispatched like `io_in`; writes to unclaimed ports are ignored.
    pub fn io_out(&mut self, port: u8, value: u8)
        requires
            old(self).wf(),
        ensures
            final(self).wf(),
            final(self)@ == spec_bus_io_out(old(self)@, port, value),
    {
        if port == 0x00 || port == 0x7B || port == 0x01 || port == 0x79 || port == 0x02 || port
            == 0x03 {
            self.serial.io_write(port, value);
        } else if (0x48 <= port && port <= 0x4B) || 0xF8 <= port {
            self.tarbell.io_write(port, value);
        }
    }

    /// Carry out the I/O side of the instruction at `pc` for a CPU core that
    /// leaves IN/OUT to its host: `IN p` (0xDB) reads port p, `OUT p` (0xD3)
    /// writes the accumulator to port p. Returns the new accumulator.
    pub fn service_io_instruction(&mut self, pc: u16, a: u8) -> (r: u8)
        requires
            old(self).wf(),
        ensures
            final(self).wf(),
            ({
                let op = old(self)@.ram[pc as int];
                let port = old(self)@.ram[(pc as int + 1) % 65536];
                if op == 0xDB {
                    r == spec_bus_io_in(old(self)@, port).0 && final(self)@ == spec_bus_io_in(
                        old(self)@,
                        port,
                    ).1
                } else if op == 0xD3 {
                    r == a && final(self)@ == spec_bus_io_out(old(self)@, port, a)
                } else {
                    r == a && final(self)@ == old(self)@
                }
            }),
    {
        let op = self.mem_read(pc);
        let port = self.mem_read(pc.wrapping_add(1));
        if op == 0xDB {
            self.io_in(port)
        } else if op == 0xD3 {
            self.io_out(port, a);
            a
        } else {
            a
        }
    }
}

impl Default for ImsaiBus {
    fn default() -> (r: Self)
        ensures
            r.wf(),
    {
        Self::new()
    }
}


/// Loading `data` at `start` puts byte `j` at `start + j` (mod 64K) and
/// leaves every address outside the loaded range as it was, when the data
/// fits in the address space.
pub proof fn lemma_load_read_back(ram: Seq<u8>, start: u16, data: Seq<u8>)
    requires
        ram.len() == 65536,
        data.len() <= 65536,
    ensures
        spec_load(ram, start, data).len() == 65536,
        forall|j: int| 0 <= j < data.len() ==> spec_load(ram, start, data)[(start + j) % 65536] == #[trigger] data[j],
        forall|a: int|
            0 <= a < 65536 && (a - start) % 65536 >= data.len() ==> #[trigger] spec_load(ram, start, data)[a] == ram[a],
    decreases data.len(),
{
    if data.len() > 0 {
        let init = data.drop_last();
        lemma_load_read_back(ram, start, init);
        let n = data.len() - 1;
        let r = spec_load(ram, start, data);
        assert forall|j: int| 0 <= j < data.len() implies r[(start + j) % 65536] == #[trigger] data[j] by {
            if j < n {
                assert(init[j] == data[j]);
                assert((start + j) % 65536 != (start + n) % 65536);
            }
        }
        assert forall|a: int| 0 <= a < 65536 && (a - start) % 65536 >= data.len() implies #[trigger] r[a] == ram[a] by {
            assert(a != (start + n) % 65536);
        }
    }
}

} // verus!
