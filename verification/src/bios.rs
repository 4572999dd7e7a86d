//! Minimal CP/M BIOS: a page-zero jump table whose entries lead to tiny
//! console routines made of IN/OUT instructions.
//!
//! | Entry | Routine                                  |
//! |-------|------------------------------------------|
//! | 0     | console status: `IN 01h; ANI 01h`        |
//! | 1     | console input: `IN 00h; ANI 7Fh`         |
//! | 2     | console output: `MOV A,C; OUT 00h; RET`  |
//! | 3     | list: `RET`                              |
//! | 4     | reader: `MVI A,1Ah; RET` (end of file)   |
//! | 5     | list status: `MVI A,0FFh; RET` (ready)   |
//! | 6..16 | `RET` stubs                              |
use vstd::prelude::*;
use crate::bus::{BusView, ImsaiBus};

verus! {

/// Console data port.
pub const PORT_CONSOLE_DATA: u8 = 0x00;

/// Console status port.
pub const PORT_CONSOLE_STATUS: u8 = 0x01;

/// Number of BIOS entries in the jump table.
pub const NUM_BIOS_ENTRIES: usize = 17;

/// Address the warm-boot vector jumps to (the CCP).
pub const WARM_BOOT_TARGET: u16 = 0xE400;

/// Byte `k` (0..4) of BIOS routine `i`; `None` where the routine leaves memory as it was.
pub open spec fn routine_byte(i: int, k: int) -> Option<u8> {
    if i == 0 {
        if k == 0 { Some(0xDBu8) } else if k == 1 { Some(PORT_CONSOLE_STATUS) } else if k == 2 { Some(0xE6u8) } else { Some(0x01u8) }
    } else if i == 1 {
        if k == 0 { Some(0xDBu8) } else if k == 1 { Some(PORT_CONSOLE_DATA) } else if k == 2 { Some(0xE6u8) } else { Some(0x7Fu8) }
    } else if i == 2 {
        if k == 0 { Some(0x79u8) } else if k == 1 { Some(0xD3u8) } else if k == 2 { Some(PORT_CONSOLE_DATA) } else { Some(0xC9u8) }
    } else if i == 4 {
        if k == 0 { Some(0x3Eu8) } else if k == 1 { Some(0x1Au8) } else if k == 2 { Some(0xC9u8) } else { None }
    } else if i == 5 {
        if k == 0 { Some(0x3Eu8) } else if k == 1 { Some(0xFFu8) } else if k == 2 { Some(0xC9u8) } else { None }
    } else {
        if k == 0 { Some(0xC9u8) } else { None }
    }
}

/// The new byte if there is one, else the old one.
pub open spec fn byte_or(b: Option<u8>, old_byte: u8) -> u8 {
    match b {
        Some(v) => v,
        None => old_byte,
    }
}

/// Entry `i` is in place: the slot at `0x10 + 3i` holds `JMP 0x0100 + 4i`
/// and the routine at `0x0100 + 4i` holds its bytes (`old_ram` elsewhere).
pub open spec fn entry_installed(ram: Seq<u8>, old_ram: Seq<u8>, i: int) -> bool {
    let r = 0x100 + 4 * i;
    &&& ram[0x10 + 3 * i] == 0xC3
    &&& ram[0x11 + 3 * i] == 4 * i
    &&& ram[0x12 + 3 * i] == 0x01
    &&& ram[r] == byte_or(routine_byte(i, 0), old_ram[r])
    &&& ram[r + 1] == byte_or(routine_byte(i, 1), old_ram[r + 1])
    &&& ram[r + 2] == byte_or(routine_byte(i, 2), old_ram[r + 2])
    &&& ram[r + 3] == byte_or(routine_byte(i, 3), old_ram[r + 3])
}

/// Page-zero header: `JMP 0xE400` at 0, IOBYTE 0 at 3, `JMP 0x0000` at 5.
pub open spec fn header_installed(ram: Seq<u8>) -> bool {
    &&& ram[0] == 0xC3
    &&& ram[1] == 0x00
    &&& ram[2] == 0xE4
    &&& ram[3] == 0x00
    &&& ram[5] == 0xC3
    &&& ram[6] == 0x00
    &&& ram[7] == 0x00
}

/// Addresses of the page-zero header.
pub open spec fn in_header(a: int) -> bool {
    0 <= a < 8 && a != 4
}

/// Addresses of the jump-table slots and routines of the first `n` entries.
pub open spec fn in_entries(a: int, n: int) -> bool {
    (0x10 <= a < 0x10 + 3 * n) || (0x100 <= a < 0x100 + 4 * n)
}

/// Addresses of entry `i`.
pub open spec fn in_entry(a: int, i: int) -> bool {
    (0x10 + 3 * i <= a < 0x13 + 3 * i) || (0x100 + 4 * i <= a < 0x104 + 4 * i)
}

/// BIOS implementation for CP/M.
pub struct Bios;

impl Bios {
    fn write_routine(bus: &mut ImsaiBus, i: usize, routine_addr: u16)
        requires
            old(bus).wf(),
            i < NUM_BIOS_ENTRIES,
            routine_addr == 0x100 + 4 * i,
        ensures
            final(bus).wf(),
            final(bus)@ == (BusView { ram: final(bus)@.ram, ..old(bus)@ }),
            final(bus)@.ram.len() == 65536,
            ({
                let r = routine_addr as int;
                let nr = final(bus)@.ram;
                let or = old(bus)@.ram;
                &&& nr[r] == byte_or(routine_byte(i as int, 0), or[r])
                &&& nr[r + 1] == byte_or(routine_byte(i as int, 1), or[r + 1])
                &&& nr[r + 2] == byte_or(routine_byte(i as int, 2), or[r + 2])
                &&& nr[r + 3] == byte_or(routine_byte(i as int, 3), or[r + 3])
            }),
            forall|a: int|
                0 <= a < 65536 && !(routine_addr <= a < routine_addr + 4) ==> #[trigger] final(bus)@.ram[a] == old(bus)@.ram[a],
    {
        proof {
            bus.lemma_ram_len();
        }
        if i == 0 {
            bus.mem_write(routine_addr, 0xDB);
            bus.mem_write(routine_addr + 1, PORT_CONSOLE_STATUS);
            bus.mem_write(routine_addr + 2, 0xE6);
            bus.mem_write(routine_addr + 3, 0x01);
        } else if i == 1 {
            bus.mem_write(routine_addr, 0xDB);
            bus.mem_write(routine_addr + 1, PORT_CONSOLE_DATA);
            bus.mem_write(routine_addr + 2, 0xE6);
            bus.mem_write(routine_addr + 3, 0x7F);
        } else if i == 2 {
            bus.mem_write(routine_addr, 0x79);
            bus.mem_write(routine_addr + 1, 0xD3);
            bus.mem_write(routine_addr + 2, PORT_CONSOLE_DATA);
            bus.mem_write(routine_addr + 3, 0xC9);
        } else if i == 3 {
            bus.mem_write(routine_addr, 0xC9);
        } else if i == 4 {
            bus.mem_write(routine_addr, 0x3E);
            bus.mem_write(routine_addr + 1, 0x1A);
            bus.mem_write(routine_addr + 2, 0xC9);
        } else if i == 5 {
            bus.mem_write(routine_addr, 0x3E);
            bus.mem_write(routine_addr + 1, 0xFF);
            bus.mem_write(routine_addr + 2, 0xC9);
        } else {
            bus.mem_write(routine_addr, 0xC9);
        }
        proof {
            bus.lemma_ram_len();
        }
    }

    fn install_entry(bus: &mut ImsaiBus, i: usize)
        requires
            old(bus).wf(),
            i < NUM_BIOS_ENTRIES,
        ensures
            final(bus).wf(),
            final(bus)@ == (BusView { ram: final(bus)@.ram, ..old(bus)@ }),
            final(bus)@.ram.len() == 65536,
            entry_installed(final(bus)@.ram, old(bus)@.ram, i as int),
            forall|a: int| 0 <= a < 65536 && !in_entry(a, i as int) ==> #[trigger] final(bus)@.ram[a] == old(bus)@.ram[a],
    {
        proof {
            bus.lemma_ram_len();
        }
        let ghost ram0 = bus@.ram;
        let jump_addr: u16 = 0x10 + (i as u16) * 3;
        let routine_addr: u16 = 0x100 + (i as u16) * 4;
        bus.mem_write(jump_addr, 0xC3);
        bus.mem_write(jump_addr + 1, (routine_addr % 256) as u8);
        bus.mem_write(jump_addr + 2, (routine_addr / 256) as u8);
        let ghost ram1 = bus@.ram;
        Self::write_routine(bus, i, routine_addr);
        proof {
            let r = routine_addr as int;
            assert(ram1[r] == ram0[r] && ram1[r + 1] == ram0[r + 1]);
            assert(ram1[r + 2] == ram0[r + 2] && ram1[r + 3] == ram0[r + 3]);
            assert(bus@.ram[jump_addr as int] == ram1[jump_addr as int]);
            assert(bus@.ram[jump_addr + 1] == ram1[jump_addr + 1]);
            assert(bus@.ram[jump_addr + 2] == ram1[jump_addr + 2]);
        }
    }

    /// Write the page-zero vectors and the BIOS jump table with its routines.
    ///
    /// 0x0000: `JMP 0xE400` (warm boot to the CCP); 0x0003: IOBYTE = 0;
    /// 0x0005: `JMP 0x0000` (BDOS placeholder); 0x0010 + 3i: `JMP 0x0100 + 4i`
    /// for each of the 17 entries, with the routine bytes at 0x0100 + 4i.
    /// All other memory is left as it was.
    pub fn install_jump_table(bus: &mut ImsaiBus)
        requires
            old(bus).wf(),
        ensures
            final(bus).wf(),
            final(bus)@ == (BusView { ram: final(bus)@.ram, ..old(bus)@ }),
            final(bus)@.ram.len() == 65536,
            header_installed(final(bus)@.ram),
            forall|i: int|
                0 <= i < NUM_BIOS_ENTRIES ==> #[trigger] entry_installed(final(bus)@.ram, old(bus)@.ram, i),
            forall|a: int|
                0 <= a < 65536 && !in_header(a) && !in_entries(a, NUM_BIOS_ENTRIES as int) ==> #[trigger] final(bus)@.ram[a]
                    == old(bus)@.ram[a],
    {
        proof {
            bus.lemma_ram_len();
        }
        let ghost ram0 = bus@.ram;
        bus.mem_write(0x0000, 0xC3);
        bus.mem_write(0x0001, (WARM_BOOT_TARGET % 256) as u8);
        bus.mem_write(0x0002, (WARM_BOOT_TARGET / 256) as u8);
        bus.mem_write(0x0003, 0x00);
        bus.mem_write(0x0005, 0xC3);
        bus.mem_write(0x0006, 0x00);
        bus.mem_write(0x0007, 0x00);
        let mut i: usize = 0;
        while i < NUM_BIOS_ENTRIES
            invariant
                i <= NUM_BIOS_ENTRIES,
                bus.wf(),
                bus@ == (BusView { ram: bus@.ram, ..old(bus)@ }),
                bus@.ram.len() == 65536,
                ram0 == old(bus)@.ram,
                header_installed(bus@.ram),
                forall|j: int| 0 <= j < i ==> #[trigger] entry_installed(bus@.ram, ram0, j),
                forall|a: int|
                    0 <= a < 65536 && !in_header(a) && !in_entries(a, i as int) ==> #[trigger] bus@.ram[a] == ram0[a],
            decreases NUM_BIOS_ENTRIES - i,
        {
            let ghost prev = bus@.ram;
            Self::install_entry(bus, i);
            proof {
                let ii = i as int;
                let r = 0x100 + 4 * ii;
                assert(!in_header(r) && !in_entries(r, ii));
                assert(!in_header(r + 1) && !in_entries(r + 1, ii));
                assert(!in_header(r + 2) && !in_entries(r + 2, ii));
                assert(!in_header(r + 3) && !in_entries(r + 3, ii));
                assert(prev[r] == ram0[r] && prev[r + 1] == ram0[r + 1]);
                assert(prev[r + 2] == ram0[r + 2] && prev[r + 3] == ram0[r + 3]);
                assert(entry_installed(bus@.ram, ram0, ii));
                assert forall|j: int| 0 <= j < ii + 1 implies #[trigger] entry_installed(bus@.ram, ram0, j) by {
                    if j < ii {
                        assert(entry_installed(prev, ram0, j));
                        let rj = 0x100 + 4 * j;
                        assert(!in_entry(0x10 + 3 * j, ii) && !in_entry(0x11 + 3 * j, ii));
                        assert(!in_entry(0x12 + 3 * j, ii) && !in_entry(rj, ii));
                        assert(!in_entry(rj + 1, ii) && !in_entry(rj + 2, ii) && !in_entry(rj + 3, ii));
                        assert(bus@.ram[0x10 + 3 * j] == prev[0x10 + 3 * j]);
                        assert(bus@.ram[0x11 + 3 * j] == prev[0x11 + 3 * j]);
                        assert(bus@.ram[0x12 + 3 * j] == prev[0x12 + 3 * j]);
                        assert(bus@.ram[rj] == prev[rj]);
                        assert(bus@.ram[rj + 1] == prev[rj + 1]);
                        assert(bus@.ram[rj + 2] == prev[rj + 2]);
                        assert(bus@.ram[rj + 3] == prev[rj + 3]);
                    }
                }
                assert forall|a: int| 0 <= a < 65536 && !in_header(a) && !in_entries(a, ii + 1) implies #[trigger] bus@.ram[a]
                    == ram0[a] by {
                    assert(!in_entry(a, ii));
                    assert(bus@.ram[a] == prev[a]);
                }
                assert(!in_entry(0, ii) && !in_entry(1, ii) && !in_entry(2, ii) && !in_entry(3, ii));
                assert(!in_entry(5, ii) && !in_entry(6, ii) && !in_entry(7, ii));
                assert(bus@.ram[0] == prev[0] && bus@.ram[1] == prev[1] && bus@.ram[2] == prev[2]);
                assert(bus@.ram[3] == prev[3] && bus@.ram[5] == prev[5]);
                assert(bus@.ram[6] == prev[6] && bus@.ram[7] == prev[7]);
            }
            i = i + 1;
        }
    }
}

} // verus!
