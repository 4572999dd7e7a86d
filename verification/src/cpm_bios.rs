//! CP/M 2.2 system loader for a 64K IMSAI 8080 with a Tarbell controller.
//!
//! The DRI CP/M 2.2 system image is a relocating format: the CCP sits at file
//! offset 0x0100 (assembled for ORG 0x0100) and the BDOS at 0x0900 (assembled
//! for ORG 0x0000). For a 64K system the CCP is placed at 0xE400 and the BDOS
//! at 0xEC00, and every 16-bit operand of a jump, call, LXI, STA/LDA or
//! SHLD/LHLD that points into the low 16K is biased accordingly.
use vstd::prelude::*;
use crate::bus::{BusView, ImsaiBus};

verus! {

/// Memory size in KBytes.
pub const MSIZE: u16 = 64;

/// BIAS = (MSIZE - 20) * 1024: the image is stored as for a 20K system.
pub const BIAS: u16 = 0xB000;

/// CPMB = BIAS + 0x3400: start of the CP/M system in memory.
pub const CPMB: u16 = 0xE400;

/// The CCP starts at CPMB.
pub const CCP_ADDR: u16 = 0xE400;

/// BDOS function dispatcher of the 64K image.
pub const BDOS_ADDR: u16 = 0xEC06;

/// Start of the BIOS jump table (CPMB + 0x1600).
pub const BIOS_BASE: u16 = 0xFA00;

/// Disk parameter block, 48 bytes below the BIOS.
pub const DPB_ADDRESS: u16 = 0xF9D0;

/// Skew table, right after the 15-byte DPB.
pub const SKEW_ADDRESS: u16 = 0xF9DF;

/// DMA address storage (2 bytes).
pub const DMA_STORAGE: u16 = 0xF9E4;

/// Track number storage.
pub const TRACK_STORAGE: u16 = 0xF9E6;

/// Sector number storage.
pub const SECTOR_STORAGE: u16 = 0xF9E7;

/// Selected disk storage.
pub const DISK_STORAGE: u16 = 0xF9E8;

/// The raw load skips the boot sector.
pub const SECTOR_2_OFFSET: usize = 0x80;

/// CCP: file offsets 0x0100..0x0900, relocated by CCP_ADDR - 0x0100.
pub const CCP_FILE_START: usize = 0x0100;
pub const CCP_FILE_END: usize = 0x0900;
pub const CCP_BIAS: u16 = 0xE300;

/// BDOS: from file offset 0x0900, loaded at 0xEC00, assembled for ORG 0.
pub const BDOS_MEM_BASE: u16 = 0xEC00;
pub const BDOS_FILE_START: usize = 0x0900;
pub const BDOS_BIAS: u16 = 0xEC00;

/// Jumps, calls, LXI, STA/LDA and SHLD/LHLD: opcode plus a 16-bit address.
pub open spec fn is_address_op(op: u8) -> bool {
    op == 0xC3 || op == 0xC2 || op == 0xCA || op == 0xD2 || op == 0xDA || op == 0xE2 || op == 0xEA
        || op == 0xF2 || op == 0xFA || op == 0xCD || op == 0xC4 || op == 0xCC || op == 0xD4 || op
        == 0xDC || op == 0xE4 || op == 0xEC || op == 0xF4 || op == 0xFC || op == 0x21 || op == 0x11
        || op == 0x01 || op == 0x31 || op == 0x32 || op == 0x3A || op == 0x22 || op == 0x2A
}

/// MVI to a register, immediate ALU operations, IN and OUT: opcode plus one
/// data byte. MVI M (0x36) is not among them: relocation steps over it as a
/// one-byte instruction.
pub open spec fn is_immediate_op(op: u8) -> bool {
    op == 0x3E || op == 0x06 || op == 0x0E || op == 0x16 || op == 0x1E || op == 0x26 || op == 0x2E
        || op == 0xC6 || op == 0xD6 || op == 0xE6 || op == 0xF6 || op == 0xEE || op == 0xFE || op
        == 0xCE || op == 0xDE || op == 0xDB || op == 0xD3
}

/// The little-endian word at `loc`.
pub open spec fn word_at(ram: Seq<u8>, loc: int) -> int {
    ram[loc] as int + ram[loc + 1] as int * 256
}

/// Memory after relocating the instruction stream of `mem_len` bytes at
/// `mem_start`, continuing from offset `i`: every address operand in
/// `[min_addr, max_addr)` gets `bias` added (mod 64K). An operand that would
/// not fit in the segment is left alone. `None` when a 16-bit counter would
/// overflow on the way (an operand at 0xFFFF, or an offset past 0xFFFF).
pub open spec fn reloc_walk(
    ram: Seq<u8>,
    bias: u16,
    min_addr: u16,
    max_addr: u16,
    mem_start: u16,
    mem_len: u16,
    i: int,
) -> Option<Seq<u8>>
    decreases (if i < mem_len { mem_len - i } else { 0 }),
{
    if i >= mem_len || i < 0 {
        Some(ram)
    } else {
        let op = ram[(mem_start + i) % 65536];
        if is_address_op(op) {
            if i + 3 > 0xFFFF {
                None
            } else if i + 2 < mem_len {
                let loc = (mem_start + i + 1) % 65536;
                if loc == 0xFFFF {
                    None
                } else {
                    let target = word_at(ram, loc);
                    let ram2 = if min_addr <= target < max_addr {
                        let nt = (target + bias) % 65536;
                        ram.update(loc, (nt % 256) as u8).update(loc + 1, (nt / 256) as u8)
                    } else {
                        ram
                    };
                    reloc_walk(ram2, bias, min_addr, max_addr, mem_start, mem_len, i + 3)
                }
            } else {
                reloc_walk(ram, bias, min_addr, max_addr, mem_start, mem_len, i + 3)
            }
        } else if is_immediate_op(op) {
            if i + 2 > 0xFFFF {
                None
            } else {
                reloc_walk(ram, bias, min_addr, max_addr, mem_start, mem_len, i + 2)
            }
        } else {
            reloc_walk(ram, bias, min_addr, max_addr, mem_start, mem_len, i + 1)
        }
    }
}

/// Memory with `n` bytes of `data` from offset `from` copied to addresses `to..to + n`.
pub open spec fn copy_into(ram: Seq<u8>, data: Seq<u8>, from: int, to: int, n: int) -> Seq<u8> {
    Seq::new(ram.len(), |a: int| if to <= a < to + n { data[from + a - to] } else { ram[a] })
}

/// The smaller of two integers.
pub open spec fn min_int(a: int, b: int) -> int {
    if a <= b { a } else { b }
}

/// `len - off`, or 0 when `len <= off`.
pub open spec fn tail_len(len: int, off: int) -> int {
    if len > off { len - off } else { 0 }
}

/// Memory after loading and relocating a CP/M system image:
/// 1. the image from offset 0x80 is copied raw to CPMB, stopping below BIOS_BASE;
/// 2. if the image reaches 0x0900, the CCP (0x0100..0x0900) is copied to 0xE400
///    and relocated by 0xE300;
/// 3. the BDOS (from 0x0900) is copied to 0xEC00, stopping below BIOS_BASE, and
///    relocated by 0xEC00 over its full length taken mod 64K.
/// `None` when a relocation pass would overflow a 16-bit counter.
pub open spec fn spec_load_system(ram: Seq<u8>, data: Seq<u8>) -> Option<Seq<u8>> {
    let raw = tail_len(data.len() as int, 0x80);
    let r1 = copy_into(ram, data, 0x80, 0xE400, min_int(raw, 0x1600));
    let r2 = if data.len() >= 0x900 {
        reloc_walk(copy_into(r1, data, 0x100, 0xE400, 0x800), 0xE300, 0, 0x4000, 0xE400, 0x800, 0)
    } else {
        Some(r1)
    };
    match r2 {
        None => None,
        Some(r2) => {
            let bdos = tail_len(data.len() as int, 0x900);
            let r3 = copy_into(r2, data, 0x900, 0xEC00, min_int(bdos, 0xE00));
            reloc_walk(r3, 0xEC00, 0, 0x4000, 0xEC00, (bdos % 65536) as u16, 0)
        },
    }
}

fn is_address_opcode(op: u8) -> (r: bool)
    ensures
        r == is_address_op(op),
{
    matches!(
        op,
        0xC3 | 0xC2 | 0xCA | 0xD2 | 0xDA | 0xE2 | 0xEA | 0xF2 | 0xFA | 0xCD | 0xC4 | 0xCC | 0xD4
            | 0xDC | 0xE4 | 0xEC | 0xF4 | 0xFC | 0x21 | 0x11 | 0x01 | 0x31 | 0x32 | 0x3A | 0x22
            | 0x2A
    )
}

fn is_immediate_opcode(op: u8) -> (r: bool)
    ensures
        r == is_immediate_op(op),
{
    matches!(
        op,
        0x3E | 0x06 | 0x0E | 0x16 | 0x1E | 0x26 | 0x2E | 0xC6 | 0xD6 | 0xE6 | 0xF6 | 0xEE | 0xFE
            | 0xCE | 0xDE | 0xDB | 0xD3
    )
}

/// CP/M 2.2 BIOS support: system image loading and relocation.
pub struct CpmBios;

impl CpmBios {
    /// Relocate the 8080 code of `mem_len` bytes at `mem_start`: walking
    /// instruction by instruction, each 16-bit address operand in
    /// `[min_addr, max_addr)` gets `bias` added.
    #[verifier::rlimit(40)]
    pub fn relocate_segment(
        bus: &mut ImsaiBus,
        _base: u16,
        bias: u16,
        min_addr: u16,
        max_addr: u16,
        mem_start: u16,
        mem_len: u16,
    )
        requires
            old(bus).wf(),
            reloc_walk(old(bus)@.ram, bias, min_addr, max_addr, mem_start, mem_len, 0) is Some,
        ensures
            final(bus).wf(),
            final(bus)@ == (BusView {
                ram: reloc_walk(old(bus)@.ram, bias, min_addr, max_addr, mem_start, mem_len, 0).unwrap(),
                ..old(bus)@
            }),
    {
        let ghost result = reloc_walk(old(bus)@.ram, bias, min_addr, max_addr, mem_start, mem_len, 0);
        proof {
            bus.lemma_ram_len();
        }
        let mut i: u16 = 0;
        while i < mem_len
            invariant
                bus.wf(),
                bus@ == (BusView { ram: bus@.ram, ..old(bus)@ }),
                bus@.ram.len() == 65536,
                result is Some,
                reloc_walk(bus@.ram, bias, min_addr, max_addr, mem_start, mem_len, i as int) == result,
            decreases 0x10000 - i,
        {
            let ghost ram = bus@.ram;
            let pc = mem_start.wrapping_add(i);
            assert(pc as int == (mem_start + i) % 65536);
            let op = bus.mem_read(pc);
            if is_address_opcode(op) {
                if i + 2 < mem_len {
                    let addr_loc = pc.wrapping_add(1);
                    assert(addr_loc as int == (mem_start + i + 1) % 65536);
                    let lo = bus.mem_read(addr_loc) as u16;
                    let hi = bus.mem_read(addr_loc + 1) as u16;
                    let target = lo + hi * 256;
                    if target >= min_addr && target < max_addr {
                        let new_target = target.wrapping_add(bias);
                        assert(new_target as int == (target + bias) % 65536);
                        let b0 = (new_target % 256) as u8;
                        let b1 = (new_target / 256) as u8;
                        bus.mem_write(addr_loc, b0);
                        bus.mem_write(addr_loc + 1, b1);
                    }
                }
                i = i + 3;
            } else if is_immediate_opcode(op) {
                i = i + 2;
            } else {
                i = i + 1;
            }
        }
    }

    /// Load the CP/M system image and relocate it for a 64K system: the raw
    /// system tracks from sector 2 go to CPMB, then the CCP is placed at 0xE400
    /// and the BDOS at 0xEC00, each with its own relocation bias. Nothing at or
    /// above BIOS_BASE is overwritten by the copies.
    pub fn load_and_relocate(bus: &mut ImsaiBus, system_data: &[u8])
        requires
            old(bus).wf(),
            spec_load_system(old(bus)@.ram, system_data@) is Some,
        ensures
            final(bus).wf(),
            final(bus)@ == (BusView {
                ram: spec_load_system(old(bus)@.ram, system_data@).unwrap(),
                ..old(bus)@
            }),
    {
        let ghost ram0 = bus@.ram;
        let ghost data = system_data@;
        proof {
            bus.lemma_ram_len();
        }
        // Raw load of the system tracks from sector 2 to CPMB, below the BIOS.
        let load_len = system_data.len().saturating_sub(SECTOR_2_OFFSET);
        let limit: usize = (BIOS_BASE - CPMB) as usize;
        let mut i: usize = 0;
        while i < load_len && i < limit
            invariant
                bus.wf(),
                bus@ == (BusView { ram: bus@.ram, ..old(bus)@ }),
                limit == 0x1600,
                load_len == tail_len(data.len() as int, 0x80),
                i <= load_len,
                i <= limit,
                data == system_data@,
                ram0.len() == 65536,
                bus@.ram == copy_into(ram0, data, 0x80, 0xE400, i as int),
            decreases load_len - i,
        {
            let mem_addr = CPMB + i as u16;
            bus.mem_write(mem_addr, system_data[SECTOR_2_OFFSET + i]);
            assert(bus@.ram =~= copy_into(ram0, data, 0x80, 0xE400, i + 1));
            i = i + 1;
        }
        let ghost r1 = bus@.ram;
        proof {
            bus.lemma_ram_len();
        }
        assert(r1 == copy_into(ram0, data, 0x80, 0xE400, min_int(tail_len(data.len() as int, 0x80), 0x1600)));

        // CCP: copy to 0xE400 and relocate by 0xE300.
        if CCP_FILE_END <= system_data.len() {
            let mut k: usize = 0;
            while k < CCP_FILE_END - CCP_FILE_START
                invariant
                    bus.wf(),
                    bus@ == (BusView { ram: bus@.ram, ..old(bus)@ }),
                    k <= 0x800,
                    data == system_data@,
                    data.len() >= 0x900,
                    r1.len() == 65536,
                    bus@.ram == copy_into(r1, data, 0x100, 0xE400, k as int),
                decreases 0x800 - k,
            {
                let mem_addr = CCP_ADDR + k as u16;
                bus.mem_write(mem_addr, system_data[CCP_FILE_START + k]);
                assert(bus@.ram =~= copy_into(r1, data, 0x100, 0xE400, k + 1));
                k = k + 1;
            }
            Self::relocate_segment(bus, CCP_ADDR, CCP_BIAS, 0x0000, 0x4000, CCP_ADDR, 0x800);
        }
        let ghost r2 = bus@.ram;
        proof {
            bus.lemma_ram_len();
        }

        // BDOS: copy to 0xEC00 (below the BIOS) and relocate by 0xEC00.
        let bdos_len = system_data.len().saturating_sub(BDOS_FILE_START);
        let bdos_limit: usize = (BIOS_BASE - BDOS_MEM_BASE) as usize;
        let mut j: usize = 0;
        while j < bdos_len && j < bdos_limit
            invariant
                bus.wf(),
                bus@ == (BusView { ram: bus@.ram, ..old(bus)@ }),
                bdos_limit == 0xE00,
                bdos_len == tail_len(data.len() as int, 0x900),
                j <= bdos_len,
                j <= bdos_limit,
                data == system_data@,
                r2.len() == 65536,
                bus@.ram == copy_into(r2, data, 0x900, 0xEC00, j as int),
            decreases bdos_len - j,
        {
            let mem_addr = BDOS_MEM_BASE + j as u16;
            bus.mem_write(mem_addr, system_data[BDOS_FILE_START + j]);
            assert(bus@.ram =~= copy_into(r2, data, 0x900, 0xEC00, j + 1));
            j = j + 1;
        }
        let seg_len = (bdos_len % 65536) as u16;
        Self::relocate_segment(bus, BDOS_MEM_BASE, BDOS_BIAS, 0x0000, 0x4000, BDOS_MEM_BASE, seg_len);
    }
}

/// The instructions relocation reads as an opcode and a 16-bit address are
/// exactly the 8080's: JMP, CALL, the conditional jumps (11ccc010) and calls
/// (11ccc100), LXI (00pp0001), STA, LDA, SHLD and LHLD; those it reads as an
/// opcode and one data byte are exactly MVI (00rrr110), the immediate ALU
/// group (11aaa110), IN and OUT, but for MVI M (0x36), which relocation
/// steps over as one byte; every other opcode is one byte.
pub proof fn lemma_relocation_instruction_lengths(op: u8)
    ensures
        is_address_op(op) == (op == 0xC3 || op == 0xCD || op & 0xC7 == 0xC2 || op & 0xC7 == 0xC4 || op & 0xCF
            == 0x01 || op == 0x22 || op == 0x2A || op == 0x32 || op == 0x3A),
        is_immediate_op(op) == ((op & 0xC7 == 0x06 && op != 0x36) || op & 0xC7 == 0xC6 || op == 0xDB || op
            == 0xD3),
{
    crate::disasm::lemma_opcode_patterns(op);
}

} // verus!
