//! CP/M loader: places a CP/M system image in memory and sets up page zero.
use vstd::prelude::*;
use crate::bios::Bios;
use crate::disk::{DiskView, sector_bytes};
use crate::emulator::Imsai8080;
use crate::text::{dec_seq, hex4_seq, push_decimal, push_hex4, push_text};

verus! {

/// Where the cold boot loads CP/M (the CCP) and starts it.
pub const CPMB: u16 = 0xE400;

/// Where the BIOS begins: loading the system tracks stops there.
pub const BIOS_BASE: u16 = 0xFA00;

/// Sector `k` of the system tracks in boot order: track 0 sectors 2-26 (the
/// boot sector 1 skipped), then track 1 sectors 1-26.
pub open spec fn boot_sector(k: int) -> (u8, u8) {
    if k < 25 {
        (0u8, (k + 2) as u8)
    } else {
        (1u8, (k - 24) as u8)
    }
}

/// Byte `i` of the system image the cold boot loads from a disk.
pub open spec fn boot_byte(d: Seq<u8>, i: int) -> u8 {
    sector_bytes(d, boot_sector(i / 128).0, boot_sector(i / 128).1)[i % 128]
}

/// Bytes loaded by the cold boot: from CPMB up to BIOS_BASE.
pub open spec fn boot_len() -> int {
    BIOS_BASE - CPMB
}

/// `Loaded 44 sectors (5632 bytes) into 0xE400-0xFA00`: the 44 sectors of
/// 128 bytes that fit below the BIOS.
pub open spec fn boot_message() -> Seq<char> {
    "Loaded "@ + dec_seq(44) + " sectors ("@ + dec_seq(5632) + " bytes) into 0x"@ + hex4_seq(CPMB) + "-0x"@ + hex4_seq(
        BIOS_BASE,
    )
}

/// Memory after the first `n` bytes of the system image went in at CPMB.
pub open spec fn boot_loaded(ram: Seq<u8>, ram0: Seq<u8>, d: Seq<u8>, n: int) -> bool {
    &&& ram.len() == 65536
    &&& forall|a: int|
        0 <= a < 65536 ==> #[trigger] ram[a] == if CPMB <= a < CPMB + n {
            boot_byte(d, a - CPMB)
        } else {
            ram0[a]
        }
}

/// CP/M system loader
pub struct CpMLoader;

impl CpMLoader {
    /// Create a new CP/M loader
    pub fn new() -> (r: Self) {
        Self
    }

    /// Load CP/M from embedded resources. No image is embedded in this
    /// build, so this always reports that CP/M is not available.
    pub fn load_cpm_embedded(&self) -> (r: Result<Vec<u8>, String>)
        ensures
            r matches Err(e) && e@ == "CP/M not available"@,
    {
        Err("CP/M not available".to_owned())
    }

    /// Install CP/M into memory: the image is copied to address 0 when it fits.
    pub fn install_cpm(&self, memory: &mut [u8], cpm_data: &[u8]) -> (r: Result<(), String>)
        ensures
            r is Ok <==> cpm_data@.len() <= old(memory)@.len(),
            r matches Err(e) ==> e@ == "CP/M image is too large for available memory"@
                && final(memory)@ == old(memory)@,
            r is Ok ==> final(memory)@ == cpm_data@ + old(memory)@.subrange(
                cpm_data@.len() as int,
                old(memory)@.len() as int,
            ),
    {
        if cpm_data.len() > memory.len() {
            return Err("CP/M image is too large for available memory".to_owned());
        }
        let mut i: usize = 0;
        while i < cpm_data.len()
            invariant
                cpm_data@.len() <= memory@.len(),
                memory@.len() == old(memory)@.len(),
                i <= cpm_data@.len(),
                memory@ == cpm_data@.subrange(0, i as int) + old(memory)@.subrange(
                    i as int,
                    old(memory)@.len() as int,
                ),
            decreases cpm_data@.len() - i,
        {
            memory[i] = cpm_data[i];
            assert(memory@ =~= cpm_data@.subrange(0, i + 1) + old(memory)@.subrange(
                i + 1,
                old(memory)@.len() as int,
            ));
            i = i + 1;
        }
        assert(cpm_data@.subrange(0, cpm_data@.len() as int) =~= cpm_data@);
        Ok(())
    }

    /// Initialize CP/M page zero: IOBYTE at 0x0003 selects the console only,
    /// and the command line buffer at 0x0080 is empty (length byte 0).
    pub fn initialize_cpm_system(&self, memory: &mut [u8])
        requires
            old(memory)@.len() > 0x80,
        ensures
            final(memory)@ == old(memory)@.update(0x0003, 0u8).update(0x0080, 0u8),
    {
        memory[0x0003] = 0x00;
        memory[0x0080] = 0x00;
    }
}

impl Default for CpMLoader {
    fn default() -> (r: Self) {
        Self::new()
    }
}

/// Copy a 128-byte sector into memory at `addr`.
fn copy_sector(emu: &mut Imsai8080, addr: u16, data: &[u8; 128], Ghost(ram0): Ghost<Seq<u8>>, Ghost(d): Ghost<Seq<u8>>, Ghost(k): Ghost<int>)
    requires
        old(emu).wf(),
        0 <= k < 44,
        addr == CPMB + 128 * k,
        boot_loaded(old(emu).bus@.ram, ram0, d, 128 * k),
        forall|j: int| 0 <= j < 128 ==> data@[j] == #[trigger] boot_byte(d, 128 * k + j),
    ensures
        final(emu).wf(),
        final(emu).bus@ == (crate::bus::BusView { ram: final(emu).bus@.ram, ..old(emu).bus@ }),
        final(emu).panel == old(emu).panel,
        final(emu).cycles == old(emu).cycles,
        final(emu).cpu == old(emu).cpu,
        boot_loaded(final(emu).bus@.ram, ram0, d, 128 * (k + 1)),
{
    let mut j: usize = 0;
    while j < 128
        invariant
            emu.wf(),
            j <= 128,
            addr == CPMB + 128 * k,
            0 <= k < 44,
            emu.bus@ == (crate::bus::BusView { ram: emu.bus@.ram, ..old(emu).bus@ }),
            emu.panel == old(emu).panel,
            emu.cycles == old(emu).cycles,
            emu.cpu == old(emu).cpu,
            forall|jj: int| 0 <= jj < 128 ==> data@[jj] == #[trigger] boot_byte(d, 128 * k + jj),
            boot_loaded(emu.bus@.ram, ram0, d, 128 * k + j),
        decreases 128 - j,
    {
        emu.bus.mem_write(addr + j as u16, data[j]);
        assert forall|a: int| 0 <= a < 65536 implies #[trigger] emu.bus@.ram[a] == if CPMB <= a < CPMB + 128 * k + j + 1 {
            boot_byte(d, a - CPMB)
        } else {
            ram0[a]
        } by {
            if a == addr + j {
                assert(a - CPMB == 128 * k + j);
            }
        }
        j = j + 1;
    }
}

/// Cold boot CP/M from the disk in drive 0: the system tracks (track 0 from
/// sector 2, then track 1) are loaded at CPMB up to BIOS_BASE, the BIOS jump
/// table is installed, and the CPU is set to start at CPMB with SP 0.
/// Returns the line that reports what was loaded, or the error when drive 0
/// is empty.
pub fn boot_cpm(emu: &mut Imsai8080) -> (r: Result<String, String>)
    requires
        old(emu).wf(),
    ensures
        final(emu).wf(),
        old(emu).bus@.tarbell.drives[0] is None ==> (r matches Err(e) && e@ == "No disk in drive 0"@ && *final(emu)
            == *old(emu)),
        old(emu).bus@.tarbell.drives[0] matches Some(d) ==> {
            &&& (r matches Ok(t) && t@ == boot_message())
            &&& crate::bios::header_installed(final(emu).bus@.ram)
            &&& forall|i: int|
                0 <= i < crate::bios::NUM_BIOS_ENTRIES ==> #[trigger] crate::bios::entry_installed(
                    final(emu).bus@.ram,
                    old(emu).bus@.ram,
                    i,
                )
            &&& final(emu).cpu == (crate::emulator::CoreRegisters { pc: CPMB, sp: 0, ..old(emu).cpu })
            &&& forall|i: int| 0 <= i < boot_len() ==> #[trigger] final(emu).bus@.ram[CPMB + i] == boot_byte(d.data, i)
            &&& forall|a: int|
                0 <= a < 65536 && !(CPMB <= a < BIOS_BASE) && !crate::bios::in_header(a) && !crate::bios::in_entries(
                    a,
                    crate::bios::NUM_BIOS_ENTRIES as int,
                ) ==> #[trigger] final(emu).bus@.ram[a] == old(emu).bus@.ram[a]
            &&& final(emu).bus@.tarbell == old(emu).bus@.tarbell
        },
{
    proof {
        emu.bus.lemma_ram_len();
    }
    let ghost ram0 = emu.bus@.ram;
    let ghost d = match emu.bus@.tarbell.drives[0] {
        Some(v) => v.data,
        None => Seq::empty(),
    };
    let mut mem_addr: u16 = CPMB;
    let mut sectors_loaded: u16 = 0;
    let mut k: u8 = 0;
    assert(forall|a: int| 0 <= a < 65536 ==> #[trigger] emu.bus@.ram[a] == ram0[a]);
    while k < 51
        invariant
            emu.wf(),
            k <= 51,
            emu.bus@.tarbell == old(emu).bus@.tarbell,
            emu.bus@.serial == old(emu).bus@.serial,
            emu.panel == old(emu).panel,
            emu.cycles == old(emu).cycles,
            emu.cpu == old(emu).cpu,
            ram0 == old(emu).bus@.ram,
            d == match old(emu).bus@.tarbell.drives[0] {
                Some(v) => v.data,
                None => Seq::empty(),
            },
            old(emu).bus@.tarbell.drives[0] is None ==> k == 0 && *emu == *old(emu),
            sectors_loaded == if k < 44 { k as int } else { 44 },
            mem_addr == CPMB + 128 * sectors_loaded,
            boot_loaded(emu.bus@.ram, ram0, d, 128 * sectors_loaded),
        decreases 51 - k,
    {
        let (track, sector): (u8, u8) = if k < 25 { (0, k + 2) } else { (1, k - 24) };
        let sector_data = match emu.bus.tarbell_ref().get_disk(0) {
            Some(disk) => {
                assert(old(emu).bus@.tarbell.drives[0] == Some(disk.model()));
                assert(disk@ == d);
                match disk.read_sector(track, sector) {
                    Ok(data) => data,
                    Err(e) => {
                        let mut m = String::new();
                        push_text(&mut m, "Error reading track ");
                        push_decimal(&mut m, track as u64);
                        push_text(&mut m, " sector ");
                        push_decimal(&mut m, sector as u64);
                        push_text(&mut m, ": ");
                        push_text(&mut m, e.as_str());
                        return Err(m);
                    },
                }
            },
            None => {
                assert(old(emu).bus@.tarbell.drives[0] is None);
                return Err("No disk in drive 0".to_owned());
            },
        };
        assert(old(emu).bus@.tarbell.drives[0] is Some);
        assert(sector_data@ == sector_bytes(d, track, sector));
        if mem_addr < BIOS_BASE {
            assert(sectors_loaded < 44);
            assert(sectors_loaded == k);
            assert(boot_sector(k as int) == (track, sector));
            assert forall|j: int| 0 <= j < 128 implies sector_data@[j] == #[trigger] boot_byte(d, 128 * sectors_loaded + j) by {
                assert((128 * sectors_loaded + j) / 128 == sectors_loaded as int) by (nonlinear_arith)
                    requires
                        0 <= j < 128,
                        0 <= sectors_loaded,
                ;
                assert((128 * sectors_loaded + j) % 128 == j) by (nonlinear_arith)
                    requires
                        0 <= j < 128,
                        0 <= sectors_loaded,
                ;
            }
            copy_sector(emu, mem_addr, &sector_data, Ghost(ram0), Ghost(d), Ghost(sectors_loaded as int));
            mem_addr = mem_addr + 128;
            sectors_loaded = sectors_loaded + 1;
        }
        k = k + 1;
    }
    let bytes_loaded = mem_addr - CPMB;
    let mut m = String::new();
    push_text(&mut m, "Loaded ");
    push_decimal(&mut m, sectors_loaded as u64);
    push_text(&mut m, " sectors (");
    push_decimal(&mut m, bytes_loaded as u64);
    push_text(&mut m, " bytes) into 0x");
    push_hex4(&mut m, CPMB);
    push_text(&mut m, "-0x");
    push_hex4(&mut m, CPMB + bytes_loaded);
    let ghost loaded = emu.bus@.ram;
    Bios::install_jump_table(&mut emu.bus);
    emu.set_pc_sp(CPMB, 0);
    proof {
        assert forall|i: int| 0 <= i < boot_len() implies #[trigger] emu.bus@.ram[CPMB + i] == boot_byte(d, i) by {
            assert(loaded[CPMB + i] == boot_byte(d, i));
        }
        assert forall|i: int| 0 <= i < crate::bios::NUM_BIOS_ENTRIES implies #[trigger] crate::bios::entry_installed(
            emu.bus@.ram,
            ram0,
            i,
        ) by {
            assert(crate::bios::entry_installed(emu.bus@.ram, loaded, i));
            let r = 0x100 + 4 * i;
            assert(loaded[r] == ram0[r]);
            assert(loaded[r + 1] == ram0[r + 1]);
            assert(loaded[r + 2] == ram0[r + 2]);
            assert(loaded[r + 3] == ram0[r + 3]);
        }
    }
    assert(m@ =~= boot_message());
    Ok(m)
}

} // verus!
