use rust_imsai_emulator::bios::{Bios, PORT_CONSOLE_DATA, PORT_CONSOLE_STATUS};
use rust_imsai_emulator::bus::ImsaiBus;
use rust_imsai_emulator::cards::MemoryCard;
use rust_imsai_emulator::cpm::{boot_cpm, CpMLoader};
use rust_imsai_emulator::{DiskImage, Imsai8080};
use rust_imsai_emulator::cpm_bios::{
    CpmBios, BDOS_ADDR, BIAS, BIOS_BASE, CCP_ADDR, CPMB, DMA_STORAGE, DPB_ADDRESS, MSIZE,
    SKEW_ADDRESS,
};
use rust_imsai_emulator::disasm::{disassemble_8080, port_name};
use rust_imsai_emulator::memory::Memory;
use rust_imsai_emulator::system::SystemConfig;

#[test]
fn test_bios_jump_table_installed() {
    let mut bus = ImsaiBus::new();
    Bios::install_jump_table(&mut bus);
    assert_eq!(bus.memory.read(0x0000), 0xC3);
    assert_eq!(bus.memory.read(0x0001), 0x00);
    assert_eq!(bus.memory.read(0x0002), 0xE4);
    assert_eq!(bus.memory.read(0x0005), 0xC3);
    assert_eq!(bus.memory.read(0x0003), 0x00);
    assert_eq!(bus.memory.read(0x0010), 0xC3);
    assert_eq!(bus.memory.read(0x0011), 0x00);
    assert_eq!(bus.memory.read(0x0012), 0x01);
    assert_eq!(bus.memory.read(0x0100), 0xDB);
    assert_eq!(bus.memory.read(0x0101), PORT_CONSOLE_STATUS);
}

#[test]
fn test_bios_conout_routine() {
    let mut bus = ImsaiBus::new();
    Bios::install_jump_table(&mut bus);
    assert_eq!(bus.memory.read(0x0108), 0x79);
    assert_eq!(bus.memory.read(0x0109), 0xD3);
    assert_eq!(bus.memory.read(0x010A), PORT_CONSOLE_DATA);
}

#[test]
fn test_bios_reader_returns_eof() {
    let mut bus = ImsaiBus::new();
    Bios::install_jump_table(&mut bus);
    assert_eq!(bus.memory.read(0x0110), 0x3E);
    assert_eq!(bus.memory.read(0x0111), 0x1A);
}

#[test]
fn test_bios_listst_returns_ready() {
    let mut bus = ImsaiBus::new();
    Bios::install_jump_table(&mut bus);
    assert_eq!(bus.memory.read(0x0114), 0x3E);
    assert_eq!(bus.memory.read(0x0115), 0xFF);
}

#[test]
fn bios_stub_entries_and_untouched_memory() {
    let mut bus = ImsaiBus::new();
    Bios::install_jump_table(&mut bus);
    // Entry 16: JMP 0x0140, RET stub, rest untouched.
    assert_eq!(bus.memory.read(0x0040), 0xC3);
    assert_eq!(bus.memory.read(0x0041), 0x40);
    assert_eq!(bus.memory.read(0x0042), 0x01);
    assert_eq!(bus.memory.read(0x0140), 0xC9);
    assert_eq!(bus.memory.read(0x0141), 0xFF);
    assert_eq!(bus.memory.read(0x0004), 0xFF);
    assert_eq!(bus.memory.read(0x0043), 0xFF);
    assert_eq!(bus.memory.read(0x0144), 0xFF);
    // LIST leaves the rest of its slot alone.
    assert_eq!(bus.memory.read(0x010C), 0xC9);
    assert_eq!(bus.memory.read(0x010D), 0xFF);
}

#[test]
fn test_relocate_segment() {
    let mut bus = ImsaiBus::new();
    bus.memory.write(0xE400, 0xC3);
    bus.memory.write(0xE401, 0x00);
    bus.memory.write(0xE402, 0x01);
    CpmBios::relocate_segment(&mut bus, 0xE400, 0xE300, 0x0000, 0x4000, 0xE400, 3);
    assert_eq!(bus.memory.read(0xE401), 0x00);
    assert_eq!(bus.memory.read(0xE402), 0xE4);
}

#[test]
fn test_relocate_segment_preserves_out_of_range() {
    let mut bus = ImsaiBus::new();
    bus.memory.write(0xE400, 0xC3);
    bus.memory.write(0xE401, 0x00);
    bus.memory.write(0xE402, 0xFF);
    CpmBios::relocate_segment(&mut bus, 0xE400, 0xE300, 0x0000, 0x4000, 0xE400, 3);
    assert_eq!(bus.memory.read(0xE401), 0x00);
    assert_eq!(bus.memory.read(0xE402), 0xFF);
}

#[test]
fn test_load_and_relocate_empty() {
    let mut bus = ImsaiBus::new();
    // The loader was written against a zero-initialized memory.
    bus.memory = MemoryCard::new_zeroed();
    let tiny_data = vec![0u8; 128];
    CpmBios::load_and_relocate(&mut bus, &tiny_data);
    assert_eq!(bus.memory.read(CCP_ADDR), 0x00);
}

#[test]
fn test_memory_layout_constants() {
    assert_eq!(MSIZE, 64);
    assert_eq!(BIAS, 0xB000);
    assert_eq!(CPMB, 0xE400);
    assert_eq!(CCP_ADDR, 0xE400);
    assert_eq!(BDOS_ADDR, 0xEC06);
    assert_eq!(BIOS_BASE, 0xFA00);
    assert_eq!(CCP_ADDR - 0x0100, 0xE300);
}

#[test]
fn cpm_bios_test_dpb_constants() {
    assert!(DPB_ADDRESS < BIOS_BASE);
    assert!(SKEW_ADDRESS > DPB_ADDRESS);
    assert!(DMA_STORAGE > SKEW_ADDRESS);
    assert!((BIOS_BASE - DPB_ADDRESS) >= 48, "Not enough room for DPB data before BIOS");
}

#[test]
fn relocate_skips_immediates_and_short_tails() {
    let mut bus = ImsaiBus::new();
    // MVI A,0x21 ; LXI H,0x0010 ; JMP (cut off by the segment end)
    bus.load(0x2000, &[0x3E, 0x21, 0x21, 0x10, 0x00, 0xC3, 0x00]);
    CpmBios::relocate_segment(&mut bus, 0x2000, 0x1000, 0x0000, 0x4000, 0x2000, 7);
    assert_eq!(bus.memory.read(0x2001), 0x21);
    assert_eq!(bus.memory.read(0x2003), 0x10);
    assert_eq!(bus.memory.read(0x2004), 0x10);
    assert_eq!(bus.memory.read(0x2006), 0x00);
}

#[test]
fn load_and_relocate_places_ccp_and_bdos() {
    let mut bus = ImsaiBus::new();
    let mut image = vec![0u8; 0x1000];
    // CCP at file offset 0x0100: JMP 0x0105 -> 0xE405
    image[0x100] = 0xC3;
    image[0x101] = 0x05;
    image[0x102] = 0x01;
    // BDOS at file offset 0x0900: CALL 0x0011 -> 0xEC11
    image[0x900] = 0xCD;
    image[0x901] = 0x11;
    image[0x902] = 0x00;
    CpmBios::load_and_relocate(&mut bus, &image);
    assert_eq!(bus.memory.read(0xE400), 0xC3);
    assert_eq!(bus.memory.read(0xE401), 0x05);
    assert_eq!(bus.memory.read(0xE402), 0xE4);
    assert_eq!(bus.memory.read(0xEC00), 0xCD);
    assert_eq!(bus.memory.read(0xEC01), 0x11);
    assert_eq!(bus.memory.read(0xEC02), 0xEC);
    assert_eq!(bus.memory.read(BIOS_BASE), 0xFF);
}

#[test]
fn test_cpm_loader_creation() {
    let _loader = CpMLoader::new();
}

#[test]
fn cpm_loader_install_and_initialize() {
    let loader = CpMLoader::new();
    let mut memory = vec![0xAAu8; 0x200];
    assert!(loader.install_cpm(&mut memory, &[1, 2, 3]).is_ok());
    assert_eq!(&memory[..4], &[1, 2, 3, 0xAA]);
    let too_big = vec![0u8; 0x201];
    assert_eq!(
        loader.install_cpm(&mut memory, &too_big).unwrap_err(),
        "CP/M image is too large for available memory"
    );
    loader.initialize_cpm_system(&mut memory);
    assert_eq!(memory[0x0003], 0x00);
    assert_eq!(memory[0x0080], 0x00);
    assert_eq!(memory[0x0081], 0xAA);
    assert_eq!(loader.load_cpm_embedded().unwrap_err(), "CP/M not available");
}

#[test]
fn test_disassemble_nop() {
    assert_eq!(disassemble_8080([0x00, 0, 0, 0]), "NOP");
}

#[test]
fn test_disassemble_jmp() {
    assert_eq!(disassemble_8080([0xC3, 0x00, 0x01, 0]), "JMP 0x0100");
}

#[test]
fn test_disassemble_mvi_a() {
    assert_eq!(disassemble_8080([0x3E, 0x42, 0, 0]), "MVI A,0x42");
}

#[test]
fn test_disassemble_out() {
    assert_eq!(disassemble_8080([0xD3, 0x01, 0, 0]), "OUT 0x01");
}

#[test]
fn test_disassemble_mov_a_b() {
    assert_eq!(disassemble_8080([0x78, 0, 0, 0]), "MOV A,B");
}

#[test]
fn test_disassemble_generic_mov() {
    assert_eq!(disassemble_8080([0x51, 0, 0, 0]), "MOV D,C");
}

#[test]
fn test_disassemble_unknown_opcode() {
    assert_eq!(disassemble_8080([0xDD, 0, 0, 0]), "0xDD");
}

#[test]
fn test_port_name_known() {
    assert_eq!(port_name(0x00), "CON_DATA");
    assert_eq!(port_name(0x01), "CON_STAT");
    assert_eq!(port_name(0x48), "TARB_STAT");
}

#[test]
fn test_port_name_unknown() {
    assert_eq!(port_name(0x10), "");
}

#[test]
fn disassemble_more_forms() {
    let cases: [([u8; 4], &str); 24] = [
        ([0x01, 0x34, 0x12, 0], "LXI BC,0x1234"),
        ([0x31, 0x00, 0xF0, 0], "LXI SP,0xF000"),
        ([0xCA, 0x10, 0x00, 0], "JZ 0x0010"),
        ([0xFA, 0xFF, 0xFF, 0], "JM 0xFFFF"),
        ([0xCD, 0x05, 0x00, 0], "CALL 0x0005"),
        ([0xDC, 0x00, 0x02, 0], "CC 0x0200"),
        ([0xE4, 0x00, 0x02, 0], "0xE4"),
        ([0xC9, 0, 0, 0], "RET"),
        ([0xD8, 0, 0, 0], "RC"),
        ([0xE0, 0, 0, 0], "0xE0"),
        ([0x36, 0x0A, 0, 0], "MVI M,0x0A"),
        ([0xDB, 0xFE, 0, 0], "IN 0xFE"),
        ([0x8E, 0, 0, 0], "ADC M"),
        ([0x90, 0, 0, 0], "SUB B"),
        ([0x3C, 0, 0, 0], "INR A"),
        ([0x2D, 0, 0, 0], "DCR L"),
        ([0x23, 0, 0, 0], "INX HL"),
        ([0x3B, 0, 0, 0], "DCX SP"),
        ([0x19, 0, 0, 0], "DAD DE"),
        ([0xF5, 0, 0, 0], "PUSH PSW"),
        ([0xC1, 0, 0, 0], "POP BC"),
        ([0xFE, 0x0D, 0, 0], "CPI 0x0D"),
        ([0x76, 0, 0, 0], "HLT"),
        ([0xEF, 0, 0, 0], "RST 5"),
    ];
    for (bytes, text) in cases.iter() {
        assert_eq!(disassemble_8080(*bytes), *text);
    }
    assert_eq!(disassemble_8080([0x32, 0x00, 0x80, 0]), "STA 0x8000");
    assert_eq!(disassemble_8080([0x2A, 0x34, 0x12, 0]), "LHLD 0x1234");
    assert_eq!(disassemble_8080([0xEB, 0, 0, 0]), "XCHG");
    assert_eq!(disassemble_8080([0x07, 0, 0, 0]), "0x07");
    assert_eq!(disassemble_8080([0x7E, 0, 0, 0]), "MOV A,M");
    assert_eq!(port_name(0xFE), "DEBUG");
    assert_eq!(port_name(0x4B), "TARB_DATA");
}

#[test]
fn memory_read_after_write() {
    let mut mem = Memory::new();
    assert_eq!(mem.read(0x1234), 0x00);
    mem.write(0x1234, 0x99);
    assert_eq!(mem.read(0x1234), 0x99);
    assert_eq!(mem.read(0x1235), 0x00);
}

#[test]
fn system_config_builds() {
    let _cfg = SystemConfig::new();
    let _cfg2 = SystemConfig::default();
}

#[test]
fn boot_cpm_loads_system_tracks_and_bios() {
    let data: Vec<u8> = (0..256256usize).map(|i| (i % 251) as u8).collect();
    let disk = DiskImage::from_bytes(data.clone()).unwrap();
    let mut emu = Imsai8080::new();
    emu.bus.insert_disk(0, disk).unwrap();
    let msg = boot_cpm(&mut emu).unwrap();
    assert_eq!(msg, "Loaded 44 sectors (5632 bytes) into 0xE400-0xFA00");
    // Track 0 sector 2 starts at image offset 128.
    assert_eq!(emu.bus.mem_read(0xE400), data[128]);
    assert_eq!(emu.bus.mem_read(0xE47F), data[255]);
    // The 25th sector loaded is track 1 sector 1, at image offset 26 * 128.
    assert_eq!(emu.bus.mem_read(0xE400 + 25 * 128), data[26 * 128]);
    assert_eq!(emu.bus.mem_read(0xF9FF), data[26 * 128 + 18 * 128 + 127]);
    assert_eq!(emu.bus.mem_read(0xFA00), 0xFF);
    assert_eq!(emu.bus.mem_read(0x0000), 0xC3);
    assert_eq!(emu.bus.mem_read(0x0002), 0xE4);
    assert_eq!(emu.cpu.pc, 0xE400);
    assert_eq!(emu.cpu.sp, 0x0000);
}

#[test]
fn boot_cpm_without_disk() {
    let mut emu = Imsai8080::new();
    assert_eq!(boot_cpm(&mut emu), Err("No disk in drive 0".to_string()));
    assert_eq!(emu.bus.mem_read(0xE400), 0xFF);
}

#[test]
fn disassemble_whole_register_alu_group() {
    assert_eq!(disassemble_8080([0x90, 0, 0, 0]), "SUB B");
    assert_eq!(disassemble_8080([0x9E, 0, 0, 0]), "SBB M");
    assert_eq!(disassemble_8080([0xA7, 0, 0, 0]), "ANA A");
    assert_eq!(disassemble_8080([0xAF, 0, 0, 0]), "XRA A");
    assert_eq!(disassemble_8080([0xB7, 0, 0, 0]), "ORA A");
    assert_eq!(disassemble_8080([0xBF, 0, 0, 0]), "CMP A");
    assert_eq!(disassemble_8080([0xDD, 0, 0, 0]), "0xDD");
}
