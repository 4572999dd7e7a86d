use rust_imsai_emulator::bus::ImsaiBus;
use rust_imsai_emulator::cards::memory::{
    load_memory_segments, memory_image_readable, memory_segments, LoadError, MemoryCard, MemorySegment,
};
use rust_imsai_emulator::cards::{CpuControl, FrontPanel};
use rust_imsai_emulator::cli::parse_arg_list;
use rust_imsai_emulator::program::{
    execute_panel_program, find_program_start, memory_to_program, parse_hex16, parse_hex8,
    parse_hex_bytes, run_panel_steps, PanelProgram, PanelStep,
};
use rust_imsai_emulator::Imsai8080;
use rust_imsai_emulator::tui::{parse_command, CommandResult, TuiCommand};

#[test]
fn test_memory_card_new_is_ff() {
    let card = MemoryCard::new();
    assert_eq!(card.read(0x0000), 0xFF);
    assert_eq!(card.read(0xFFFF), 0xFF);
}

#[test]
fn test_memory_card_new_zeroed() {
    let card = MemoryCard::new_zeroed();
    assert_eq!(card.read(0x0000), 0x00);
    assert_eq!(card.read(0xFFFF), 0x00);
}

#[test]
fn test_memory_card_read_write() {
    let mut card = MemoryCard::new();
    card.write(0x0100, 0x42);
    assert_eq!(card.read(0x0100), 0x42);
}

fn segments_json(segs: &[MemorySegment]) -> String {
    let values: Vec<serde_json::Value> = segs
        .iter()
        .map(|s| {
            let mut m = serde_json::Map::new();
            m.insert("addr".to_string(), serde_json::Value::from(s.addr));
            m.insert("data".to_string(), serde_json::Value::from(s.data.clone()));
            serde_json::Value::Object(m)
        })
        .collect();
    serde_json::to_string_pretty(&values).unwrap()
}

fn segments_from_json(text: &str) -> Vec<MemorySegment> {
    let value: serde_json::Value = serde_json::from_str(text).unwrap();
    value
        .as_array()
        .unwrap()
        .iter()
        .map(|v| MemorySegment {
            addr: v["addr"].as_u64().unwrap() as u16,
            data: v["data"].as_str().unwrap().to_string(),
        })
        .collect()
}

#[test]
fn test_save_load_round_trip() {
    let mut ram = [0xFFu8; 65536];
    ram[0x0000] = 0xC3;
    ram[0x0001] = 0x00;
    ram[0x0002] = 0x01;
    ram[0x0100] = 0x3E;
    ram[0x0101] = 0x41;
    ram[0xFFFF] = 0x00;
    let text = segments_json(&memory_segments(&ram));
    let mut ram2 = [0xFFu8; 65536];
    load_memory_segments(&mut ram2, &segments_from_json(&text)).unwrap();
    assert_eq!(ram2[0x0000], 0xC3);
    assert_eq!(ram2[0x0001], 0x00);
    assert_eq!(ram2[0x0002], 0x01);
    assert_eq!(ram2[0x0100], 0x3E);
    assert_eq!(ram2[0x0101], 0x41);
    assert_eq!(ram2[0xFFFF], 0x00);
    assert_eq!(ram2[0x0200], 0xFF);
}

#[test]
fn test_save_empty_memory_produces_tiny_file() {
    let ram = [0xFFu8; 65536];
    let contents = segments_json(&memory_segments(&ram));
    assert_eq!(contents.trim(), "[]");
}

#[test]
fn test_load_rejects_odd_length_hex() {
    let segs = segments_from_json(r#"[{"addr":0,"data":"ABC"}]"#);
    let mut ram = [0xFFu8; 65536];
    let result = load_memory_segments(&mut ram, &segs);
    assert!(result.is_err());
    assert_eq!(result.unwrap_err(), LoadError::OddLength { addr: 0 });
}

#[test]
fn memory_segments_are_maximal_runs() {
    let mut ram = [0xFFu8; 65536];
    ram[0x10] = 0x01;
    ram[0x11] = 0xAB;
    ram[0x13] = 0x00;
    let segs = memory_segments(&ram);
    assert_eq!(segs.len(), 2);
    assert_eq!(segs[0].addr, 0x10);
    assert_eq!(segs[0].data, "01AB");
    assert_eq!(segs[1].addr, 0x13);
    assert_eq!(segs[1].data, "00");
}

#[test]
fn load_segments_errors_and_partial_application() {
    let mut ram = [0xFFu8; 65536];
    let segs = vec![
        MemorySegment { addr: 0x20, data: "0a+1".to_string() },
        MemorySegment { addr: 0x30, data: "zz".to_string() },
        MemorySegment { addr: 0x40, data: "11".to_string() },
    ];
    let r = load_memory_segments(&mut ram, &segs);
    assert!(matches!(r, Err(LoadError::BadDigit(_))));
    assert_eq!(ram[0x20], 0x0A);
    assert_eq!(ram[0x21], 0x01);
    assert_eq!(ram[0x40], 0xFF);
    // A segment that would run past 0xFFFF is skipped.
    let mut ram2 = [0xFFu8; 65536];
    let segs2 = vec![MemorySegment { addr: 0xFFFF, data: "0102".to_string() }];
    assert!(load_memory_segments(&mut ram2, &segs2).is_ok());
    assert_eq!(ram2[0xFFFF], 0xFF);
}

#[test]
fn parse_hex8_accepts_prefixes_and_whitespace() {
    assert_eq!(parse_hex8("3E"), Ok(0x3E));
    assert_eq!(parse_hex8("0x3e"), Ok(0x3E));
    assert_eq!(parse_hex8("  0X0A\n"), Ok(0x0A));
    assert_eq!(parse_hex8("0x0x7"), Ok(0x07));
    assert_eq!(parse_hex8("+F"), Ok(0x0F));
    assert_eq!(parse_hex8("00FF"), Ok(0xFF));
}

#[test]
fn parse_hex8_error_messages() {
    assert_eq!(parse_hex8("ZZ"), Err("Invalid hex byte 'ZZ': invalid digit found in string".to_string()));
    assert_eq!(parse_hex8(" 0x "), Err("Invalid hex byte '': cannot parse integer from empty string".to_string()));
    assert_eq!(parse_hex8("100"), Err("Invalid hex byte '100': number too large to fit in target type".to_string()));
    assert_eq!(parse_hex8("-1"), Err("Invalid hex byte '-1': invalid digit found in string".to_string()));
    assert_eq!(parse_hex8("+"), Err("Invalid hex byte '+': invalid digit found in string".to_string()));
}

#[test]
fn parse_hex16_values_and_errors() {
    assert_eq!(parse_hex16("0100"), Ok(0x0100));
    assert_eq!(parse_hex16("0xFFFF"), Ok(0xFFFF));
    assert_eq!(parse_hex16("10000"), Err("Invalid hex address '10000': number too large to fit in target type".to_string()));
    assert_eq!(parse_hex16("12G4"), Err("Invalid hex address '12G4': invalid digit found in string".to_string()));
}

#[test]
fn parse_hex_bytes_splits_on_whitespace() {
    assert_eq!(parse_hex_bytes("3E 41 D3 00"), Ok(vec![0x3E, 0x41, 0xD3, 0x00]));
    assert_eq!(parse_hex_bytes("  0x01\t02\n"), Ok(vec![0x01, 0x02]));
    assert_eq!(parse_hex_bytes(""), Ok(vec![]));
    assert_eq!(parse_hex_bytes("01 XY 02"), Err("Invalid hex byte 'XY': invalid digit found in string".to_string()));
}

fn prog(steps: Vec<PanelStep>) -> PanelProgram {
    PanelProgram { name: "t".to_string(), description: String::new(), steps }
}

#[test]
fn find_program_start_uses_first_addressed_step() {
    let p = prog(vec![
        PanelStep::ExamineNext,
        PanelStep::Examine { address: "0200".to_string() },
        PanelStep::Deposit { address: "0x0100".to_string(), data: "3E".to_string() },
        PanelStep::Run { address: "0000".to_string() },
    ]);
    assert_eq!(find_program_start(&p), Some(0x0100));
    let p2 = prog(vec![PanelStep::Load { address: "zz".to_string(), data: "00".to_string() }]);
    assert_eq!(find_program_start(&p2), None);
    assert_eq!(find_program_start(&prog(vec![])), None);
}

#[test]
fn execute_panel_program_deposits_loads_and_runs() {
    let mut panel = FrontPanel::new();
    let mut bus = ImsaiBus::new();
    let mut cpu = CpuControl { pc: 0, halted: true };
    let p = prog(vec![
        PanelStep::Deposit { address: "0100".to_string(), data: "3E".to_string() },
        PanelStep::DepositNext { data: "41".to_string() },
        PanelStep::Load { address: "0200".to_string(), data: "D3 00 76".to_string() },
        PanelStep::Load { address: "0300".to_string(), data: "bad".to_string() },
        PanelStep::Examine { address: "0200".to_string() },
        PanelStep::ExamineNext,
        PanelStep::Run { address: "0100".to_string() },
    ]);
    run_panel_steps(&mut panel, &mut bus, &mut cpu, &p);
    assert_eq!(bus.mem_read(0x0100), 0x3E);
    assert_eq!(bus.mem_read(0x0101), 0x41);
    assert_eq!(bus.mem_read(0x0200), 0xD3);
    assert_eq!(bus.mem_read(0x0202), 0x76);
    assert_eq!(bus.mem_read(0x0300), 0xFF);
    assert!(panel.is_running());
    assert_eq!(cpu.pc, 0x0100);
    assert!(!cpu.halted);
}

#[test]
fn memory_to_program_chunks_and_restores() {
    let mut emu = Imsai8080::new();
    let bytes: Vec<u8> = (0u8..20).collect();
    emu.load_program(0x1000, &bytes);
    let p = memory_to_program(&emu, 0x1000, 20);
    assert_eq!(p.name, "dump_1000");
    assert_eq!(p.description, "Memory dump from 0x1000, 20 bytes");
    assert_eq!(p.steps.len(), 3);
    match &p.steps[0] {
        PanelStep::Load { address, data } => {
            assert_eq!(address, "1000");
            assert_eq!(data, "00 01 02 03 04 05 06 07 08 09 0A 0B 0C 0D 0E 0F");
        }
        _ => panic!("expected a load step"),
    }
    match &p.steps[1] {
        PanelStep::Load { address, data } => {
            assert_eq!(address, "1010");
            assert_eq!(data, "10 11 12 13");
        }
        _ => panic!("expected a load step"),
    }
    match &p.steps[2] {
        PanelStep::Run { address } => assert_eq!(address, "1000"),
        _ => panic!("expected a run step"),
    }
    let mut panel = FrontPanel::new();
    let mut bus2 = ImsaiBus::new();
    let mut cpu = CpuControl { pc: 0, halted: false };
    run_panel_steps(&mut panel, &mut bus2, &mut cpu, &p);
    for (i, b) in bytes.iter().enumerate() {
        assert_eq!(bus2.mem_read(0x1000 + i as u16), *b);
    }
    assert_eq!(cpu.pc, 0x1000);
    let mut emu2 = Imsai8080::new();
    execute_panel_program(&mut emu2, &p);
    for (i, b) in bytes.iter().enumerate() {
        assert_eq!(emu2.bus.mem_read(0x1000 + i as u16), *b);
    }
    assert_eq!(emu2.cpu.pc, 0x1000);
    assert!(emu2.panel.is_running());
}

#[test]
fn memory_to_program_empty_region() {
    let emu = Imsai8080::new();
    let p = memory_to_program(&emu, 0xFFF0, 0);
    assert_eq!(p.steps.len(), 1);
    assert_eq!(p.description, "Memory dump from 0xFFF0, 0 bytes");
}

fn args(list: &[&str]) -> Vec<String> {
    list.iter().map(|s| s.to_string()).collect()
}

#[test]
fn parse_arg_list_flags_and_values() {
    let a = parse_arg_list(&args(&["imsai", "--load", "prog.bin", "0x0100", "-t", "--disk", "a.dsk", "--script"]));
    assert_eq!(a.load_path.as_deref(), Some("prog.bin"));
    assert_eq!(a.load_addr, 0x0100);
    assert_eq!(a.disk_path.as_deref(), Some("a.dsk"));
    assert!(a.trace);
    assert!(a.script);
    assert!(!a.batch);
    assert!(a.program_path.is_none());
    assert!(a.cmd_text.is_none());
    let b = parse_arg_list(&args(&["imsai", "--load", "x.bin", "zz", "--cmd"]));
    assert_eq!(b.load_addr, 0);
    assert!(b.cmd_text.is_none());
    let c = parse_arg_list(&args(&["imsai", "-b", "--cmd", "DIR\r", "--program", "p.json"]));
    assert!(c.batch);
    assert_eq!(c.cmd_text.as_deref(), Some("DIR\r"));
    assert_eq!(c.program_path.as_deref(), Some("p.json"));
    assert_eq!(c.load_addr, 0);
}

#[test]
fn command_result_holds_message() {
    let r = CommandResult { close: true, ran: false, message: "Quitting.".to_string() };
    assert!(r.close && !r.ran);
    assert_eq!(r.message, "Quitting.");
}

#[test]
fn parse_command_recognizes_words() {
    assert_eq!(parse_command("   "), TuiCommand::Empty);
    assert_eq!(parse_command("HELP"), TuiCommand::Help);
    assert_eq!(parse_command(" ? "), TuiCommand::Help);
    assert_eq!(
        parse_command("load prog.bin 0x0100"),
        TuiCommand::Load { path: "prog.bin".to_string(), addr: 0x0100 }
    );
    assert_eq!(
        parse_command("Load prog.bin"),
        TuiCommand::Load { path: "prog.bin".to_string(), addr: 0 }
    );
    assert_eq!(
        parse_command("load prog.bin 12 34"),
        TuiCommand::Load { path: "prog.bin".to_string(), addr: 0 }
    );
    assert_eq!(parse_command("load"), TuiCommand::Usage { command: "load".to_string() });
    assert_eq!(parse_command("program p.json"), TuiCommand::Program { path: "p.json".to_string() });
    assert_eq!(parse_command("mount  disk.img"), TuiCommand::Mount { path: "".to_string() });
    assert_eq!(parse_command("mount"), TuiCommand::Usage { command: "mount".to_string() });
    assert_eq!(parse_command("Run"), TuiCommand::Go);
    assert_eq!(parse_command("go now"), TuiCommand::Go);
    assert_eq!(parse_command("reset"), TuiCommand::Reset);
    assert_eq!(parse_command("QUIT"), TuiCommand::Quit);
    assert_eq!(parse_command("dir"), TuiCommand::Unknown);
}

#[test]
fn deposit_after_load_patches_and_run_sets_the_pc() {
    let mut emu = Imsai8080::new();
    let prog = PanelProgram {
        name: "patch".to_string(),
        description: String::new(),
        steps: vec![
            PanelStep::Load { address: "0100".to_string(), data: "3E 41 D3 00 C3 00 01".to_string() },
            PanelStep::Deposit { address: "0103".to_string(), data: "42".to_string() },
            PanelStep::Run { address: "0100".to_string() },
        ],
    };
    execute_panel_program(&mut emu, &prog);
    let bytes: Vec<u8> = (0x0100u16..=0x0106).map(|a| emu.bus.mem_read(a)).collect();
    assert_eq!(bytes, vec![0x3E, 0x41, 0xD3, 0x42, 0xC3, 0x00, 0x01]);
    assert_eq!(emu.bus.mem_read(0x0107), 0xFF);
    assert!(emu.panel.is_running());
    assert_eq!(emu.cpu.pc, 0x0100);
}

#[test]
fn memory_image_readable_spots_pairs_cut_inside_characters() {
    let ok = vec![MemorySegment { addr: 0, data: "AB00".to_string() }];
    assert!(memory_image_readable(&ok));
    let cut = vec![MemorySegment { addr: 0, data: "1\u{e9}1".to_string() }];
    assert!(!memory_image_readable(&cut));
    let odd_first = vec![
        MemorySegment { addr: 0, data: "\u{e9}1".to_string() },
        MemorySegment { addr: 0, data: "1\u{e9}1".to_string() },
    ];
    assert!(memory_image_readable(&odd_first));
}
