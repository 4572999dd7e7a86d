use rust_imsai_emulator::trace::{
    dump_memory, dump_memory_eprint, key_memory_areas, run_diag, run_interactive, run_pc_trace,
    run_scripted, run_step_trace, run_trace, run_verbose_trace, unescape_command_text,
};
use rust_imsai_emulator::Imsai8080;

/// LXI SP,0x2000; MVI A,0x41; OUT 0x00; HLT
fn small_program() -> Imsai8080 {
    let mut emu = Imsai8080::new();
    emu.load_program(0x0000, &[0x31, 0x00, 0x20, 0x3E, 0x41, 0xD3, 0x00, 0x76]);
    emu
}

#[test]
fn dump_memory_formats_rows_of_sixteen() {
    let mut emu = Imsai8080::new();
    let bytes: Vec<u8> = (0u8..20).collect();
    emu.load_program(0x0100, &bytes);
    assert_eq!(
        dump_memory(&emu, 0x0100, 20, "TPA"),
        "\n0x0100: TPA = 00 01 02 03 04 05 06 07 08 09 0A 0B 0C 0D 0E 0F \n        10 11 12 13 \n"
    );
    assert_eq!(dump_memory_eprint(&emu, 0x0000, 3, "Vectors"), "0x0000: Vectors = FF FF FF \n");
    assert_eq!(dump_memory(&emu, 0xFFFF, 2, "Wrap"), "\n0xFFFF: Wrap = FF FF \n");
}

#[test]
fn step_trace_lists_each_instruction() {
    let mut emu = small_program();
    let out = run_step_trace(&mut emu, 10);
    let expected = "=== STEP TRACE (10 instructions) ===\n".to_string()
        + "     0: PC=0x0000 LXI SP,0x2000        A=0x00 C=0x00 SP=0x0000\n"
        + "     1: PC=0x0003 0x3E                 A=0x00 C=0x00 SP=0x2000\n"
        + "     2: PC=0x0005 OUT 0x00,A=0x41      A=0x41 C=0x00 SP=0x2000\n"
        + "     3: PC=0x0007 0x76                 A=0x41 C=0x00 SP=0x2000\n"
        + "\nStopped at PC=0x0008 after 4 instructions\n";
    assert_eq!(out, expected);
}

#[test]
fn step_trace_stops_at_the_limit() {
    let mut emu = Imsai8080::new();
    emu.load_program(0x0000, &[0x00, 0x00, 0x00, 0x00]);
    let out = run_step_trace(&mut emu, 2);
    assert!(out.ends_with("\nStopped at PC=0x0002 after 2 instructions\n"));
    assert!(out.contains("     1: PC=0x0001 NOP                  A=0x00"));
}

#[test]
fn trace_reports_where_it_stopped_and_the_screen() {
    let mut emu = small_program();
    let out = run_trace(&mut emu, 50);
    let expected = format!(
        "Tracing 50 instructions from PC=0x0000...\nStopped at PC=0x0008 after 4 instructions\n\nDisplay:\n{}\n",
        emu.bus.display_text()
    );
    assert_eq!(out, expected);
}

#[test]
fn diag_logs_io_and_final_state() {
    let mut emu = small_program();
    let out = run_diag(&mut emu, 50);
    assert!(out.starts_with("=== DIAGNOSTIC TRACE (50 instructions) ===\n\n=== I/O LOG (first 50) ===\n"));
    assert!(out.contains("    0: 00000003 OUT 0x00 A=0x41\n"));
    assert!(out.contains("\n=== PC SNAPSHOTS ===\n\n=== FINAL STATE ===\nPC=0x0008 SP=0x2000 A=0x41\n"));
    assert!(out.contains("0x0000: 31 00 20\n0x0005: D3 00 76\n"));
}

#[test]
fn pc_trace_sections() {
    let mut emu = small_program();
    let out = run_pc_trace(&mut emu, 100);
    assert!(out.starts_with("=== PC TRACE (100 instructions, ring=8192) ===\n\n=== FIRST 4 INSTRUCTIONS ===\n"));
    assert!(out.contains(
        "       1: PC=0000 LXI SP,0x2000                  A=00 BC=0000 DE=0000 HL=0000 SP=0000 F=02\n"
    ));
    assert!(out.contains("\n=== REGION TRANSITIONS ===\n\n=== LAST 4 INSTRUCTIONS (non-NOP only) ===\n"));
    // The column after OUT shows the port and its name, the A= column the accumulator.
    assert!(out.contains("    0: 00000003 OUT 0x00 CON_DATA   A=0x41\n"), "{}", out);
    assert!(out.contains("\n=== CALL 5 SUMMARY ===\n  Total CALL 5 calls: 0\n"));
    assert!(out.contains("PC=0x0008 SP=0x2000 A=0x41 BC=0x0000 DE=0x0000 HL=0x0000\n"));
    assert!(out.ends_with("0x0000: 31 00 20   (reset vector)\n0x0005: D3 00 76   (CALL 5 vector)\n"));
}

#[test]
fn pc_trace_folds_nops_and_notes_regions() {
    let mut emu = Imsai8080::new();
    // NOP; NOP; JMP 0x0100; at 0x0100: CALL 0x0005 with C=9; 0x0005: HLT
    emu.load_program(0x0000, &[0x00, 0x00, 0xC3, 0x00, 0x01, 0x76]);
    emu.load_program(0x0100, &[0x0E, 0x09, 0x31, 0x00, 0x30, 0xCD, 0x05, 0x00]);
    let out = run_pc_trace(&mut emu, 100);
    assert!(out.contains("  ... 2 NOP instructions ...\n"));
    assert!(out.contains("PC=0x0100 ZEROPAGE -> USER    \n"));
    assert!(out.contains("PC=0x0005 USER     -> ZEROPAGE\n"));
    assert!(out.contains("  Total CALL 5 calls: 1\n  Last function number in C: 0x09\n"));
    assert!(out.contains("  (none - no IN/OUT instructions executed)\n"));
}

#[test]
fn verbose_trace_echoes_console_output() {
    let mut emu = small_program();
    let out = run_verbose_trace(&mut emu, 100);
    assert_eq!(out, "A\nStopped at PC=0x0008 after 4 instructions\n");
}

#[test]
fn interactive_batch_reports_screen_and_dumps() {
    let mut emu = Imsai8080::new();
    emu.load_program(0x0000, &[0x76]);
    let out = run_interactive(&mut emu, 100);
    assert!(emu.panel.is_running());
    let expected = "IMSAI 8080 (100 instructions)\n".to_string()
        + "\nStopped at PC=0x0001 after 1 instructions\n"
        + "\n(no display output)\n"
        + "\n=== MEMORY DUMP ===\n"
        + &dump_memory(&emu, 0x0000, 8, "Vectors")
        + &dump_memory(&emu, 0x0100, 16, "TPA start")
        + &dump_memory(&emu, 0xFF00, 32, "High RAM");
    assert_eq!(out, expected);
}

#[test]
fn scripted_run_captures_console_bytes() {
    let mut emu = Imsai8080::new();
    // MVI A,0x41; OUT 0; MVI A,0x0D; OUT 0; MVI A,0x01; OUT 0x7B; MVI A,0x08; OUT 0; HLT
    emu.load_program(
        0x0000,
        &[0x3E, 0x41, 0xD3, 0x00, 0x3E, 0x0D, 0xD3, 0x00, 0x3E, 0x01, 0xD3, 0x7B, 0x3E, 0x08, 0xD3, 0x00, 0x76],
    );
    let run = run_scripted(&mut emu, None, 1000);
    assert_eq!(run.output, "A\r[0x01]\x08 \x08");
    assert_eq!(run.count, 9);
    assert_eq!(run.final_pc, 0x0011);
    assert_eq!(run.disk_log, "");
}

#[test]
fn scripted_run_logs_disk_reads() {
    let mut emu = Imsai8080::new();
    // MVI A,0x80; OUT 0x48; HLT
    emu.load_program(0x0000, &[0x3E, 0x80, 0xD3, 0x48, 0x76]);
    let run = run_scripted(&mut emu, Some("dir\\r"), 100);
    assert_eq!(run.disk_log, "DISK READ: track=0, sector=1\n");
    assert!(emu.bus.serial().is_key_ready());
}

#[test]
fn key_memory_areas_text() {
    let emu = small_program();
    assert_eq!(
        key_memory_areas(&emu),
        "\n=== KEY MEMORY AREAS ===\n".to_string()
            + &dump_memory_eprint(&emu, 0x0000, 8, "Vectors")
            + &dump_memory_eprint(&emu, 0x0005, 3, "CALL 5 vector")
            + &dump_memory_eprint(&emu, 0x0100, 32, "TPA (0x0100)")
    );
}

#[test]
fn command_text_escapes() {
    assert_eq!(unescape_command_text("dir\\r"), "dir\r");
    assert_eq!(unescape_command_text("a\\nb\\r"), "a\nb\r");
    assert_eq!(unescape_command_text("\\\\r"), "\\\r");
    assert_eq!(unescape_command_text("\\x"), "\\x");
    assert_eq!(unescape_command_text(""), "");
}

#[test]
fn pc_trace_names_the_port_column() {
    let mut emu = Imsai8080::new();
    // MVI A,0x01; OUT 0x00; HLT
    emu.load_program(0x0000, &[0x3E, 0x01, 0xD3, 0x00, 0x76]);
    let out = run_pc_trace(&mut emu, 100);
    assert!(out.contains("    0: 00000002 OUT 0x00 CON_DATA   A=0x01\n"), "{}", out);
}

#[test]
fn pc_trace_ring_keeps_the_last_8192() {
    let mut emu = Imsai8080::new();
    // NOP; NOP; NOP; JMP 0x0000
    emu.load_program(0x0000, &[0x00, 0x00, 0x00, 0xC3, 0x00, 0x00]);
    let out = run_pc_trace(&mut emu, 10_000);
    assert!(out.contains("\n=== FIRST 200 INSTRUCTIONS ===\n"));
    assert!(out.contains("\n=== LAST 8192 INSTRUCTIONS (non-NOP only) ===\n"));
    // Step 10000 is the 4th of its group of four: the JMP; 1809 is the first kept.
    assert!(out.contains("   10000: PC=0003 JMP 0x0000"));
    assert!(!out.contains("    1808: PC=0003"));
    assert!(out.contains("    1812: PC=0003 JMP 0x0000"));
    assert!(out.contains("  ... 3 NOP instructions ...\n"));
}
