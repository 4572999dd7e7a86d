use rust_imsai_emulator::emulator::CoreRegisters;
use rust_imsai_emulator::program::{PanelProgram, PanelStep};
use rust_imsai_emulator::tui::{
    idle_update, modal_key_action, render_bottom_row, render_screen, run_command, run_load_command,
    run_mount_command, run_program_command, status_anchor_row, terminal_key_action, BottomMode, KeyAction,
    KeyCodeKind, KeyMods, ModalAction, TermKey, TuiCommand,
};
use rust_imsai_emulator::{DiskImage, Imsai8080};

fn regs() -> CoreRegisters {
    CoreRegisters {
        a: 0x41,
        b: 0x01,
        c: 0x02,
        d: 0x03,
        e: 0x04,
        h: 0x05,
        l: 0x06,
        sp: 0xF000,
        pc: 0x0100,
        flags: 0x02,
        halt: false,
    }
}

fn key(code: KeyCodeKind, mods: KeyMods) -> TermKey {
    TermKey { code, mods }
}

#[test]
fn anchor_row_is_last_row() {
    assert_eq!(status_anchor_row(24), 24);
    assert_eq!(status_anchor_row(0), 1);
}

#[test]
fn status_bar_shows_state_and_registers() {
    let out = render_bottom_row(&regs(), "hello", BottomMode::Status, true, "", None, 200, 24);
    assert_eq!(
        out,
        "\x1B[24;1H\x1B[2K\x1B[7m RUN  PC:0100 SP:F000 A:41 B:01 C:02 D:03 E:04 H:05 L:06  hello  F5=run/stop  Ctrl+K=cmd  Ctrl+D=exit \x1B[0m"
    );
    let mut halted = regs();
    halted.halt = true;
    let cut = render_bottom_row(&halted, "", BottomMode::Status, true, "", None, 10, 24);
    assert_eq!(cut, "\x1B[24;1H\x1B[2K\x1B[7m HALT PC:0\x1B[0m");
    let stopped = render_bottom_row(&regs(), "", BottomMode::Status, false, "", None, 6, 0);
    assert_eq!(stopped, "\x1B[1;1H\x1B[2K\x1B[7m STOP \x1B[0m");
}

#[test]
fn prompt_row_with_message() {
    let out = render_bottom_row(&regs(), "x", BottomMode::Prompt, false, "load a.bin", Some("Usage: mount <file>"), 8, 24);
    assert_eq!(out, "\x1B[23;1H\x1B[2KUsage: m\x1B[24;1H\x1B[2K> load ");
    let bare = render_bottom_row(&regs(), "x", BottomMode::Prompt, false, "go", None, 80, 1);
    assert_eq!(bare, "\x1B[1;1H\x1B[2K> go");
}

#[test]
fn screen_lines_fit_the_terminal() {
    let out = render_screen("ab\ncd\r\nef\n\n", 80, 24);
    assert_eq!(out, "\x1B[1;1Hab\x1B[K\x1B[2;1Hcd\x1B[K\x1B[3;1Hef\x1B[K");
    let cut = render_screen("abcdef\nxyz\n", 3, 2);
    assert_eq!(cut, "\x1B[1;1Habc\x1B[K");
    assert_eq!(render_screen("", 80, 24), "");
    assert_eq!(render_screen("a\n\nb", 80, 24), "\x1B[1;1Ha\x1B[K\x1B[2;1H\x1B[K\x1B[3;1Hb\x1B[K");
}

#[test]
fn running_keys() {
    assert_eq!(terminal_key_action(key(KeyCodeKind::Esc, KeyMods::Plain)), KeyAction::Type("\x1B".to_string()));
    assert_eq!(terminal_key_action(key(KeyCodeKind::F(5), KeyMods::Plain)), KeyAction::ToggleRun);
    assert_eq!(terminal_key_action(key(KeyCodeKind::F(6), KeyMods::Plain)), KeyAction::Nothing);
    assert_eq!(terminal_key_action(key(KeyCodeKind::Char('d'), KeyMods::Control)), KeyAction::Exit);
    assert_eq!(terminal_key_action(key(KeyCodeKind::Char('k'), KeyMods::Control)), KeyAction::Command);
    assert_eq!(terminal_key_action(key(KeyCodeKind::Char('c'), KeyMods::Control)), KeyAction::Type("\x03".to_string()));
    assert_eq!(terminal_key_action(key(KeyCodeKind::Char('@'), KeyMods::Control)), KeyAction::Nothing);
    assert_eq!(terminal_key_action(key(KeyCodeKind::Char('a'), KeyMods::Plain)), KeyAction::Type("A".to_string()));
    assert_eq!(terminal_key_action(key(KeyCodeKind::Char('d'), KeyMods::Shift)), KeyAction::Type("D".to_string()));
    assert_eq!(terminal_key_action(key(KeyCodeKind::Char('1'), KeyMods::Plain)), KeyAction::Type("1".to_string()));
    assert_eq!(terminal_key_action(key(KeyCodeKind::Char('ß'), KeyMods::Plain)), KeyAction::Type("SS".to_string()));
    assert_eq!(terminal_key_action(key(KeyCodeKind::Enter, KeyMods::Plain)), KeyAction::Type("\r".to_string()));
    assert_eq!(terminal_key_action(key(KeyCodeKind::Backspace, KeyMods::Plain)), KeyAction::Type("\x7F".to_string()));
    assert_eq!(terminal_key_action(key(KeyCodeKind::Tab, KeyMods::Plain)), KeyAction::Type("\t".to_string()));
    assert_eq!(terminal_key_action(key(KeyCodeKind::Other, KeyMods::Plain)), KeyAction::Nothing);
}

#[test]
fn prompt_keys() {
    assert_eq!(modal_key_action(key(KeyCodeKind::Esc, KeyMods::Plain)), ModalAction::Close);
    assert_eq!(modal_key_action(key(KeyCodeKind::Char('k'), KeyMods::Control)), ModalAction::Close);
    assert_eq!(modal_key_action(key(KeyCodeKind::Char('d'), KeyMods::Control)), ModalAction::Close);
    assert_eq!(modal_key_action(key(KeyCodeKind::Char('x'), KeyMods::Control)), ModalAction::Ignore);
    assert_eq!(modal_key_action(key(KeyCodeKind::Enter, KeyMods::Plain)), ModalAction::Submit);
    assert_eq!(modal_key_action(key(KeyCodeKind::Backspace, KeyMods::Plain)), ModalAction::Erase);
    assert_eq!(modal_key_action(key(KeyCodeKind::Char('q'), KeyMods::Plain)), ModalAction::Insert('q'));
    assert_eq!(modal_key_action(key(KeyCodeKind::Char('Q'), KeyMods::Shift)), ModalAction::Insert('Q'));
    assert_eq!(modal_key_action(key(KeyCodeKind::Char('q'), KeyMods::Other)), ModalAction::Ignore);
    assert_eq!(modal_key_action(key(KeyCodeKind::Tab, KeyMods::Plain)), ModalAction::Ignore);
}

#[test]
fn idle_counting() {
    assert_eq!(idle_update(true, false, 0xDB, 0x01, 50), (0, false));
    assert_eq!(idle_update(false, false, 0xDB, 0x01, 50), (51, false));
    assert_eq!(idle_update(false, false, 0xDB, 0x01, 100), (101, true));
    assert_eq!(idle_update(false, true, 0xDB, 0x01, 100), (0, false));
    assert_eq!(idle_update(false, false, 0xDB, 0x02, 100), (0, false));
}

#[test]
fn commands_without_files() {
    let mut emu = Imsai8080::new();
    let mut name = "prog".to_string();
    let r = run_command(&mut emu, &TuiCommand::Help, &mut name);
    assert!(!r.close && !r.ran);
    assert_eq!(r.message, "Commands: load <file> [addr]  program <file.json>  mount <file>  go  run  reset  quit");
    let r = run_command(&mut emu, &TuiCommand::Usage { command: "load".to_string() }, &mut name);
    assert_eq!(r.message, "Usage: load <file> [addr]");
    let r = run_command(&mut emu, &TuiCommand::Usage { command: "program".to_string() }, &mut name);
    assert_eq!(r.message, "Usage: program <file.json>");
    let r = run_command(&mut emu, &TuiCommand::Usage { command: "mount".to_string() }, &mut name);
    assert_eq!(r.message, "Usage: mount <file>");
    let r = run_command(&mut emu, &TuiCommand::Empty, &mut name);
    assert!(!r.close);
    assert_eq!(r.message, "");
    let r = run_command(&mut emu, &TuiCommand::Unknown, &mut name);
    assert_eq!(r.message, "Unknown command. Type 'help' for the list.");
    let r = run_command(&mut emu, &TuiCommand::Quit, &mut name);
    assert!(r.close && !r.ran);
    assert_eq!(r.message, "Quitting.");
    emu.cpu.halt = true;
    let r = run_command(&mut emu, &TuiCommand::Go, &mut name);
    assert!(r.close && r.ran);
    assert_eq!(r.message, "Resuming execution. Press Ctrl+K to pause.");
    assert!(!emu.cpu.halt);
    assert_eq!(name, "prog");
    emu.bus.mem_write(0x10, 0x00);
    let r = run_command(&mut emu, &TuiCommand::Reset, &mut name);
    assert!(!r.close);
    assert_eq!(r.message, "Cold reset. Memory cleared, CPU at 0x0000.");
    assert_eq!(name, "");
    assert_eq!(emu.bus.mem_read(0x10), 0xFF);
    assert_eq!(emu.cpu.pc, 0);
}

#[test]
fn load_command() {
    let mut emu = Imsai8080::new();
    let mut name = String::new();
    emu.cpu.halt = true;
    let r = run_load_command(&mut emu, "a.bin", 0x0200, Ok(vec![1, 2, 3]), &mut name);
    assert!(r.close && r.ran);
    assert_eq!(r.message, "Loaded 3 bytes at 0x0200");
    assert_eq!(name, "a.bin");
    assert_eq!(emu.bus.mem_read(0x0201), 2);
    assert_eq!(emu.cpu.pc, 0x0200);
    assert!(!emu.cpu.halt);
    let r = run_load_command(&mut emu, "b.bin", 0, Err("No such file or directory (os error 2)".to_string()), &mut name);
    assert!(!r.close);
    assert_eq!(r.message, "Error: No such file or directory (os error 2)");
    assert_eq!(name, "a.bin");
}

#[test]
fn program_command() {
    let mut emu = Imsai8080::new();
    let mut name = String::new();
    let prog = PanelProgram {
        name: "blink".to_string(),
        description: String::new(),
        steps: vec![
            PanelStep::Load { address: "0040".to_string(), data: "3E 01 76".to_string() },
            PanelStep::Run { address: "0040".to_string() },
        ],
    };
    let r = run_program_command(&mut emu, Ok(prog), &mut name);
    assert!(r.close);
    assert_eq!(r.message, "Running blink (PC=0040)...");
    assert_eq!(name, "blink");
    assert_eq!(emu.bus.mem_read(0x0041), 0x01);
    assert_eq!(emu.cpu.pc, 0x0040);
    assert!(emu.panel.is_running());
    let r = run_program_command(&mut emu, Err("Failed to read x.json: gone".to_string()), &mut name);
    assert!(!r.close);
    assert_eq!(r.message, "Error: Failed to read x.json: gone");
}

#[test]
fn mount_command() {
    let mut emu = Imsai8080::new();
    let r = run_mount_command(&mut emu, "cpm.dsk", Ok(DiskImage::new_formatted()));
    assert!(r.close);
    assert_eq!(r.message, "Disk mounted in drive A: cpm.dsk");
    assert!(emu.bus.tarbell().has_disk(0));
    let r = run_mount_command(&mut emu, "x.dsk", DiskImage::from_bytes(vec![0; 10]));
    assert!(!r.close);
    assert_eq!(r.message, "Error: Disk image size mismatch: expected 256256 bytes, got 10");
}

#[test]
fn non_ascii_keys_type_their_unicode_capitals() {
    assert_eq!(terminal_key_action(key(KeyCodeKind::Char('é'), KeyMods::Plain)), KeyAction::Type("É".to_string()));
    assert_eq!(terminal_key_action(key(KeyCodeKind::Char('ß'), KeyMods::Plain)), KeyAction::Type("SS".to_string()));
}
