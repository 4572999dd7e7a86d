use rust_imsai_emulator::cards::front_panel::bool_array_to_u8;
use rust_imsai_emulator::cards::PanelSwitch;
use rust_imsai_emulator::Imsai8080;

#[test]
fn emulator_test_power_on_state() {
    let emu = Imsai8080::new();
    assert!(emu.panel.is_stopped());
    assert!(!emu.panel.is_running());
    assert!(emu.panel.leds().power);
    assert!(emu.panel.leds().wait);
    assert!(!emu.panel.leds().run);
}

#[test]
fn test_front_panel_examine() {
    let mut emu = Imsai8080::new();
    emu.bus.mem_write(0x1234, 0xAB);
    emu.panel.set_address_switches(0x1234);
    emu.panel.press_switch(PanelSwitch::Examine);
    emu.process_panel();
    assert_eq!(bool_array_to_u8(emu.panel.leds().data), 0xAB);
}

#[test]
fn test_front_panel_deposit() {
    let mut emu = Imsai8080::new();
    emu.panel.set_address_switches(0x0100);
    emu.panel.set_data_switches(0x3C);
    emu.panel.press_switch(PanelSwitch::Deposit);
    emu.process_panel();
    assert_eq!(emu.bus.mem_read(0x0100), 0x3C);
}

#[test]
fn test_front_panel_single_step() {
    let mut emu = Imsai8080::new();
    emu.panel.set_address_switches(0x0000);
    emu.panel.set_data_switches(0x00);
    emu.panel.press_switch(PanelSwitch::Deposit);
    emu.process_panel();
    emu.panel.set_address_switches(0x0000);
    emu.single_step();
    assert!(emu.cpu.pc > 0x0000);
}

#[test]
fn test_front_panel_run_and_stop() {
    let mut emu = Imsai8080::new();
    emu.panel.set_address_switches(0x0000);
    emu.panel.set_data_switches(0xC3);
    emu.panel.press_switch(PanelSwitch::Deposit);
    emu.process_panel();
    emu.panel.set_data_switches(0x00);
    emu.panel.press_switch(PanelSwitch::DepositNext);
    emu.process_panel();
    emu.panel.press_switch(PanelSwitch::DepositNext);
    emu.process_panel();
    emu.panel.set_address_switches(0x0000);
    emu.panel.press_switch(PanelSwitch::RunStop);
    emu.process_panel();
    assert!(emu.panel.is_running());
    let count = emu.run_batch(100);
    assert!(count > 0);
    emu.panel.press_switch(PanelSwitch::RunStop);
    emu.process_panel();
    assert!(emu.panel.is_stopped());
}

#[test]
fn test_memory_initializes_to_ff() {
    let mut emu = Imsai8080::new();
    emu.panel.set_address_switches(0x0000);
    emu.panel.press_switch(PanelSwitch::Examine);
    emu.process_panel();
    assert_eq!(bool_array_to_u8(emu.panel.leds().data), 0xFF);
    emu.panel.set_address_switches(0xFFFF);
    emu.panel.press_switch(PanelSwitch::Examine);
    emu.process_panel();
    assert_eq!(bool_array_to_u8(emu.panel.leds().data), 0xFF);
}

#[test]
fn test_uart_program_via_load_program() {
    let mut emu = Imsai8080::new();

    let program: [u8; 15] = [
        0x3E, 0x4E, 0xD3, 0x01, // MVI A,0x4E; OUT 0x01  (UART MODE)
        0x3E, 0x05, 0xD3, 0x01, // MVI A,0x05; OUT 0x01  (UART CMD)
        0x3E, 0x41, 0xD3, 0x00, // MVI A,0x41; OUT 0x00  (TX 'A')
        0xC3, 0x0A, 0x00, // JMP 0x000A
    ];

    emu.load_program(0x0000, &program);

    for (i, &expected) in program.iter().enumerate() {
        let actual = emu.bus.mem_read(i as u16);
        assert_eq!(actual, expected, "Byte at {:04X}: expected {:02X}, got {:02X}", i, expected, actual);
    }

    emu.panel.set_address_switches(0x0000);
    emu.panel.press_switch(PanelSwitch::RunStop);
    emu.process_panel();

    assert!(emu.panel.is_running(), "Panel should be in RUN state");

    let count = emu.run_batch(10000);
    assert!(count > 0, "Should have executed instructions");

    emu.panel.press_switch(PanelSwitch::RunStop);
    emu.process_panel();

    emu.bus.serial().channel_a_mut().drain_tx();
    emu.bus.serial().channel_a_mut().update_tx();
    let output = emu.bus.serial().channel_a_mut().take_output();
    assert!(!output.is_empty(), "UART should have produced output after CPU execution");
    assert!(
        output.iter().any(|&b| b == b'A'),
        "UART output should contain 'A', got: {:?}",
        output.iter().take(20).map(|&b| b as char).collect::<String>()
    );
}

#[test]
fn run_batch_stops_at_halt_and_counts_cycles() {
    let mut emu = Imsai8080::new();
    // MVI A,0x42; HLT
    emu.load_program(0x0000, &[0x3E, 0x42, 0x76]);
    emu.panel.set_address_switches(0x0000);
    emu.panel.press_switch(PanelSwitch::RunStop);
    emu.process_panel();
    let count = emu.run_batch(1000);
    assert_eq!(count, 2);
    assert!(emu.cpu.halt);
    assert_eq!(emu.registers().a, 0x42);
    assert_eq!(emu.cycles, 7 + 7);
    assert_eq!(emu.run_batch(1000), 0);
}

#[test]
fn run_batch_does_nothing_when_stopped() {
    let mut emu = Imsai8080::new();
    emu.load_program(0x0000, &[0x00, 0x00, 0x00]);
    assert_eq!(emu.run_batch(10), 0);
    assert_eq!(emu.cpu.pc, 0);
}

#[test]
fn step_writes_memory_through_the_core() {
    let mut emu = Imsai8080::new();
    // LXI H,0x2000; MVI M,0x5A
    emu.load_program(0x0000, &[0x21, 0x00, 0x20, 0x36, 0x5A]);
    emu.step();
    emu.step();
    assert_eq!(emu.bus.mem_read(0x2000), 0x5A);
    assert_eq!(emu.cpu.pc, 5);
}

#[test]
fn in_instruction_reads_the_console_status() {
    let mut emu = Imsai8080::new();
    // IN 0x01; HLT
    emu.load_program(0x0000, &[0xDB, 0x01, 0x76]);
    emu.step();
    let status = emu.registers().a;
    let mut emu2 = Imsai8080::new();
    assert_eq!(status, emu2.bus.io_in(0x01));
}

#[test]
fn terminal_batch_runs_until_halt() {
    let mut emu = Imsai8080::new();
    emu.load_program(0x0000, &[0x00, 0x00, 0x76, 0x00]);
    assert_eq!(emu.run_terminal_batch(5000), 3);
    assert!(emu.cpu.halt);
    assert_eq!(emu.run_terminal_batch(0), 1);
}

#[test]
fn process_panel_sets_the_core_pc() {
    let mut emu = Imsai8080::new();
    emu.panel.set_address_switches(0x1234);
    emu.panel.press_switch(PanelSwitch::Examine);
    emu.process_panel();
    assert_eq!(emu.cpu.pc, 0x1234);
    assert_eq!(emu.control().pc, 0x1234);
}

#[test]
fn power_on_registers_are_zero_with_flag_bit_one() {
    let emu = Imsai8080::new();
    let r = emu.registers();
    assert_eq!((r.a, r.b, r.c, r.d, r.e, r.h, r.l), (0, 0, 0, 0, 0, 0, 0));
    assert_eq!((r.sp, r.pc, r.flags, r.halt), (0, 0, 0x02, false));
}

#[test]
fn register_setters_change_only_their_fields() {
    let mut emu = Imsai8080::new();
    emu.set_pc_sp(0x0100, 0xF000);
    assert_eq!((emu.cpu.pc, emu.cpu.sp), (0x0100, 0xF000));
    emu.cpu.halt = true;
    assert!(emu.control().halted);
    emu.resume();
    assert!(!emu.cpu.halt);
    assert_eq!(emu.cpu.pc, 0x0100);
    emu.cpu.halt = true;
    emu.set_pc(0x0200);
    assert_eq!((emu.cpu.pc, emu.cpu.sp, emu.cpu.halt), (0x0200, 0xF000, false));
}

#[test]
fn registers_survive_between_steps() {
    let mut emu = Imsai8080::new();
    // MVI B,0x11; MVI C,0x22; MOV A,B; ADD C (A = 0x33, flags: parity even)
    emu.load_program(0x0000, &[0x06, 0x11, 0x0E, 0x22, 0x78, 0x81]);
    for _ in 0..4 {
        emu.step();
    }
    let r = emu.registers();
    assert_eq!((r.a, r.b, r.c, r.pc), (0x33, 0x11, 0x22, 6));
    assert_eq!(r.flags, 0x06);
}

#[test]
fn halted_run_batch_leaves_the_machine_alone() {
    let mut emu = Imsai8080::new();
    emu.load_program(0x0000, &[0x76]);
    emu.panel.press_switch(PanelSwitch::RunStop);
    emu.process_panel();
    emu.cpu.halt = true;
    let before = emu.bus.mem_read(0x0000);
    assert_eq!(emu.run_batch(10), 0);
    assert_eq!(emu.cpu.pc, 0);
    assert_eq!(emu.cycles, 0);
    assert_eq!(emu.bus.mem_read(0x0000), before);
}

#[test]
fn run_batch_of_zero_runs_nothing() {
    let mut emu = Imsai8080::new();
    emu.load_program(0x0000, &[0x00, 0x00, 0x76]);
    emu.panel.press_switch(PanelSwitch::RunStop);
    emu.process_panel();
    assert_eq!(emu.run_batch(0), 0);
    assert_eq!(emu.cpu.pc, 0);
    assert_eq!(emu.run_batch(1), 1);
    assert_eq!(emu.cpu.pc, 1);
}

#[test]
fn instruction_running_off_the_top_halts_instead() {
    let mut emu = Imsai8080::new();
    // NOP at 0xFFFF: the PC would step past the address space.
    emu.load_program(0xFFFF, &[0x00]);
    emu.set_pc(0xFFFF);
    assert_eq!(emu.step(), 0);
    assert!(emu.cpu.halt);
    assert_eq!(emu.cpu.pc, 0xFFFF);
    // MVI A,0x12 at 0xFFFD still fits.
    let mut emu = Imsai8080::new();
    emu.load_program(0xFFFD, &[0x3E, 0x12]);
    emu.set_pc(0xFFFD);
    assert_eq!(emu.step(), 7);
    assert_eq!(emu.cpu.a, 0x12);
    assert_eq!(emu.cpu.pc, 0xFFFF);
}

#[test]
fn push_with_stack_pointer_one_halts_instead() {
    let mut emu = Imsai8080::new();
    // PUSH B with SP = 1 would store at 0xFFFF and 0x10000.
    emu.load_program(0x0000, &[0xC5]);
    emu.set_pc_sp(0x0000, 0x0001);
    emu.step();
    assert!(emu.cpu.halt);
    assert_eq!(emu.cpu.sp, 1);
    // POP B with SP = 0 wraps to 2 as the core does.
    let mut emu = Imsai8080::new();
    emu.load_program(0x0000, &[0xC1]);
    emu.step();
    assert!(!emu.cpu.halt);
    assert_eq!(emu.cpu.sp, 2);
}

#[test]
fn single_step_shows_the_new_pc() {
    let mut emu = Imsai8080::new();
    emu.load_program(0x0100, &[0x00, 0x00]);
    emu.panel.set_address_switches(0x0100);
    emu.panel.press_switch(PanelSwitch::Examine);
    emu.process_panel();
    assert_eq!(emu.cpu.pc, 0x0100);
    emu.single_step();
    assert_eq!(emu.cpu.pc, 0x0101);
    assert_eq!(emu.panel.address_switches(), 0x0101);
    assert!(emu.panel.leds().m1);
}

#[test]
fn out_and_in_go_through_the_bus() {
    let mut emu = Imsai8080::new();
    // MVI A,0x4E; OUT 0x03; MVI A,0x37; OUT 0x03; IN 0x03; HLT
    emu.load_program(0x0000, &[0x3E, 0x4E, 0xD3, 0x03, 0x3E, 0x37, 0xD3, 0x03, 0xDB, 0x03, 0x76]);
    for _ in 0..5 {
        emu.step();
    }
    let mut fresh = Imsai8080::new();
    fresh.bus.io_out(0x03, 0x4E);
    fresh.bus.io_out(0x03, 0x37);
    assert_eq!(emu.cpu.a, fresh.bus.io_in(0x03));
}
