use rust_imsai_emulator::bus::ImsaiBus;
use rust_imsai_emulator::cards::front_panel::{
    bool_array_to_u16, bool_array_to_u8, u16_to_bool_array, u8_to_bool_array,
};
use rust_imsai_emulator::cards::{CpuControl, FrontPanel, PanelSwitch, RunState};

fn cpu() -> CpuControl {
    CpuControl { pc: 0, halted: false }
}

#[test]
fn front_panel_test_power_on_state() {
    let panel = FrontPanel::new();
    assert_eq!(panel.run_state(), RunState::Stopped);
    assert!(!panel.is_running());
    assert!(panel.is_stopped());
    assert_eq!(panel.address_switches(), 0);
    assert_eq!(panel.data_switches(), 0);
    assert!(panel.leds().power);
    assert!(!panel.leds().run);
    assert!(panel.leds().wait);
}

#[test]
fn test_set_address_switches() {
    let mut panel = FrontPanel::new();
    panel.set_address_switches(0x1234);
    assert_eq!(panel.address_switches(), 0x1234);
    assert_eq!(bool_array_to_u16(panel.leds().address), 0x1234);
}

#[test]
fn test_set_data_switches() {
    let mut panel = FrontPanel::new();
    panel.set_data_switches(0xAB);
    assert_eq!(panel.data_switches(), 0xAB);
    assert_eq!(bool_array_to_u8(panel.leds().data), 0x00);
}

#[test]
fn test_examine_reads_memory() {
    let mut panel = FrontPanel::new();
    let mut bus = ImsaiBus::new();
    let mut cpu = cpu();
    bus.mem_write(0x00FF, 0x42);
    panel.set_address_switches(0x00FF);
    panel.press_switch(PanelSwitch::Examine);
    panel.process_actions(&mut bus, &mut cpu);
    assert_eq!(bool_array_to_u8(panel.leds().data), 0x42);
    assert_eq!(bool_array_to_u16(panel.leds().address), 0x00FF);
    assert!(panel.leds().memr);
}

#[test]
fn test_deposit_writes_memory() {
    let mut panel = FrontPanel::new();
    let mut bus = ImsaiBus::new();
    let mut cpu = cpu();
    panel.set_address_switches(0x0100);
    panel.set_data_switches(0x3C);
    panel.press_switch(PanelSwitch::Deposit);
    panel.process_actions(&mut bus, &mut cpu);
    assert!(panel.leds().mwrt);
    panel.set_data_switches(0x00);
    panel.press_switch(PanelSwitch::Examine);
    panel.process_actions(&mut bus, &mut cpu);
    assert_eq!(bool_array_to_u8(panel.leds().data), 0x3C);
    assert_eq!(bus.mem_read(0x0100), 0x3C);
}

#[test]
fn test_examine_next_auto_increments() {
    let mut panel = FrontPanel::new();
    let mut bus = ImsaiBus::new();
    let mut cpu = cpu();
    bus.mem_write(0x0200, 0xAA);
    bus.mem_write(0x0201, 0xBB);
    panel.set_address_switches(0x0200);
    panel.press_switch(PanelSwitch::Examine);
    panel.process_actions(&mut bus, &mut cpu);
    assert_eq!(bool_array_to_u8(panel.leds().data), 0xAA);
    panel.press_switch(PanelSwitch::ExamineNext);
    panel.process_actions(&mut bus, &mut cpu);
    assert_eq!(bool_array_to_u8(panel.leds().data), 0xBB);
    assert_eq!(panel.address_switches(), 0x0201);
}

#[test]
fn test_deposit_next_auto_increments() {
    let mut panel = FrontPanel::new();
    let mut bus = ImsaiBus::new();
    let mut cpu = cpu();
    panel.set_address_switches(0x0300);
    panel.set_data_switches(0x11);
    panel.press_switch(PanelSwitch::Deposit);
    panel.process_actions(&mut bus, &mut cpu);
    panel.set_data_switches(0x22);
    panel.press_switch(PanelSwitch::DepositNext);
    panel.process_actions(&mut bus, &mut cpu);
    assert_eq!(bus.mem_read(0x0300), 0x11);
    assert_eq!(bus.mem_read(0x0301), 0x22);
    assert_eq!(panel.address_switches(), 0x0301);
}

#[test]
fn test_run_stop_toggle() {
    let mut panel = FrontPanel::new();
    let mut bus = ImsaiBus::new();
    let mut cpu = cpu();
    assert!(panel.is_stopped());
    assert!(panel.leds().wait);
    panel.set_address_switches(0x0100);
    panel.press_switch(PanelSwitch::RunStop);
    let should_run = panel.process_actions(&mut bus, &mut cpu);
    assert!(panel.is_running());
    assert!(should_run);
    assert_eq!(cpu.pc, 0x0100);
    assert!(!panel.leds().wait);
    panel.press_switch(PanelSwitch::RunStop);
    let should_run = panel.process_actions(&mut bus, &mut cpu);
    assert!(panel.is_stopped());
    assert!(!should_run);
    assert!(panel.leds().wait);
}

#[test]
fn test_single_step_returns_stopped() {
    let mut panel = FrontPanel::new();
    let mut bus = ImsaiBus::new();
    let mut cpu = cpu();
    panel.press_switch(PanelSwitch::SingleStep);
    let should_run = panel.process_actions(&mut bus, &mut cpu);
    assert!(panel.is_stopped());
    assert!(!should_run);
}

#[test]
fn test_address_leds_mirror_switches_in_stop_mode() {
    let mut panel = FrontPanel::new();
    panel.set_address_switches(0xBEEF);
    panel.set_data_switches(0xDE);
    assert_eq!(bool_array_to_u16(panel.leds().address), 0xBEEF);
    assert_eq!(bool_array_to_u8(panel.leds().data), 0x00);
}

#[test]
fn test_deposit_writes_latched_address_while_data_changes() {
    let mut panel = FrontPanel::new();
    let mut bus = ImsaiBus::new();
    let mut cpu = cpu();
    panel.set_address_switches(0x0100);
    panel.press_switch(PanelSwitch::Examine);
    panel.process_actions(&mut bus, &mut cpu);
    for _ in 0..3 {
        panel.set_data_switches(0x3E);
        panel.process_actions(&mut bus, &mut cpu);
    }
    assert_eq!(panel.address_switches(), 0x0100, "address must stay latched");
    panel.press_switch(PanelSwitch::Deposit);
    panel.process_actions(&mut bus, &mut cpu);
    assert_eq!(bus.mem_read(0x0100), 0x3E);
    panel.set_data_switches(0xC9);
    panel.press_switch(PanelSwitch::DepositNext);
    panel.process_actions(&mut bus, &mut cpu);
    assert_eq!(bus.mem_read(0x0101), 0xC9);
    assert_eq!(panel.address_switches(), 0x0101);
}

#[test]
fn test_examine_sets_pc_then_single_step_advances() {
    let mut panel = FrontPanel::new();
    let mut bus = ImsaiBus::new();
    let mut cpu = cpu();
    bus.mem_write(0x0100, 0x00);
    bus.mem_write(0x0101, 0x00);
    panel.set_address_switches(0x0100);
    panel.press_switch(PanelSwitch::Examine);
    panel.process_actions(&mut bus, &mut cpu);
    assert_eq!(cpu.pc, 0x0100, "EXAMINE should load PC from the address switches");
    // The CPU core executes the NOP at 0x0100 (4 cycles); the panel then
    // records the step.
    let pc_before = cpu.pc;
    cpu.pc = 0x0101;
    panel.finish_single_step(&bus, pc_before, cpu, 4);
    assert_eq!(cpu.pc, 0x0101);
    assert_eq!(panel.address_switches(), 0x0101, "address should follow the new PC");
    assert_eq!(bool_array_to_u16(panel.leds().address), 0x0101);
}

#[test]
fn test_examined_value_survives_repeated_switch_refresh() {
    let mut panel = FrontPanel::new();
    let mut bus = ImsaiBus::new();
    let mut cpu = cpu();
    bus.mem_write(0x0040, 0x3E);
    panel.set_address_switches(0x0040);
    panel.set_data_switches(0x40);
    panel.press_switch(PanelSwitch::Examine);
    panel.process_actions(&mut bus, &mut cpu);
    assert_eq!(bool_array_to_u8(panel.leds().data), 0x3E);
    for _ in 0..5 {
        panel.set_address_switches(0x0040);
        panel.set_data_switches(0x40);
        panel.process_actions(&mut bus, &mut cpu);
        assert_eq!(bool_array_to_u8(panel.leds().data), 0x3E);
    }
}

#[test]
fn test_leds_show_examined_data_not_switches() {
    let mut panel = FrontPanel::new();
    let mut bus = ImsaiBus::new();
    let mut cpu = cpu();
    panel.set_data_switches(0x00);
    panel.set_address_switches(0x1234);
    panel.press_switch(PanelSwitch::Examine);
    panel.process_actions(&mut bus, &mut cpu);
    assert_eq!(bool_array_to_u8(panel.leds().data), 0xFF);
}

#[test]
fn test_u16_bool_array_roundtrip() {
    let vals = [0x0000, 0xFFFF, 0x1234, 0xABCD, 0x8001];
    for &v in &vals {
        assert_eq!(bool_array_to_u16(u16_to_bool_array(v)), v);
    }
}

#[test]
fn test_u8_bool_array_roundtrip() {
    let vals = [0x00, 0xFF, 0x42, 0xAB, 0x80];
    for &v in &vals {
        assert_eq!(bool_array_to_u8(u8_to_bool_array(v)), v);
    }
}

#[test]
fn test_address_wrap_on_examine_next() {
    let mut panel = FrontPanel::new();
    let mut bus = ImsaiBus::new();
    let mut cpu = cpu();
    panel.set_address_switches(0xFFFF);
    panel.press_switch(PanelSwitch::ExamineNext);
    panel.process_actions(&mut bus, &mut cpu);
    assert_eq!(panel.address_switches(), 0x0000);
}

#[test]
fn test_sequential_deposit_and_examine() {
    let mut panel = FrontPanel::new();
    let mut bus = ImsaiBus::new();
    let mut cpu = cpu();
    panel.set_address_switches(0x0100);
    panel.set_data_switches(0x11);
    panel.press_switch(PanelSwitch::Deposit);
    panel.process_actions(&mut bus, &mut cpu);
    panel.set_data_switches(0x22);
    panel.press_switch(PanelSwitch::DepositNext);
    panel.process_actions(&mut bus, &mut cpu);
    assert_eq!(bus.mem_read(0x0100), 0x11);
    assert_eq!(bus.mem_read(0x0101), 0x22);
}

#[test]
fn test_io_log_tracking() {
    let mut panel = FrontPanel::new();
    panel.log_io_read(100, 0x01, 0x42);
    assert_eq!(panel.io_log().len(), 1);
    assert_eq!(panel.io_log()[0].address, 0x0001);
    assert_eq!(panel.io_log()[0].data, 0x42);
    assert!(panel.io_log()[0].is_io);
    assert!(!panel.io_log()[0].is_write);
    panel.log_io_write(200, 0x00, 0x48);
    assert_eq!(panel.io_log().len(), 2);
    assert_eq!(panel.io_log()[1].address, 0x0000);
    assert_eq!(panel.io_log()[1].data, 0x48);
    assert!(panel.io_log()[1].is_io);
    assert!(panel.io_log()[1].is_write);
}

#[test]
fn test_cycle_count() {
    let mut panel = FrontPanel::new();
    assert_eq!(panel.cycle_count(), 0);
    panel.log_io_read(500, 0x01, 0x00);
    assert_eq!(panel.cycle_count(), 500);
}

#[test]
fn test_front_panel_deposit_two_bytes() {
    let mut panel = FrontPanel::new();
    let mut bus = ImsaiBus::new();
    let mut cpu = cpu();
    panel.set_address_switches(0x0000);
    panel.set_data_switches(0xC3);
    panel.press_switch(PanelSwitch::Deposit);
    panel.process_actions(&mut bus, &mut cpu);
    assert_eq!(bus.mem_read(0x0000), 0xC3, "Byte at 0000 should be 0xC3");
    panel.set_data_switches(0x00);
    panel.press_switch(PanelSwitch::DepositNext);
    panel.process_actions(&mut bus, &mut cpu);
    assert_eq!(bus.mem_read(0x0001), 0x00, "Byte at 0001 should be 0x00");
    assert_eq!(panel.address_switches(), 0x0001, "Address should be 0x0001 after DepositNext");
}

#[test]
fn test_front_panel_memory_initializes_to_ff() {
    let bus = ImsaiBus::new();
    for addr in [0x0000u16, 0x0100, 0x8000, 0xFFFF] {
        assert_eq!(bus.mem_read(addr), 0xFF, "Memory at {:04X} should be 0xFF (floating bus)", addr);
    }
}

// Laws on concrete values.

#[test]
fn panel_deposit_then_examine_shows_byte() {
    let mut panel = FrontPanel::new();
    let mut bus = ImsaiBus::new();
    let mut cpu = cpu();
    panel.set_address_switches(0x4321);
    panel.set_data_switches(0x5A);
    panel.press_switch(PanelSwitch::Deposit);
    panel.press_switch(PanelSwitch::Examine);
    panel.process_actions(&mut bus, &mut cpu);
    assert_eq!(bus.mem_read(0x4321), 0x5A);
    assert_eq!(bool_array_to_u8(panel.leds().data), 0x5A);
    assert_eq!(cpu.pc, 0x4321);
    assert_eq!(bus.mem_read(0x4322), 0xFF);
}

#[test]
fn panel_deposit_next_wraps_to_zero() {
    let mut panel = FrontPanel::new();
    let mut bus = ImsaiBus::new();
    let mut cpu = cpu();
    panel.set_address_switches(0xFFFF);
    panel.set_data_switches(0x77);
    panel.press_switch(PanelSwitch::DepositNext);
    panel.process_actions(&mut bus, &mut cpu);
    assert_eq!(panel.address_switches(), 0x0000);
    assert_eq!(bus.mem_read(0x0000), 0x77);
    assert_eq!(bus.mem_read(0xFFFF), 0xFF);
}

#[test]
fn panel_run_then_stop_keeps_memory() {
    let mut panel = FrontPanel::new();
    let mut bus = ImsaiBus::new();
    let mut cpu = CpuControl { pc: 0x1111, halted: true };
    panel.set_address_switches(0x0200);
    panel.press_switch(PanelSwitch::RunStop);
    panel.press_switch(PanelSwitch::RunStop);
    let should_run = panel.process_actions(&mut bus, &mut cpu);
    assert!(!should_run);
    assert!(panel.is_stopped());
    assert_eq!(cpu.pc, 0x0200);
    assert!(!cpu.halted);
    assert_eq!(bus.mem_read(0x0200), 0xFF);
}

#[test]
fn panel_finish_instruction_logs_out() {
    let mut panel = FrontPanel::new();
    let mut bus = ImsaiBus::new();
    bus.mem_write(0x0010, 0xD3);
    bus.mem_write(0x0011, 0x05);
    panel.finish_instruction(&bus, 0xD3, 0x0010, CpuControl { pc: 0x0012, halted: false }, 30, 0x41);
    assert_eq!(panel.io_log().len(), 1);
    assert_eq!(panel.io_log()[0].address, 0x0005);
    assert_eq!(panel.io_log()[0].data, 0x41);
    assert!(panel.io_log()[0].is_output);
    assert_eq!(panel.cycle_count(), 30);
}
