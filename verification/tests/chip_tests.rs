use rust_imsai_emulator::chips::fd1771::{
    Fd1771, S_BUSY, S_NOT_READY, S_RNF, S_SEEK_ERROR, S_TRACK0, S_WRITE_PROTECT,
};
use rust_imsai_emulator::chips::uart8251::{
    BaudDivisor, CharLength, Parity, StopBits, Uart8251, UartState, STATUS_FRAMING_ERR,
    STATUS_OVERRUN_ERR, STATUS_PARITY_ERR, STATUS_RX_READY, STATUS_TX_EMPTY, STATUS_TX_READY,
};
use rust_imsai_emulator::disk::DiskImage;
use rust_imsai_emulator::dpb::SECTOR_SIZE;
use rust_imsai_emulator::io::Keyboard;

fn make_controller_with_disk() -> Fd1771 {
    let mut fdc = Fd1771::new();
    fdc.insert_blank_disk(0).unwrap();
    fdc.select_drive(0);
    fdc
}

#[test]
fn fd1771_test_initial_state() {
    let fdc = Fd1771::new();
    assert_eq!(fdc.track_register(), 0);
    assert_eq!(fdc.sector_register(), 1);
    assert_eq!(fdc.head_position(), 0);
    assert!(!fdc.is_busy());
    assert!(!fdc.is_drq_active());
}

#[test]
fn test_no_disk_shows_not_ready() {
    let fdc = Fd1771::new();
    assert!(fdc.status() & S_NOT_READY != 0);
}

#[test]
fn test_disk_insert_clears_not_ready() {
    let mut fdc = Fd1771::new();
    fdc.insert_blank_disk(0).unwrap();
    fdc.select_drive(0);
    assert!(fdc.status() & S_NOT_READY == 0);
}

#[test]
fn test_restore_command() {
    let mut fdc = make_controller_with_disk();
    fdc.write_register(1, 20);
    fdc.set_head_position(0, 20);
    fdc.write_register(0, 0x00);
    assert_eq!(fdc.track_register(), 0);
    assert_eq!(fdc.head_position(), 0);
    assert!(fdc.status() & S_TRACK0 != 0);
    assert!(fdc.status() & S_BUSY == 0);
}

#[test]
fn test_seek_command() {
    let mut fdc = make_controller_with_disk();
    fdc.write_register(3, 30);
    fdc.write_register(0, 0x10);
    assert_eq!(fdc.track_register(), 30);
    assert_eq!(fdc.head_position(), 30);
    assert!(fdc.status() & S_TRACK0 == 0);
}

#[test]
fn test_seek_out_of_range() {
    let mut fdc = make_controller_with_disk();
    fdc.write_register(3, 80);
    fdc.write_register(0, 0x10);
    assert!(fdc.status() & S_SEEK_ERROR != 0);
}

#[test]
fn test_step_in_command() {
    let mut fdc = make_controller_with_disk();
    assert_eq!(fdc.head_position(), 0);
    fdc.write_register(0, 0x50);
    assert_eq!(fdc.head_position(), 1);
    assert_eq!(fdc.track_register(), 1);
    fdc.write_register(0, 0x50);
    assert_eq!(fdc.head_position(), 2);
    assert_eq!(fdc.track_register(), 2);
}

#[test]
fn test_step_in_without_update() {
    let mut fdc = make_controller_with_disk();
    fdc.write_register(0, 0x40);
    assert_eq!(fdc.head_position(), 1);
    assert_eq!(fdc.track_register(), 0);
}

#[test]
fn test_step_out_command() {
    let mut fdc = make_controller_with_disk();
    fdc.write_register(3, 10);
    fdc.write_register(0, 0x10);
    assert_eq!(fdc.head_position(), 10);
    fdc.write_register(0, 0x70);
    assert_eq!(fdc.head_position(), 9);
    assert_eq!(fdc.track_register(), 9);
}

#[test]
fn test_step_out_at_track_zero() {
    let mut fdc = make_controller_with_disk();
    fdc.write_register(0, 0x70);
    assert_eq!(fdc.head_position(), 0);
}

#[test]
fn test_step_in_at_max_track() {
    let mut fdc = make_controller_with_disk();
    fdc.write_register(3, 76);
    fdc.write_register(0, 0x10);
    assert_eq!(fdc.head_position(), 76);
    fdc.write_register(0, 0x50);
    assert_eq!(fdc.head_position(), 76);
}

#[test]
fn test_read_sector_basic() {
    let mut fdc = make_controller_with_disk();
    let pattern = [0xAA; SECTOR_SIZE];
    fdc.get_disk_mut(0).unwrap().write_sector(0, 1, &pattern).unwrap();
    fdc.write_register(1, 0);
    fdc.write_register(2, 1);
    fdc.write_register(0, 0x88);
    assert!(fdc.is_drq_active());
    assert!(fdc.is_busy());
    let mut read_data = [0u8; SECTOR_SIZE];
    for i in 0..SECTOR_SIZE {
        read_data[i] = fdc.read_register(3);
    }
    assert_eq!(read_data, pattern);
    assert!(!fdc.is_busy());
}

#[test]
fn test_write_sector_basic() {
    let mut fdc = make_controller_with_disk();
    fdc.write_register(1, 2);
    fdc.write_register(2, 3);
    fdc.set_head_position(0, 2);
    fdc.write_register(0, 0xA8);
    assert!(fdc.is_drq_active());
    assert!(fdc.is_busy());
    let pattern = [0x55; SECTOR_SIZE];
    for &byte in pattern.iter() {
        fdc.write_register(3, byte);
    }
    assert!(!fdc.is_busy());
    let read_back = fdc.get_disk(0).unwrap().read_sector(2, 3).unwrap();
    assert_eq!(read_back, pattern);
}

#[test]
fn test_read_sector_not_found() {
    let mut fdc = make_controller_with_disk();
    fdc.write_register(1, 0);
    fdc.write_register(2, 30);
    fdc.write_register(0, 0x88);
    assert!(fdc.status() & S_RNF != 0);
}

#[test]
fn test_read_no_disk() {
    let mut fdc = Fd1771::new();
    fdc.select_drive(0);
    fdc.write_register(0, 0x88);
    assert!(fdc.status() & S_NOT_READY != 0);
}

#[test]
fn test_write_protected_disk() {
    let mut fdc = Fd1771::new();
    let mut disk = DiskImage::new_formatted();
    disk.set_write_protected(true);
    fdc.insert_disk(0, disk).unwrap();
    fdc.select_drive(0);
    fdc.write_register(0, 0xA8);
    assert!(fdc.status() & S_WRITE_PROTECT != 0);
}

#[test]
fn test_read_address() {
    let mut fdc = make_controller_with_disk();
    fdc.write_register(3, 5);
    fdc.write_register(0, 0x10);
    fdc.write_register(0, 0xC0);
    assert_eq!(fdc.data_register(), 5);
}

#[test]
fn test_force_interrupt() {
    let mut fdc = make_controller_with_disk();
    fdc.write_register(0, 0x88);
    assert!(fdc.is_busy());
    fdc.write_register(0, 0xD0);
    assert!(!fdc.is_busy());
}

#[test]
fn fd1771_test_multiple_drives() {
    let mut fdc = Fd1771::new();
    fdc.insert_blank_disk(0).unwrap();
    fdc.insert_blank_disk(1).unwrap();
    fdc.select_drive(0);
    fdc.write_register(3, 10);
    fdc.write_register(0, 0x10);
    fdc.select_drive(1);
    fdc.write_register(3, 20);
    fdc.write_register(0, 0x10);
    assert_eq!(fdc.track_register(), 20);
    assert_eq!(fdc.head_position_of(1), 20);
    fdc.select_drive(0);
    assert_eq!(fdc.head_position_of(0), 10);
}

#[test]
fn test_busy_ignores_command() {
    let mut fdc = make_controller_with_disk();
    fdc.write_register(0, 0x88);
    assert!(fdc.is_busy());
    fdc.write_register(0, 0x10);
    assert_eq!(fdc.track_register(), 0);
}

#[test]
fn test_sector0_treated_as_sector1() {
    let mut fdc = make_controller_with_disk();
    let pattern = [0xBB; SECTOR_SIZE];
    fdc.get_disk_mut(0).unwrap().write_sector(0, 1, &pattern).unwrap();
    fdc.write_register(1, 0);
    fdc.write_register(2, 0);
    fdc.write_register(0, 0x88);
    if fdc.is_drq_active() {
        let first_byte = fdc.read_register(3);
        assert_eq!(first_byte, 0xBB);
    }
}

// FDC laws on concrete values.

#[test]
fn fdc_register_write_then_read_sector() {
    let mut fdc = make_controller_with_disk();
    fdc.write_register(1, 5);
    fdc.write_register(2, 7);
    fdc.write_register(0, 0xA8);
    for i in 0..SECTOR_SIZE {
        fdc.write_register(3, i as u8);
    }
    assert!(!fdc.is_busy());
    fdc.write_register(0, 0x80);
    for i in 0..SECTOR_SIZE {
        assert_eq!(fdc.read_register(3), i as u8);
    }
}

#[test]
fn fdc_step_in_stops_at_track_76() {
    let mut fdc = make_controller_with_disk();
    for _ in 0..100 {
        fdc.write_register(0, 0x50);
    }
    assert_eq!(fdc.head_position(), 76);
    assert_eq!(fdc.track_register(), 76);
}

// UART.

#[test]
fn uart8251_test_initial_state() {
    let uart = Uart8251::new();
    assert_eq!(uart.state(), UartState::ExpectMode);
    assert!(uart.is_tx_ready());
    assert!(!uart.is_rx_ready());
}

#[test]
fn test_reset_returns_to_expect_mode() {
    let mut uart = Uart8251::new();
    uart.write_control(0x4E);
    uart.write_control(0x37);
    assert_eq!(uart.state(), UartState::Ready);
    uart.write_data(b'A');
    assert!(!uart.is_tx_ready());
    uart.write_control(0x40);
    assert_eq!(uart.state(), UartState::ExpectMode);
    assert!(uart.is_tx_ready());
}

#[test]
fn test_mode_instruction_async_8n1() {
    let mut uart = Uart8251::new();
    uart.write_control(0x4E);
    assert_eq!(uart.state(), UartState::ExpectCommand);
    assert_eq!(uart.baud_divisor(), BaudDivisor::X16);
    assert_eq!(uart.char_length(), CharLength::Bits8);
    assert_eq!(uart.parity(), Parity::Disabled);
    assert_eq!(uart.stop_bits(), StopBits::One);
}

#[test]
fn test_mode_instruction_7e2() {
    let mut uart = Uart8251::new();
    uart.write_control(0xFA);
    assert_eq!(uart.baud_divisor(), BaudDivisor::X16);
    assert_eq!(uart.char_length(), CharLength::Bits7);
    assert_eq!(uart.parity(), Parity::Even);
    assert_eq!(uart.stop_bits(), StopBits::Two);
}

#[test]
fn test_command_instruction_tx_rx_enable() {
    let mut uart = Uart8251::new();
    uart.write_control(0x4E);
    assert!(!uart.is_tx_enabled());
    assert!(!uart.is_rx_enabled());
    uart.write_control(0x05);
    assert!(uart.is_tx_enabled());
    assert!(uart.is_rx_enabled());
    assert!(uart.is_tx_ready());
}

#[test]
fn test_tx_flow() {
    let mut uart = Uart8251::new();
    uart.write_control(0x4E);
    uart.write_control(0x05);
    assert!(uart.is_tx_ready());
    uart.write_data(b'H');
    assert!(!uart.is_tx_ready());
    assert!(!uart.read_status() & STATUS_TX_EMPTY != 0);
    uart.drain_tx();
    uart.update_tx();
    assert!(uart.is_tx_ready());
    assert!(uart.read_status() & STATUS_TX_EMPTY != 0);
    let output = uart.take_output();
    assert_eq!(output, vec![b'H']);
}

#[test]
fn test_tx_disabled_drops_data() {
    let mut uart = Uart8251::new();
    uart.write_control(0x4E);
    uart.write_control(0x04);
    uart.write_data(b'X');
    let output = uart.take_output();
    assert!(output.is_empty());
}

#[test]
fn test_rx_flow_with_keyboard() {
    let mut kbd = Keyboard::new();
    kbd.type_text("AB");
    let mut uart = Uart8251::new().with_keyboard(kbd);
    uart.write_control(0x4E);
    uart.write_control(0x05);
    uart.poll_rx();
    assert!(uart.is_rx_ready());
    assert_eq!(uart.read_data(), b'A');
    assert!(!uart.is_rx_ready());
    uart.poll_rx();
    assert!(uart.is_rx_ready());
    assert_eq!(uart.read_data(), b'B');
}

#[test]
fn test_rx_overrun_error() {
    let mut kbd = Keyboard::new();
    kbd.type_text("ABC");
    let mut uart = Uart8251::new().with_keyboard(kbd);
    uart.write_control(0x4E);
    uart.write_control(0x05);
    uart.poll_rx();
    assert!(uart.is_rx_ready());
    uart.poll_rx();
    assert!(uart.read_status() & STATUS_OVERRUN_ERR != 0);
    assert_eq!(uart.read_data(), b'A');
    uart.write_control(0x14);
    assert!(uart.read_status() & STATUS_OVERRUN_ERR == 0);
}

#[test]
fn test_rx_disabled_ignores_input() {
    let mut kbd = Keyboard::new();
    kbd.type_text("X");
    let mut uart = Uart8251::new().with_keyboard(kbd);
    uart.write_control(0x4E);
    uart.write_control(0x01);
    uart.poll_rx();
    assert!(!uart.is_rx_ready());
    uart.write_control(0x05);
    uart.poll_rx();
    assert!(uart.is_rx_ready());
}

#[test]
fn test_status_register_bits() {
    let mut uart = Uart8251::new();
    uart.write_control(0x4E);
    uart.write_control(0x05);
    let status = uart.read_status();
    assert_eq!(status & STATUS_TX_READY, STATUS_TX_READY);
    assert_eq!(status & STATUS_TX_EMPTY, STATUS_TX_EMPTY);
    assert_eq!(status & STATUS_RX_READY, 0);
}

#[test]
fn test_error_reset_command() {
    let mut uart = Uart8251::new();
    uart.write_control(0x4E);
    uart.write_control(0x05);
    uart.write_control(0x10);
    let status = uart.read_status();
    assert_eq!(status & (STATUS_PARITY_ERR | STATUS_OVERRUN_ERR | STATUS_FRAMING_ERR), 0);
}

#[test]
fn test_dtr_rts_bits() {
    let mut uart = Uart8251::new();
    uart.write_control(0x4E);
    uart.write_control(0x37);
    assert!(uart.dtr());
    assert!(uart.rts());
    assert!(uart.is_tx_enabled());
    assert!(uart.is_rx_enabled());
}

#[test]
fn test_multiple_writes_and_drains() {
    let mut uart = Uart8251::new();
    uart.write_control(0x4E);
    uart.write_control(0x05);
    uart.write_data(b'H');
    uart.drain_tx();
    uart.update_tx();
    assert!(uart.is_tx_ready());
    uart.write_data(b'i');
    uart.drain_tx();
    uart.update_tx();
    let output = uart.take_output();
    assert_eq!(output, vec![b'H', b'i']);
}

#[test]
fn test_internal_reset_clears_config() {
    let mut uart = Uart8251::new();
    uart.write_control(0x4E);
    uart.write_control(0x37);
    assert_eq!(uart.state(), UartState::Ready);
    uart.write_control(0x40);
    assert_eq!(uart.state(), UartState::ExpectMode);
    assert!(!uart.is_tx_enabled());
    assert!(!uart.is_rx_enabled());
    uart.write_control(0x4E);
    uart.write_control(0x05);
    assert_eq!(uart.state(), UartState::Ready);
    assert!(uart.is_tx_enabled());
}

// UART laws on concrete values.

#[test]
fn uart_reset_command_right_after_mode_returns_to_expect_mode() {
    let mut uart = Uart8251::new();
    uart.write_control(0x4E);
    assert_eq!(uart.state(), UartState::ExpectCommand);
    uart.write_control(0x40);
    assert_eq!(uart.state(), UartState::ExpectMode);
    assert!(!uart.is_tx_enabled());
}

#[test]
fn uart_sync_mode_stays_in_expect_mode() {
    let mut uart = Uart8251::new();
    uart.write_control(0x4D);
    assert_eq!(uart.state(), UartState::ExpectMode);
    assert_eq!(uart.baud_divisor(), BaudDivisor::Sync);
}

#[test]
fn uart_second_write_while_full_is_dropped() {
    let mut uart = Uart8251::new();
    uart.write_control(0x4E);
    uart.write_control(0x05);
    uart.write_data(b'1');
    uart.write_data(b'2');
    uart.drain_tx();
    uart.update_tx();
    assert_eq!(uart.take_output(), vec![b'1']);
}

#[test]
fn uart_read_without_data_returns_zero() {
    let mut uart = Uart8251::new();
    assert_eq!(uart.read_data(), 0);
}

#[test]
fn drain_tx_reasserts_tx_ready_and_keeps_output() {
    let mut uart = Uart8251::new();
    uart.write_control(0x4E);
    uart.write_control(0x05);
    uart.write_data(b'Q');
    assert!(!uart.is_tx_ready());
    uart.drain_tx();
    assert!(uart.is_tx_ready());
    assert!(uart.has_output());
    assert_eq!(uart.take_output(), vec![b'Q']);
}
