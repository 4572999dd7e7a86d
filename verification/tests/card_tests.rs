use rust_imsai_emulator::bus::ImsaiBus;
use rust_imsai_emulator::card::{Card, ConsoleCard, TarbellCard as AliasTarbellCard};
use rust_imsai_emulator::cards::{SerialCard, TarbellCard};
use rust_imsai_emulator::disk::DiskImage;

#[test]
fn test_serial_card_port_decode() {
    let card = SerialCard::new();
    assert!(card.owns_port(0x00));
    assert!(card.owns_port(0x01));
    assert!(card.owns_port(0x02));
    assert!(card.owns_port(0x03));
    assert!(card.owns_port(0x79));
    assert!(card.owns_port(0x7B));
    assert!(!card.owns_port(0x04));
    assert!(!card.owns_port(0x48));
    assert!(!card.owns_port(0xFF));
}

#[test]
fn test_serial_card_channel_a_initial_status() {
    let mut card = SerialCard::new();
    let status = card.io_read(0x01);
    assert_eq!(status & 0x01, 0x01);
    assert_eq!(status & 0x02, 0x00);
}

#[test]
fn test_serial_card_channel_a_programming() {
    let mut card = SerialCard::new();
    card.io_write(0x01, 0x4E);
    card.io_write(0x01, 0x05);
    let status = card.io_read(0x01);
    assert_eq!(status & 0x01, 0x01);
}

#[test]
fn test_serial_card_tx_output() {
    let mut card = SerialCard::new();
    card.io_write(0x01, 0x4E);
    card.io_write(0x01, 0x05);
    card.io_write(0x00, b'H');
    card.channel_a_mut().drain_tx();
    card.channel_a_mut().update_tx();
    let output = card.channel_a_mut().take_output();
    assert_eq!(output, vec![b'H']);
}

#[test]
fn test_serial_card_rx_input() {
    let mut card = SerialCard::new();
    card.io_write(0x01, 0x4E);
    card.io_write(0x01, 0x05);
    card.type_text("A");
    card.poll_rx();
    let ch = card.io_read(0x00);
    assert_eq!(ch, b'A');
}

#[test]
fn test_serial_card_port_79_alias() {
    let mut card = SerialCard::new();
    card.io_write(0x01, 0x4E);
    card.io_write(0x01, 0x05);
    let status_01 = card.io_read(0x01);
    let status_79 = card.io_read(0x79);
    assert_eq!(status_01, status_79);
}

#[test]
fn test_serial_card_port_7b_output() {
    let mut card = SerialCard::new();
    card.io_write(0x01, 0x4E);
    card.io_write(0x01, 0x05);
    card.io_write(0x7B, b'X');
    card.channel_a_mut().drain_tx();
    card.channel_a_mut().update_tx();
    let output = card.channel_a_mut().take_output();
    assert_eq!(output, vec![b'X']);
}

#[test]
fn test_serial_card_does_not_own_memory() {
    let card = SerialCard::new();
    assert!(!card.owns_address(0x0000));
    assert!(!card.owns_address(0xFFFF));
}

#[test]
fn test_serial_card_name() {
    let card = SerialCard::new();
    assert_eq!(card.name(), "SIO-2 Serial");
}

#[test]
fn test_serial_card_unowned_port_reads_ff() {
    let mut card = SerialCard::new();
    assert_eq!(card.io_read(0x04), 0xFF);
    assert_eq!(card.io_read(0x48), 0xFF);
}

#[test]
fn serial_card_output_reaches_the_display() {
    let mut card = SerialCard::new();
    card.io_write(0x01, 0x4E);
    card.io_write(0x01, 0x05);
    card.io_write(0x00, b'O');
    card.poll_rx();
    card.io_write(0x00, b'K');
    card.poll_rx();
    let screen = card.video().get_display_string();
    assert!(screen.starts_with("OK"));
}

#[test]
fn test_tarbell_card_port_decode() {
    let card = TarbellCard::new();
    assert!(card.owns_port(0x48));
    assert!(card.owns_port(0x49));
    assert!(card.owns_port(0x4A));
    assert!(card.owns_port(0x4B));
    assert!(card.owns_port(0xF8));
    assert!(card.owns_port(0xF9));
    assert!(card.owns_port(0xFA));
    assert!(card.owns_port(0xFB));
    assert!(card.owns_port(0xFC));
    assert!(card.owns_port(0xFD));
    assert!(card.owns_port(0xFF));
    assert!(!card.owns_port(0x00));
    assert!(!card.owns_port(0x47));
    assert!(!card.owns_port(0x4C));
}

#[test]
fn test_tarbell_card_does_not_own_memory() {
    let card = TarbellCard::new();
    assert!(!card.owns_address(0x0000));
    assert!(!card.owns_address(0xFFFF));
}

#[test]
fn test_tarbell_card_name() {
    let card = TarbellCard::new();
    assert_eq!(card.name(), "Tarbell 1011");
}

#[test]
fn test_tarbell_card_fd1771_register_access() {
    let mut card = TarbellCard::new();
    card.insert_blank_disk(0).unwrap();
    card.io_write(0x49, 5);
    assert_eq!(card.io_read(0x49), 5);
    card.io_write(0xF9, 10);
    assert_eq!(card.io_read(0xF9), 10);
    assert_eq!(card.io_read(0x49), 10);
}

#[test]
fn test_tarbell_card_sector_register() {
    let mut card = TarbellCard::new();
    card.insert_blank_disk(0).unwrap();
    card.io_write(0x4A, 15);
    assert_eq!(card.io_read(0x4A), 15);
    assert_eq!(card.io_read(0xFA), 15);
}

#[test]
fn test_tarbell_card_auxiliary_ports() {
    let mut card = TarbellCard::new();
    assert_eq!(card.io_read(0xFD), 0x00);
    assert_eq!(card.io_read(0xFF), 0x03);
    assert_eq!(card.io_read(0xFC), 0x00);
}

#[test]
fn test_tarbell_card_restore_command() {
    let mut card = TarbellCard::new();
    card.insert_blank_disk(0).unwrap();
    card.io_write(0x4B, 5);
    card.io_write(0x48, 0x10);
    assert_eq!(card.io_read(0x49), 5);
    card.io_write(0x48, 0x00);
    assert_eq!(card.io_read(0x49), 0);
    let status = card.io_read(0x48);
    assert_eq!(status & 0x04, 0x04);
}

#[test]
fn test_tarbell_card_read_sector() {
    let mut card = TarbellCard::new();
    card.insert_blank_disk(0).unwrap();
    let pattern = [0xAA; 128];
    card.get_disk_mut(0).unwrap().write_sector(0, 1, &pattern).unwrap();
    card.io_write(0x49, 0);
    card.io_write(0x4A, 1);
    card.io_write(0x48, 0x88);
    let mut read_data = [0u8; 128];
    for i in 0..128 {
        read_data[i] = card.io_read(0x4B);
    }
    assert_eq!(read_data, pattern);
}

#[test]
fn test_tarbell_card_drq_status_in_bit7() {
    let mut card = TarbellCard::new();
    card.insert_blank_disk(0).unwrap();
    assert_eq!(card.io_read(0xFC), 0x00);
    card.io_write(0x49, 0);
    card.io_write(0x4A, 1);
    card.io_write(0x48, 0x88);
    assert_eq!(card.io_read(0xFC) & 0x80, 0x80);
}

#[test]
fn test_tarbell_card_disk_insert_eject() {
    let mut card = TarbellCard::new();
    assert!(!card.has_disk(0));
    card.insert_blank_disk(0).unwrap();
    assert!(card.has_disk(0));
    card.fdc_mut().eject_disk(0);
    assert!(!card.has_disk(0));
}

#[test]
fn test_tarbell_card_unowned_port_returns_ff() {
    let mut card = TarbellCard::new();
    assert_eq!(card.io_read(0x47), 0xFF);
    assert_eq!(card.io_read(0x4C), 0xFF);
    assert_eq!(card.io_read(0x00), 0xFF);
}

#[test]
fn tarbell_card_port_offsets() {
    assert_eq!(TarbellCard::port_to_fd1771_offset(0x4A), Some(2));
    assert_eq!(TarbellCard::port_to_fd1771_offset(0xFB), Some(3));
    assert_eq!(TarbellCard::port_to_fd1771_offset(0xFC), None);
}

// The bus routes ports to the cards.

#[test]
fn bus_routes_console_and_disk_ports() {
    let mut bus = ImsaiBus::new();
    assert_eq!(bus.io_in(0x01) & 0x01, 0x01);
    assert_eq!(bus.io_in(0x10), 0xFF);
    assert_eq!(bus.io_in(0xFD), 0x00);
    assert_eq!(bus.io_in(0xFF), 0x03);
    bus.io_out(0x49, 7);
    assert_eq!(bus.io_in(0x49), 7);
}

#[test]
fn bus_load_then_read_back() {
    let mut bus = ImsaiBus::new();
    bus.load(0xFFFE, &[1, 2, 3, 4]);
    assert_eq!(bus.mem_read(0xFFFE), 1);
    assert_eq!(bus.mem_read(0xFFFF), 2);
    assert_eq!(bus.mem_read(0x0000), 3);
    assert_eq!(bus.mem_read(0x0001), 4);
    assert_eq!(bus.mem_read(0x0002), 0xFF);
}

#[test]
fn bus_services_in_and_out_instructions() {
    let mut bus = ImsaiBus::new();
    bus.load(0x0000, &[0xD3, 0x01, 0xDB, 0x01]);
    let a = bus.service_io_instruction(0x0000, 0x4E);
    assert_eq!(a, 0x4E);
    let a = bus.service_io_instruction(0x0002, 0x00);
    assert_eq!(a & 0x01, 0x01);
}

// Cards behind the generic card interface.

#[test]
fn console_card_reads_keys_and_status() {
    let mut card = ConsoleCard::new();
    assert_eq!(card.io_read(0x01), 0x02);
    card.type_text("Z");
    assert!(card.is_key_ready());
    assert_eq!(card.io_read(0x01), 0x03);
    assert_eq!(card.io_read(0x00), b'Z');
    assert_eq!(card.io_read(0x00), 0x00);
    assert_eq!(card.io_read(0x05), 0xFF);
    assert!(card.owns_port(0x79));
    assert!(!card.owns_port(0x02));
    assert_eq!(card.name(), "Console");
}

#[test]
fn console_card_writes_to_display() {
    let mut card = ConsoleCard::new();
    card.set_auto_render(false);
    card.io_write(0x00, b'H');
    card.io_write(0x7B, b'I');
    card.io_write(0x01, b'X');
    assert!(card.video().get_display_string().starts_with("HI "));
    assert!(!card.video().auto_render());
}

#[test]
fn alias_tarbell_card_maps_cmi5619_ports() {
    let mut card = AliasTarbellCard::new();
    card.insert_disk(0, DiskImage::new_formatted()).unwrap();
    assert!(card.insert_disk(4, DiskImage::new_formatted()).is_err());
    card.io_write(0xF9, 12);
    assert_eq!(card.current_track(), 12);
    assert_eq!(card.io_read(0x49), 12);
    card.io_write(0x4A, 3);
    assert_eq!(card.current_sector(), 3);
    assert_eq!(card.io_read(0xFD), 0x00);
    assert_eq!(card.io_read(0xFF), 0x03);
    assert_eq!(card.io_read(0xFC), 0x00);
    assert!(card.owns_port(0xFC));
    assert!(!card.owns_port(0xFE));
    assert_eq!(card.name(), "Tarbell");
    assert!(card.get_disk(0).is_some());
    assert!(card.get_disk(1).is_none());
}
