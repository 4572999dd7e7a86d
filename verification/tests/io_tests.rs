use rust_imsai_emulator::disk::{logical_to_physical, DiskImage, DISK_SIZE};
use rust_imsai_emulator::dpb::{
    BLM, BLOCK_SIZE, DRM, DSM, OFF, SECTOR_SIZE, SKEW_TABLE, SPT, TOTAL_TRACKS,
};
use rust_imsai_emulator::io::tarbell::{TarbellController, CMD_RESTORE, CMD_SEEK};
use rust_imsai_emulator::io::{Keyboard, VideoDisplay};
use rust_imsai_emulator::io::panel_terminal::PanelTerminal;

#[test]
fn test_keyboard_basic() {
    let mut keyboard = Keyboard::new();
    assert!(!keyboard.is_char_ready());
    keyboard.type_text("Hello");
    assert!(keyboard.is_char_ready());
    assert_eq!(keyboard.read_char(), Some(b'H'));
    assert_eq!(keyboard.read_char(), Some(b'e'));
}

#[test]
fn test_keyboard_returns_none_when_empty() {
    let mut keyboard = Keyboard::new();
    assert_eq!(keyboard.read_char(), None);
}

#[test]
fn test_keyboard_nul_byte_roundtrip() {
    let mut keyboard = Keyboard::new();
    keyboard.type_text("\x00A");
    assert_eq!(keyboard.read_char(), Some(0));
    assert_eq!(keyboard.read_char(), Some(b'A'));
    assert_eq!(keyboard.read_char(), None);
}

#[test]
fn keyboard_keeps_typing_order_across_reads() {
    let mut keyboard = Keyboard::new();
    keyboard.type_text("ab");
    assert_eq!(keyboard.read_char(), Some(b'a'));
    keyboard.type_text("c");
    assert_eq!(keyboard.read_char(), Some(b'b'));
    assert_eq!(keyboard.read_char(), Some(b'c'));
    keyboard.type_text("d");
    keyboard.clear_buffer();
    assert_eq!(keyboard.read_char(), None);
}

#[test]
fn test_video_display_basic() {
    let mut display = VideoDisplay::new(10, 5);
    display.write_char(b'H');
    display.write_char(b'e');
    display.write_char(b'l');
    display.write_char(b'l');
    display.write_char(b'o');
    let output = display.get_display_string();
    assert!(output.contains("Hello"));
}

#[test]
fn test_video_display_newline() {
    let mut display = VideoDisplay::new(10, 5);
    display.write_char(b'H');
    display.write_char(b'i');
    display.write_char(b'\n');
    display.write_char(b'B');
    display.write_char(b'y');
    display.write_char(b'e');
    let output = display.get_display_string();
    assert!(output.starts_with("Hi"));
    assert!(output.contains("Bye"));
}

#[test]
fn video_wraps_at_right_edge_and_scrolls() {
    let mut display = VideoDisplay::new(3, 2);
    for b in b"abcdefg" {
        display.write_char(*b);
    }
    assert_eq!(display.get_display_string(), "def\ng  \n");
}

#[test]
fn video_backspace_and_carriage_return() {
    let mut display = VideoDisplay::new(4, 1);
    display.write_char(b'a');
    display.write_char(b'b');
    display.write_char(8);
    display.write_char(b'\r');
    display.write_char(b'z');
    assert_eq!(display.get_display_string(), "z   \n");
    display.clear();
    assert_eq!(display.get_display_string(), "    \n");
}

#[test]
fn test_tarbell_controller_creation() {
    let controller = TarbellController::new();
    assert_eq!(controller.port_base(), 0x48);
    assert_eq!(controller.tracks_per_disk(), 77);
    assert_eq!(controller.sectors_per_track(), 26);
    assert_eq!(controller.bytes_per_sector(), 128);
    assert!(!controller.has_disk(0));
}

#[test]
fn test_insert_and_read_blank_disk() {
    let mut controller = TarbellController::new();
    controller.insert_blank_disk(0).unwrap();
    assert!(controller.has_disk(0));
    let sector = controller.read_logical_sector(0, 0, 0).unwrap();
    assert_eq!(sector[0], 0xE5);
}

#[test]
fn test_write_and_read_sector() {
    let mut controller = TarbellController::new();
    controller.insert_blank_disk(0).unwrap();
    let data = [0x42u8; SECTOR_SIZE];
    controller.write_logical_sector(0, 0, 0, &data).unwrap();
    let read_back = controller.read_logical_sector(0, 0, 0).unwrap();
    assert_eq!(read_back[0], 0x42);
    let other_sector = controller.read_logical_sector(0, 0, 1).unwrap();
    assert_eq!(other_sector[0], 0xE5);
}

#[test]
fn test_tarbell_io_port_range() {
    let controller = TarbellController::new();
    assert!(controller.handles_port(0x48));
    assert!(controller.handles_port(0x49));
    assert!(controller.handles_port(0x4A));
    assert!(controller.handles_port(0x4B));
    assert!(!controller.handles_port(0x47));
    assert!(!controller.handles_port(0x4C));
}

#[test]
fn test_tarbell_restore_command() {
    let mut controller = TarbellController::new();
    controller.insert_blank_disk(0).unwrap();
    controller.io_out(0x49, 5);
    assert_eq!(controller.current_track(), 5);
    controller.io_out(0x48, CMD_RESTORE);
    assert_eq!(controller.current_track(), 0);
}

#[test]
fn test_tarbell_seek_command() {
    let mut controller = TarbellController::new();
    controller.insert_blank_disk(0).unwrap();
    controller.io_out(0x4B, 10);
    controller.io_out(0x48, CMD_SEEK);
    assert_eq!(controller.current_track(), 10);
}

#[test]
fn tarbell_test_multiple_drives() {
    let mut controller = TarbellController::new();
    controller.insert_blank_disk(0).unwrap();
    controller.insert_blank_disk(1).unwrap();
    let data_a = [0xAAu8; SECTOR_SIZE];
    let data_b = [0xBBu8; SECTOR_SIZE];
    controller.write_logical_sector(0, 0, 0, &data_a).unwrap();
    controller.write_logical_sector(1, 0, 0, &data_b).unwrap();
    let read_a = controller.read_logical_sector(0, 0, 0).unwrap();
    let read_b = controller.read_logical_sector(1, 0, 0).unwrap();
    assert_eq!(read_a[0], 0xAA);
    assert_eq!(read_b[0], 0xBB);
}

#[test]
fn test_sector_addressing_bounds() {
    let mut controller = TarbellController::new();
    controller.insert_blank_disk(0).unwrap();
    assert!(controller.read_logical_sector(0, 0, 0).is_ok());
    assert!(controller.read_logical_sector(0, 76, 0).is_ok());
    assert!(controller.read_logical_sector(0, 77, 0).is_err());
    assert!(controller.read_logical_sector(2, 0, 0).is_err());
}

#[test]
fn test_eject_disk() {
    let mut controller = TarbellController::new();
    controller.insert_blank_disk(0).unwrap();
    assert!(controller.has_disk(0));
    let disk = controller.eject_disk(0);
    assert!(disk.is_some());
    assert!(!controller.has_disk(0));
}

#[test]
fn test_insert_disk_image() {
    let mut controller = TarbellController::new();
    let disk = DiskImage::new_formatted();
    controller.insert_disk_image(0, disk).unwrap();
    assert!(controller.has_disk(0));
}

#[test]
fn tarbell_error_messages() {
    let mut controller = TarbellController::new();
    assert_eq!(controller.insert_blank_disk(4).unwrap_err(), "Drive number must be 0-3");
    controller.insert_blank_disk(0).unwrap();
    assert_eq!(
        controller.read_logical_sector(0, 77, 0).unwrap_err(),
        "Track 77 out of range (0-76)"
    );
    assert!(controller.read_logical_sector(3, 0, 0).is_err());
}

#[test]
fn tarbell_register_level_write_then_read() {
    let mut controller = TarbellController::new();
    controller.insert_blank_disk(0).unwrap();
    controller.io_out(0x49, 3);
    controller.io_out(0x4A, 4);
    controller.io_out(0x48, 0xA0);
    for i in 0..128u32 {
        controller.io_out(0x4B, (i * 3) as u8);
    }
    controller.io_out(0x48, 0x80);
    for i in 0..128u32 {
        assert_eq!(controller.io_in(0x4B), (i * 3) as u8);
    }
    assert_eq!(controller.wait_port_value(), 0x00);
}

#[test]
fn test_disk_image_new_formatted_all_e5() {
    let disk = DiskImage::new_formatted();
    assert_eq!(disk.data()[0], 0xE5);
    assert_eq!(disk.data()[DISK_SIZE - 1], 0xE5);
}

#[test]
fn test_disk_image_sector_write_read() {
    let mut disk = DiskImage::new_formatted();
    let system_data = [0xC3, 0x00, 0x01, 0x00];
    let mut sector = [0xE5u8; SECTOR_SIZE];
    sector[..system_data.len()].copy_from_slice(&system_data);
    disk.write_sector(0, 1, &sector).unwrap();
    let read_back = disk.read_sector(0, 1).unwrap();
    assert_eq!(read_back[0], 0xC3);
}

#[test]
fn test_disk_image_sector_round_trip() {
    let mut disk = DiskImage::new_formatted();
    let data = [0x42u8; SECTOR_SIZE];
    disk.write_sector(0, 1, &data).unwrap();
    let read_back = disk.read_sector(0, 1).unwrap();
    assert_eq!(read_back[0], 0x42);
    let other = disk.read_sector(1, 1).unwrap();
    assert_eq!(other[0], 0xE5);
}

#[test]
fn test_disk_image_write_protect() {
    let mut disk = DiskImage::new_formatted();
    disk.set_write_protected(true);
    let data = [0x42u8; SECTOR_SIZE];
    let result = disk.write_sector(0, 1, &data);
    assert!(result.is_err());
}

#[test]
fn test_disk_image_dirty_flag() {
    let mut disk = DiskImage::new_formatted();
    assert!(disk.is_dirty());
    let data = [0x42u8; SECTOR_SIZE];
    disk.write_sector(0, 1, &data).unwrap();
    assert!(disk.is_dirty());
}

#[test]
fn test_disk_size_is_correct() {
    assert_eq!(DISK_SIZE, 77 * 26 * 128);
}

#[test]
fn test_skew_table_is_permutation_of_1_to_26() {
    let mut sorted: Vec<u8> = SKEW_TABLE.to_vec();
    sorted.sort();
    assert_eq!(sorted, (1u8..=26).collect::<Vec<u8>>());
}

#[test]
fn test_skew_table_logical_physical_roundtrip() {
    for logical in 0u8..26 {
        let physical = logical_to_physical(logical);
        assert!(physical >= 1 && physical <= 26);
    }
}

#[test]
fn test_sector_zero_treated_as_sector_one() {
    let disk = DiskImage::new_formatted();
    let s0 = disk.read_sector(0, 0).unwrap();
    let s1 = disk.read_sector(0, 1).unwrap();
    assert_eq!(s0, s1);
}

#[test]
fn test_track_out_of_range() {
    let disk = DiskImage::new_formatted();
    assert!(disk.read_sector(77, 1).is_err());
    assert!(disk.read_sector(76, 1).is_ok());
}

#[test]
fn test_sector_out_of_range() {
    let disk = DiskImage::new_formatted();
    assert!(disk.read_sector(0, 27).is_err());
    assert!(disk.read_sector(0, 26).is_ok());
}

#[test]
fn disk_error_texts() {
    let disk = DiskImage::new_formatted();
    assert_eq!(disk.read_sector(77, 1).unwrap_err(), "Track 77 out of range (0-76)");
    assert_eq!(disk.read_sector(0, 27).unwrap_err(), "Sector 27 out of range (1-26)");
}

#[test]
fn disk_from_bytes_checks_size_and_saves() {
    assert!(DiskImage::from_bytes(vec![0u8; 100]).is_err());
    let mut disk = DiskImage::from_bytes(vec![0u8; DISK_SIZE]).unwrap();
    assert!(!disk.is_dirty());
    disk.write_sector(2, 5, &[7u8; SECTOR_SIZE]).unwrap();
    assert!(disk.is_dirty());
    assert_eq!(disk.read_sector(2, 5).unwrap(), [7u8; SECTOR_SIZE]);
    assert_eq!(disk.read_sector(2, 6).unwrap(), [0u8; SECTOR_SIZE]);
    disk.mark_saved();
    assert!(!disk.is_dirty());
}

#[test]
fn dpb_test_dpb_constants() {
    assert_eq!(SPT, 26);
    assert_eq!(BLM, 7);
    assert_eq!(DSM, 242);
    assert_eq!(DRM, 63);
    assert_eq!(OFF, 2);
    assert_eq!(SECTOR_SIZE, 128);
    assert_eq!(BLOCK_SIZE, 1024);
    assert_eq!(TOTAL_TRACKS, 77);
}

#[test]
fn skew_first_entries() {
    assert_eq!(logical_to_physical(0), 1);
    assert_eq!(logical_to_physical(1), 7);
    assert_eq!(logical_to_physical(25), 22);
    assert_eq!(logical_to_physical(26), 27);
}

#[test]
fn video_render_homes_cursor_then_draws_rows() {
    let mut display = VideoDisplay::new(3, 2);
    display.write_char(b'H');
    display.write_char(b'i');
    assert_eq!(display.render(), "\x1B[HHi \n   \n");
    assert_eq!(display.render(), format!("\x1B[H{}", display.get_display_string()));
}

#[test]
fn panel_terminal_writes_wraps_and_moves() {
    let mut t = PanelTerminal::new();
    t.put_all(b"AB\rC\x08D\x07");
    assert_eq!(t.cell(0, 0), b'A');
    assert_eq!(t.cell(0, 1), b'B');
    assert_eq!(t.cell(1, 0), b'D');
    assert_eq!(t.cursor(), (1, 1));
    let mut w = PanelTerminal::new();
    w.put_all(&[b'x'; 81]);
    assert_eq!(w.cell(0, 79), b'x');
    assert_eq!(w.cell(1, 0), b'x');
    assert_eq!(w.cursor(), (1, 1));
    let mut bottom = PanelTerminal::new();
    bottom.put_all(&[b'\n'; 30]);
    assert_eq!(bottom.cursor(), (0, 23));
    bottom.clear();
    assert_eq!(bottom.cursor(), (0, 0));
    assert_eq!(bottom.cell(23, 79), b' ');
}
