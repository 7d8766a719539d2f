use glyph8::ines::HEADER_SIZE;
use glyph8::{
    make_minimal_nrom, parse_header, ControllerState, EmulatorError, Frame, Mirroring, RomInfo,
    BPP, FRAME_BYTES, HEIGHT, WIDTH,
};

// ---- controller ----

#[test]
fn empty_is_no_buttons_pressed() {
    let s = ControllerState::empty();
    for mask in [
        ControllerState::A,
        ControllerState::B,
        ControllerState::SELECT,
        ControllerState::START,
        ControllerState::UP,
        ControllerState::DOWN,
        ControllerState::LEFT,
        ControllerState::RIGHT,
    ] {
        assert!(!s.pressed(mask));
    }
}

#[test]
fn press_then_release() {
    let mut s = ControllerState::empty();
    s.press(ControllerState::A);
    assert!(s.pressed(ControllerState::A));
    assert!(!s.pressed(ControllerState::B));
    s.release(ControllerState::A);
    assert!(!s.pressed(ControllerState::A));
}

#[test]
fn bit_layout_is_strobe_order() {
    // A is LSB, Right is MSB — required to match NES $4016 read order.
    assert_eq!(ControllerState::A, 0b0000_0001);
    assert_eq!(ControllerState::B, 0b0000_0010);
    assert_eq!(ControllerState::SELECT, 0b0000_0100);
    assert_eq!(ControllerState::START, 0b0000_1000);
    assert_eq!(ControllerState::UP, 0b0001_0000);
    assert_eq!(ControllerState::DOWN, 0b0010_0000);
    assert_eq!(ControllerState::LEFT, 0b0100_0000);
    assert_eq!(ControllerState::RIGHT, 0b1000_0000);
}

#[test]
fn press_and_release_leave_other_buttons_alone() {
    let mut s = ControllerState(ControllerState::UP | ControllerState::B);
    s.press(ControllerState::A | ControllerState::START);
    assert_eq!(s.0, 0b0001_1011);
    s.release(ControllerState::B | ControllerState::RIGHT);
    assert_eq!(s.0, 0b0001_1001);
    assert!(s.pressed(ControllerState::UP));
    assert!(s.pressed(ControllerState::B | ControllerState::A));
    assert!(!s.pressed(ControllerState::B | ControllerState::RIGHT));
    assert_eq!(ControllerState::default(), ControllerState::empty());
}

// ---- error ----

#[test]
fn display_messages_are_useful() {
    let e = EmulatorError::InvalidINesHeader;
    assert_eq!(e.message(), "invalid iNES header");

    let e = EmulatorError::UnsupportedMapper(7);
    assert_eq!(e.message(), "unsupported mapper 7");

    let e = EmulatorError::RomTooSmall(15);
    assert_eq!(e.message(), "rom too small (15 bytes)");
}

#[test]
fn io_error_converts_via_from() {
    let io = std::io::Error::new(std::io::ErrorKind::NotFound, "x");
    let e: EmulatorError = io.into();
    assert!(matches!(e, EmulatorError::Io(_)));
}

#[test]
fn other_error_messages() {
    assert_eq!(
        EmulatorError::Backend("no mapper".to_string()).message(),
        "backend error: no mapper"
    );
    assert_eq!(EmulatorError::RomTooSmall(0).message(), "rom too small (0 bytes)");
    assert_eq!(EmulatorError::UnsupportedMapper(255).message(), "unsupported mapper 255");
    assert_eq!(
        EmulatorError::RomTooSmall(1234567).message(),
        "rom too small (1234567 bytes)"
    );
    let io = std::io::Error::new(std::io::ErrorKind::NotFound, "gone");
    assert_eq!(EmulatorError::Io(io).message(), "gone");
}

// ---- frame ----

#[test]
fn frame_dimensions_are_nes_native() {
    assert_eq!(WIDTH, 256);
    assert_eq!(HEIGHT, 240);
    assert_eq!(FRAME_BYTES, 256 * 240 * 3);
}

#[test]
fn new_frame_is_all_zeros() {
    let f = Frame::new();
    assert!(f.pixels.iter().all(|&b| b == 0));
}

#[test]
fn set_then_get_round_trips() {
    let mut f = Frame::new();
    f.set_pixel(10, 20, [0xAA, 0xBB, 0xCC]);
    assert_eq!(f.get_pixel(10, 20), [0xAA, 0xBB, 0xCC]);
    // Untouched pixel stays zero.
    assert_eq!(f.get_pixel(0, 0), [0, 0, 0]);
}

#[test]
fn set_pixel_corners() {
    let mut f = Frame::new();
    f.set_pixel(0, 0, [1, 2, 3]);
    f.set_pixel(WIDTH - 1, HEIGHT - 1, [4, 5, 6]);
    assert_eq!(f.get_pixel(0, 0), [1, 2, 3]);
    assert_eq!(f.get_pixel(WIDTH - 1, HEIGHT - 1), [4, 5, 6]);
}

#[test]
fn set_pixel_writes_at_row_major_offset() {
    let mut f = Frame::default();
    f.set_pixel(3, 2, [7, 8, 9]);
    let off = (2 * WIDTH + 3) * BPP;
    assert_eq!(&f.pixels[off..off + 3], &[7, 8, 9]);
    assert_eq!(f.pixels.iter().filter(|&&b| b != 0).count(), 3);
    // Neighbours are untouched.
    assert_eq!(f.get_pixel(2, 2), [0, 0, 0]);
    assert_eq!(f.get_pixel(4, 2), [0, 0, 0]);
    assert_eq!(f.get_pixel(3, 1), [0, 0, 0]);
    assert_eq!(f.get_pixel(3, 3), [0, 0, 0]);
}

// ---- iNES ----

#[test]
fn parses_minimal_nrom() {
    let rom = make_minimal_nrom();
    let info = parse_header(&rom).unwrap();
    assert_eq!(info.mapper, 0);
    assert_eq!(info.prg_rom_size, 16 * 1024);
    assert_eq!(info.chr_rom_size, 8 * 1024);
    assert_eq!(info.mirroring, Mirroring::Horizontal);
    assert!(!info.has_battery);
}

#[test]
fn vertical_mirror_flag() {
    let mut rom = make_minimal_nrom();
    rom[6] |= 0b0000_0001;
    let info = parse_header(&rom).unwrap();
    assert_eq!(info.mirroring, Mirroring::Vertical);
}

#[test]
fn four_screen_mirror_flag() {
    let mut rom = make_minimal_nrom();
    rom[6] |= 0b0000_1000;
    let info = parse_header(&rom).unwrap();
    assert_eq!(info.mirroring, Mirroring::FourScreen);
}

#[test]
fn battery_flag() {
    let mut rom = make_minimal_nrom();
    rom[6] |= 0b0000_0010;
    let info = parse_header(&rom).unwrap();
    assert!(info.has_battery);
}

#[test]
fn mapper_id_split_across_flags6_and_flags7() {
    let mut rom = make_minimal_nrom();
    // mapper 0x4A: low nybble in flags6 high nybble, high nybble in flags7 high nybble
    rom[6] = 0xA0;
    rom[7] = 0x40;
    let info = parse_header(&rom).unwrap();
    assert_eq!(info.mapper, 0x4A);
}

#[test]
fn rejects_too_short_for_header() {
    let rom = b"NES\x1A".to_vec(); // 4 bytes, less than HEADER_SIZE
    let err = parse_header(&rom).unwrap_err();
    assert!(matches!(err, EmulatorError::RomTooSmall(4)));
}

#[test]
fn rejects_bad_magic() {
    let mut rom = make_minimal_nrom();
    rom[0] = b'X';
    let err = parse_header(&rom).unwrap_err();
    assert!(matches!(err, EmulatorError::InvalidINesHeader));
}

#[test]
fn rejects_truncated_prg() {
    let mut rom = make_minimal_nrom();
    // claim 2 PRG banks (32 KB) but only ship 1
    rom[4] = 2;
    let err = parse_header(&rom).unwrap_err();
    assert!(matches!(err, EmulatorError::RomTooSmall(_)));
}

#[test]
fn minimal_nrom_layout() {
    let rom = make_minimal_nrom();
    assert_eq!(rom.len(), 16 + 16 * 1024 + 8 * 1024);
    assert_eq!(&rom[..8], &[0x4E, 0x45, 0x53, 0x1A, 1, 1, 0, 0]);
    assert!(rom[8..].iter().all(|&b| b == 0));
}

#[test]
fn four_screen_wins_over_vertical_and_flags_combine() {
    let mut rom = make_minimal_nrom();
    rom[6] = 0b0001_1011; // four-screen + battery + vertical, mapper low nibble 1
    rom[7] = 0b0010_0101; // mapper high nibble 2; low nibble of flags 7 is ignored
    let info = parse_header(&rom).unwrap();
    assert_eq!(
        info,
        RomInfo {
            mapper: 0x21,
            prg_rom_size: 16 * 1024,
            chr_rom_size: 8 * 1024,
            mirroring: Mirroring::FourScreen,
            has_battery: true,
        }
    );
}

#[test]
fn short_file_wins_over_bad_magic_and_sizes_are_checked_exactly() {
    // Too short for a header: the length is reported even without the magic.
    let err = parse_header(&[0u8; 15]).unwrap_err();
    assert!(matches!(err, EmulatorError::RomTooSmall(15)));
    // Exactly a header with no banks is a valid (empty) image.
    let mut header = make_minimal_nrom();
    header.truncate(HEADER_SIZE);
    header[4] = 0;
    header[5] = 0;
    let info = parse_header(&header).unwrap();
    assert_eq!(info.prg_rom_size, 0);
    assert_eq!(info.chr_rom_size, 0);
    // One byte short of the announced CHR bank.
    let mut rom = make_minimal_nrom();
    rom.pop();
    assert!(matches!(parse_header(&rom).unwrap_err(), EmulatorError::RomTooSmall(24591)));
    // Extra trailing bytes do not change the description.
    let mut rom = make_minimal_nrom();
    let expected = parse_header(&rom).unwrap();
    rom.extend_from_slice(&[0xFF; 100]);
    assert_eq!(parse_header(&rom).unwrap(), expected);
}

// ---- public API ----

#[test]
fn dimensions_are_exported() {
    assert_eq!(WIDTH, 256);
    assert_eq!(HEIGHT, 240);
    assert_eq!(FRAME_BYTES, 256 * 240 * 3);
}

#[test]
fn types_can_be_constructed_externally() {
    let _f = Frame::default();
    let _c = ControllerState::empty();
    let _m = Mirroring::Horizontal;
    let info = RomInfo {
        mapper: 0,
        prg_rom_size: 16 * 1024,
        chr_rom_size: 8 * 1024,
        mirroring: Mirroring::Horizontal,
        has_battery: false,
    };
    assert_eq!(info.mapper, 0);
}

#[test]
fn parse_header_is_callable() {
    let err = parse_header(b"too short").unwrap_err();
    assert!(matches!(err, EmulatorError::RomTooSmall(_)));
}
