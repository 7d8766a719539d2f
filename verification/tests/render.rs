use glyph8::render::TerminalClaim;
use glyph8::backend::finish_rom_load;
use glyph8::digest::frame_hash_hex;
use glyph8::{make_minimal_nrom, parse_header, EmulatorError, Frame, HalfblockRenderer, Renderer, HEIGHT, WIDTH};

fn count_halfblocks(buf: &[u8]) -> usize {
    buf.windows(3).filter(|w| *w == "▀".as_bytes()).count()
}

#[test]
fn draw_emits_one_halfblock_char_per_cell() {
    let mut r = HalfblockRenderer::with_writer(Vec::<u8>::new());
    let frame = Frame::default();
    r.draw(&frame).unwrap();
    let buf = r.out;
    // 256 cols × 120 row-pairs = 30,720 cells, each containing one ▀ (3 UTF-8 bytes).
    let halfblocks = count_halfblocks(&buf);
    assert_eq!(halfblocks, WIDTH * HEIGHT / 2);
}

#[test]
fn draw_includes_24bit_color_escape_for_each_pixel() {
    // A frame with one bright-red top pixel at (0,0) should produce an SGR 38;2;255;0;0 escape.
    let mut r = HalfblockRenderer::with_writer(Vec::<u8>::new());
    let mut frame = Frame::default();
    // Frame is RGB; pixel (0,0) → bytes [0..3]
    frame.pixels[0] = 255;
    frame.pixels[1] = 0;
    frame.pixels[2] = 0;
    r.draw(&frame).unwrap();
    let buf = r.out;
    let s = String::from_utf8_lossy(&buf);
    assert!(
        s.contains("38;2;255;0;0"),
        "expected fg escape for red pixel, got: {}",
        &s[..s.len().min(200)]
    );
}

#[test]
fn bottom_pixel_maps_to_bg_color() {
    let mut r = HalfblockRenderer::with_writer(Vec::<u8>::new());
    let mut frame = Frame::default();
    // Row 1 (second pixel row) = bottom half of the first terminal row.
    frame.set_pixel(0, 1, [0, 0, 255]);
    r.draw(&frame).unwrap();
    let buf = r.out;
    let s = String::from_utf8_lossy(&buf);
    assert!(
        s.contains("48;2;0;0;255"),
        "expected bg escape for blue bottom pixel"
    );
}

#[test]
fn second_draw_of_identical_frame_is_minimal() {
    let mut r = HalfblockRenderer::with_writer(Vec::<u8>::new());
    let frame = Frame::default();
    r.draw(&frame).unwrap();
    let bytes_first = r.out.len();
    r.out.clear();
    r.draw(&frame).unwrap();
    let bytes_second = r.out.len();
    // Redrawing the same frame should emit < 5% the bytes
    // (only the SGR reset), no per-cell escapes.
    assert!(
        bytes_second * 20 < bytes_first,
        "diff redraw too large: first={}, second={}",
        bytes_first,
        bytes_second
    );
}

#[test]
fn diff_emits_changed_cell_only() {
    let mut r = HalfblockRenderer::with_writer(Vec::<u8>::new());
    let mut frame = Frame::default();
    r.draw(&frame).unwrap();
    r.out.clear();
    // Flip one top pixel to red.
    frame.pixels[0] = 255;
    r.draw(&frame).unwrap();
    let s = String::from_utf8_lossy(&r.out);
    assert!(
        s.contains("38;2;255;0;0"),
        "expected the changed cell's red fg in the diff output"
    );
    // The number of ▀ chars should be 1 (only the changed cell).
    let halfblocks = count_halfblocks(&r.out);
    assert_eq!(halfblocks, 1);
}

#[test]
fn enter_leave_are_noop_for_writer_sink() {
    // Sanity: the writer constructor must NOT actually toggle terminal state.
    let mut r = HalfblockRenderer::with_writer(Vec::<u8>::new());
    r.enter().unwrap();
    r.leave().unwrap();
    // Buffer should still be empty (no escapes for terminal toggling).
    assert!(r.out.is_empty());
}

#[test]
fn first_draw_bytes_exactly() {
    let mut r = HalfblockRenderer::with_writer(Vec::<u8>::new());
    let mut frame = Frame::default();
    frame.set_pixel(0, 0, [1, 2, 3]);
    frame.set_pixel(0, 1, [40, 50, 60]);
    let encoded = r.encode_frame(&frame);
    assert_eq!(encoded.cells.len(), 30720);
    let s = String::from_utf8(encoded.bytes).unwrap();
    // Each row starts with a cursor move; later cells of a row follow directly.
    let first = "\x1b[1;1H\x1b[38;2;1;2;3m\x1b[48;2;40;50;60m▀\x1b[38;2;0;0;0m\x1b[48;2;0;0;0m▀";
    assert!(s.starts_with(first), "got {:?}", &s[..120]);
    assert_eq!(s.matches("\x1b[").count(), 120 + 2 * 30720 + 1);
    assert!(s.contains("\x1b[120;1H"));
    assert!(!s.contains("\x1b[121;"));
    assert!(s.ends_with("▀\x1b[0m"));
}

#[test]
fn identical_redraw_is_only_reset() {
    let mut r = HalfblockRenderer::with_writer(Vec::<u8>::new());
    let mut frame = Frame::default();
    frame.set_pixel(100, 200, [9, 9, 9]);
    let first = r.encode_frame(&frame);
    assert!(first.bytes.len() > 30720);
    // Nothing is remembered until the caller says the bytes went out.
    assert_eq!(r.encode_frame(&frame).bytes, first.bytes);
    r.remember(first.cells);
    assert_eq!(r.encode_frame(&frame).bytes, b"\x1b[0m".to_vec());
}

#[test]
fn diff_moves_cursor_only_after_skips() {
    let mut r = HalfblockRenderer::with_writer(Vec::<u8>::new());
    let mut frame = Frame::default();
    let first = r.encode_frame(&frame);
    r.remember(first.cells);
    // Two adjacent changed cells in terminal row 3 (pixel rows 4-5), then a gap.
    frame.set_pixel(10, 4, [255, 0, 0]);
    frame.set_pixel(11, 5, [0, 255, 0]);
    frame.set_pixel(13, 4, [0, 0, 255]);
    let s = String::from_utf8(r.encode_frame(&frame).bytes).unwrap();
    let expected = "\x1b[3;11H\x1b[38;2;255;0;0m\x1b[48;2;0;0;0m▀\
                    \x1b[38;2;0;0;0m\x1b[48;2;0;255;0m▀\
                    \x1b[3;14H\x1b[38;2;0;0;255m\x1b[48;2;0;0;0m▀\
                    \x1b[0m";
    assert_eq!(s, expected);
}

#[test]
fn frame_hash_is_64_lowercase_hex_and_deterministic() {
    let frame = Frame::default();
    let h1 = frame_hash_hex(&frame);
    let h2 = frame_hash_hex(&frame.clone());
    assert_eq!(h1, h2);
    assert_eq!(h1.len(), 64);
    assert!(h1.chars().all(|c| c.is_ascii_hexdigit() && !c.is_ascii_uppercase()));
    assert_eq!(h1, blake3::hash(frame.pixels.as_ref()).to_hex().to_string());
    let mut other = Frame::default();
    other.set_pixel(0, 0, [1, 0, 0]);
    assert_ne!(frame_hash_hex(&other), h1);
}

#[test]
fn rom_load_outcome_follows_backend() {
    let info = parse_header(&make_minimal_nrom()).unwrap();
    assert_eq!(finish_rom_load(info, Ok(())).unwrap(), info);
    let err = finish_rom_load(info, Err("unimplemented mapper `4`".to_string())).unwrap_err();
    assert!(matches!(err, EmulatorError::Backend(ref m) if m == "unimplemented mapper `4`"));
    assert_eq!(err.message(), "backend error: unimplemented mapper `4`");
}

#[test]
fn terminal_claim_restores_once() {
    let mut c = TerminalClaim::managing();
    assert!(c.owns());
    assert!(c.release());
    assert!(!c.owns());
    assert!(!c.release());
    assert!(!c.release());
    let mut plain = TerminalClaim::unmanaged();
    assert!(!plain.owns());
    assert!(!plain.release());
}
