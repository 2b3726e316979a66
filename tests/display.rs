use bootdisplay::{
    banner, boot_sequence, char_writes, fits_line, pixel_offset, raster_writes, rust_panic,
    text_writes, BootState, Color, Fatal,
    Framebuffer, PixelWrite, GLYPH_HEIGHT, GLYPH_WIDTH,
};
use noto_sans_mono_bitmap::{get_raster, FontWeight, RasterHeight};

const ABSENT: char = '\u{4E2D}';

fn atlas(c: char) -> Vec<Vec<u8>> {
    get_raster(c, FontWeight::Regular, RasterHeight::Size24)
        .unwrap()
        .raster()
        .iter()
        .map(|row| row.to_vec())
        .collect()
}

fn chars(s: &str) -> Vec<char> {
    s.chars().collect()
}

#[test]
fn raw_int_packs_red_in_lowest_byte() {
    let c = Color { red: 0x01, green: 0x02, blue: 0x03, alpha: 0x04 };
    assert_eq!(c.raw_int(), 0x0403_0201);
    assert_eq!(Color::gray(0x7f).raw_int(), 0xff7f_7f7f);
}

#[test]
fn pixel_offset_uses_pitch_in_bytes() {
    assert_eq!(pixel_offset(0, 0, 4096), 0);
    assert_eq!(pixel_offset(3, 2, 4096), 2 * 4096 + 12);
    assert_eq!(pixel_offset(5, 1, 44), 44 + 20);
}

#[test]
fn pixel_round_trip_with_padded_pitch() {
    let mut fb = Framebuffer::new(10, 5, 48);
    let color = Color { red: 9, green: 80, blue: 200, alpha: 255 };
    fb.put_pixel(7, 3, color);
    assert_eq!(fb.read_pixel(7, 3), color.raw_int());
    let off = 3 * 48 + 7 * 4;
    assert_eq!(&fb.mem[off..off + 4], &[9, 80, 200, 255]);
    assert_eq!(fb.mem.iter().filter(|b| **b != 0).count(), 4);
    assert_eq!(fb.read_pixel(6, 3), 0);
}

#[test]
fn write32_then_read32() {
    let mut fb = Framebuffer::new(2, 2, 8);
    fb.write32(4, 0xdead_beef);
    assert_eq!(fb.read32(4), 0xdead_beef);
    assert_eq!(&fb.mem[4..8], &[0xef, 0xbe, 0xad, 0xde]);
}

#[test]
fn raster_writes_cover_cell_in_row_major_order() {
    let raster: Vec<Vec<u8>> = (0..GLYPH_HEIGHT)
        .map(|r| (0..GLYPH_WIDTH).map(|c| (r * GLYPH_WIDTH + c) as u8).collect())
        .collect();
    let ws = raster_writes(2, 1, &raster);
    assert_eq!(ws.len(), GLYPH_WIDTH * GLYPH_HEIGHT);
    for (k, w) in ws.iter().enumerate() {
        let (r, c) = (k / GLYPH_WIDTH, k % GLYPH_WIDTH);
        assert_eq!(w.x, 2 * GLYPH_WIDTH + c);
        assert_eq!(w.y, GLYPH_HEIGHT + r);
        assert_eq!(w.color, Color::gray(k as u8));
    }
}

#[test]
fn glyph_writes_are_opaque_gray_and_distinct() {
    let ws = char_writes(0, 0, 'H').unwrap();
    assert_eq!(ws.len(), 11 * 24);
    let raster = atlas('H');
    for w in &ws {
        assert_eq!(w.color.red, w.color.green);
        assert_eq!(w.color.green, w.color.blue);
        assert_eq!(w.color.alpha, 255);
        assert_eq!(w.color.red, raster[w.y][w.x]);
    }
    let mut places: Vec<(usize, usize)> = ws.iter().map(|w| (w.x, w.y)).collect();
    places.sort();
    places.dedup();
    assert_eq!(places.len(), 11 * 24);
}

#[test]
fn glyph_at_cell_is_shifted_origin_glyph() {
    let origin = char_writes(0, 0, 'A').unwrap();
    let moved = char_writes(3, 2, 'A').unwrap();
    assert_eq!(origin.len(), moved.len());
    for (a, b) in origin.iter().zip(moved.iter()) {
        assert_eq!(b.x, a.x + 3 * 11);
        assert_eq!(b.y, a.y + 2 * 24);
        assert_eq!(b.color, a.color);
    }
}

#[test]
fn absent_glyph_gives_none() {
    assert!(char_writes(0, 0, ABSENT).is_none());
}

#[test]
fn hi_paints_two_adjacent_cells() {
    let painted = text_writes(0, &chars("Hi"));
    assert_eq!(painted.unknown_at, None);
    let ws = &painted.writes;
    assert_eq!(ws.len(), 2 * 11 * 24);
    let (h, i) = (atlas('H'), atlas('i'));
    for w in &ws[..264] {
        assert!(w.x < 11 && w.y < 24);
        assert_eq!(w.color, Color::gray(h[w.y][w.x]));
    }
    for w in &ws[264..] {
        assert!(w.x >= 11 && w.x < 22 && w.y < 24);
        assert_eq!(w.color, Color::gray(i[w.y][w.x - 11]));
    }
    let mut places: Vec<(usize, usize)> = ws.iter().map(|w| (w.x, w.y)).collect();
    places.sort();
    places.dedup();
    assert_eq!(places.len(), 528);
}

#[test]
fn absent_char_stops_painting() {
    let painted = text_writes(0, &vec!['A', ABSENT, 'B']);
    assert_eq!(painted.unknown_at, Some(1));
    assert_eq!(painted.writes, char_writes(0, 0, 'A').unwrap());
}

#[test]
fn boot_without_framebuffer_writes_nothing() {
    let run = boot_sequence(true, false, &banner());
    assert!(run.writes.is_empty());
    assert_eq!(run.fatal, None);
}

#[test]
fn boot_with_unsupported_revision_is_fatal() {
    let run = boot_sequence(false, true, &banner());
    assert!(run.writes.is_empty());
    assert_eq!(run.fatal, Some(Fatal::UnsupportedRevision));
}

#[test]
fn boot_paints_banner() {
    let text = banner();
    assert_eq!(text.iter().collect::<String>(), "Hello World!");
    let run = boot_sequence(true, true, &text);
    assert_eq!(run.fatal, None);
    assert_eq!(run.writes.len(), 12 * 264);
    assert_eq!(run.writes[11 * 264].x, 11 * 11);
}

#[test]
fn boot_stops_at_unknown_char() {
    let run = boot_sequence(true, true, &vec!['o', 'k', ABSENT, 'x']);
    assert_eq!(run.fatal, Some(Fatal::UnsupportedChar(ABSENT)));
    assert_eq!(run.writes.len(), 2 * 264);
}

#[test]
fn put_char_paints_framebuffer() {
    let mut fb = Framebuffer::new(33, 48, 33 * 4 + 8);
    assert_eq!(fb.put_char(1, 1, 'H'), Ok(()));
    let raster = atlas('H');
    for y in 0..24 {
        for x in 0..11 {
            let v = raster[y][x];
            assert_eq!(fb.read_pixel(11 + x, 24 + y), Color::gray(v).raw_int());
        }
    }
    assert_eq!(fb.read_pixel(0, 0), 0);
    assert_eq!(fb.read_pixel(22, 24), 0);
}

#[test]
fn put_char_absent_leaves_memory() {
    let mut fb = Framebuffer::new(11, 24, 44);
    assert_eq!(fb.put_char(0, 0, ABSENT), Err(ABSENT));
    assert!(fb.mem.iter().all(|b| *b == 0));
}

#[test]
fn apply_performs_writes_in_order() {
    let mut fb = Framebuffer::new(4, 4, 16);
    let red = Color { red: 255, green: 0, blue: 0, alpha: 255 };
    let blue = Color { red: 0, green: 0, blue: 255, alpha: 255 };
    let ws = vec![
        PixelWrite { x: 1, y: 2, color: red },
        PixelWrite { x: 1, y: 2, color: blue },
        PixelWrite { x: 3, y: 0, color: red },
    ];
    fb.apply(&ws);
    assert_eq!(fb.read_pixel(1, 2), blue.raw_int());
    assert_eq!(fb.read_pixel(3, 0), red.raw_int());
}

#[test]
fn fatal_handler_halts() {
    assert_eq!(rust_panic(Fatal::UnsupportedChar(ABSENT)), BootState::Halted);
    assert_eq!(rust_panic(Fatal::UnsupportedRevision), BootState::Halted);
    assert_eq!(boot_sequence(true, true, &banner()).end, BootState::Halted);
    assert_eq!(boot_sequence(true, false, &banner()).end, BootState::Halted);
}

#[test]
fn fits_line_bounds() {
    assert!(fits_line(0, 12));
    assert!(!fits_line(0, usize::MAX));
    assert!(!fits_line(usize::MAX, 1));
}
