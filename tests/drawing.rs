use boykernel::font::{load_font, PSF2Font, PSF2_MAGIC};
use boykernel::render::{draw_char, Color, CursorState, FramebufferInfo, SimplifiedRenderer};

/// A font of `count` glyphs, 2 pixels wide and 2 high, one byte per row.
fn font_bytes(count: u32, glyphs: &[u8]) -> Vec<u8> {
    let mut b = Vec::new();
    for v in [PSF2_MAGIC, 0, 32, 0, count, 2, 2, 2] {
        b.extend_from_slice(&v.to_le_bytes());
    }
    b.extend_from_slice(glyphs);
    b
}

#[test]
fn reads_font_header_and_glyphs() {
    let f = PSF2Font::from_bytes(&font_bytes(2, &[0x80, 0x40, 0xC0, 0x00])).unwrap();
    assert_eq!(f.header.glyph_count, 2);
    assert_eq!(f.header.bytes_per_glyph, 2);
    assert_eq!(f.header.width, 2);
    assert_eq!(f.glyphs, vec![0x80, 0x40, 0xC0, 0x00]);
    assert_eq!(f.glyph(1), Some(&[0xC0u8, 0x00][..]));
    assert_eq!(f.glyph(2), None);
}

#[test]
fn rejects_truncated_or_foreign_fonts() {
    assert!(PSF2Font::from_bytes(&font_bytes(3, &[0x80, 0x40, 0xC0, 0x00])).is_none());
    let mut b = font_bytes(2, &[0x80, 0x40, 0xC0, 0x00]);
    b[0] = 0;
    assert!(PSF2Font::from_bytes(&b).is_none());
    assert!(load_font(&[0u8; 16]).is_none());
    assert!(load_font(&font_bytes(2, &[1, 2, 3, 4])).is_some());
}

#[test]
fn draws_glyph_bits_in_color() {
    let f = PSF2Font::from_bytes(&font_bytes(1, &[0x80, 0x40])).unwrap();
    let mut fb = vec![7u32; 16];
    draw_char(&mut fb, 4, 1, 1, 0xFFFFFF, 0x000000, &f, 0);
    let mut want = vec![7u32; 16];
    want[5] = 0xFFFFFF;
    want[6] = 0;
    want[9] = 0;
    want[10] = 0xFFFFFF;
    assert_eq!(fb, want);
}

#[test]
fn clips_at_right_edge_and_end_of_buffer() {
    let f = PSF2Font::from_bytes(&font_bytes(1, &[0xC0, 0xC0])).unwrap();
    let mut fb = vec![7u32; 8];
    draw_char(&mut fb, 4, 3, 1, 1, 0, &f, 0);
    let mut want = vec![7u32; 8];
    want[7] = 1;
    assert_eq!(fb, want);
}

#[test]
fn missing_glyph_draws_nothing() {
    let f = PSF2Font::from_bytes(&font_bytes(1, &[0xC0, 0xC0])).unwrap();
    let mut fb = vec![7u32; 8];
    draw_char(&mut fb, 4, 0, 0, 1, 0, &f, b'A');
    assert_eq!(fb, vec![7u32; 8]);
}

#[test]
fn color_values() {
    assert_eq!(Color::Black.as_u32(), 0x000000);
    assert_eq!(Color::White.as_u32(), 0xFFFFFF);
    assert_eq!(Color::Red.as_u32(), 0xFF0000);
    assert_eq!(Color::Green.as_u32(), 0x00FF00);
    assert_eq!(Color::Blue.as_u32(), 0x0000FF);
    assert_eq!(Color::Yellow.as_u32(), 0xFFFF00);
}

#[test]
fn constructors_keep_their_arguments() {
    let c = CursorState::new(3, 4);
    assert_eq!((c.x, c.y), (3, 4));
    let info = FramebufferInfo {
        address: 0x8000_0000,
        size: 4 * 640 * 480,
        width: 640,
        height: 480,
        stride: 640,
        format: 1,
    };
    let r = SimplifiedRenderer::new(info);
    assert_eq!(r.buffer, info);
}

#[test]
fn test_pattern_blocks_markers_and_frame() {
    let info = FramebufferInfo { address: 0, size: 400 * 300 * 4, width: 400, height: 300, stride: 400, format: 1 };
    let r = SimplifiedRenderer::new(info);
    let mut px = vec![0x123456u32; 400 * 300];
    r.render_content(&mut px);
    let at = |x: usize, y: usize| px[y * 400 + x];
    assert_eq!(at(60, 60), 0xFF0000);
    assert_eq!(at(149, 99), 0xFF0000);
    assert_eq!(at(150, 99), 0x123456);
    assert_eq!(at(210, 110), 0x00FF00);
    assert_eq!(at(310, 210), 0x0000FF);
    assert_eq!(at(0, 0), 0xFFFF00);
    assert_eq!(at(1, 1), 0xFF0000);
    assert_eq!(at(381, 1), 0xFF0000);
    assert_eq!(at(1, 298), 0xFF0000);
    assert_eq!(at(398, 298), 0xFF0000);
    assert_eq!(at(399, 150), 0xFFFF00);
    assert_eq!(at(200, 299), 0xFFFF00);
    assert_eq!(at(0, 150), 0xFFFF00);
    assert_eq!(at(25, 25), 0x123456);
}

#[test]
fn test_pattern_is_clipped_to_the_buffer() {
    let info = FramebufferInfo { address: 0, size: 24 * 22 * 4, width: 24, height: 22, stride: 24, format: 0 };
    let r = SimplifiedRenderer::new(info);
    let mut px = vec![0u32; 24 * 22];
    r.render_content(&mut px);
    for y in 0..22 {
        for x in 0..24 {
            let edge = x == 0 || y == 0 || x == 23 || y == 21;
            assert_eq!(px[y * 24 + x], if edge { 0xFFFF00 } else { 0xFF0000 });
        }
    }
}

/// 128 glyphs of 2 by 2 pixels; `A` has its top-left and bottom-right set.
fn ascii_font() -> PSF2Font {
    let mut glyphs = vec![0u8; 256];
    glyphs[130] = 0x80;
    glyphs[131] = 0x40;
    PSF2Font::from_bytes(&font_bytes(128, &glyphs)).unwrap()
}

fn screen(w: usize, h: usize) -> SimplifiedRenderer {
    SimplifiedRenderer::new(FramebufferInfo { address: 0, size: w * h * 4, width: w, height: h, stride: w, format: 1 })
}

#[test]
fn print_lays_out_and_wraps() {
    let r = screen(16, 16);
    let font = ascii_font();
    let mut cursor = CursorState::new(0, 0);
    let mut px = vec![7u32; 256];
    r.print("AAA", &font, &mut cursor, &mut px);
    assert_eq!((cursor.x, cursor.y), (10, 14));
    let mut want = vec![7u32; 256];
    for (x, y) in [(10, 10), (11, 11), (12, 10), (13, 11), (14, 10), (15, 11)] {
        want[y * 16 + x] = 0xFFFFFF;
    }
    for (x, y) in [(11, 10), (10, 11), (13, 10), (12, 11), (15, 10), (14, 11)] {
        want[y * 16 + x] = 0;
    }
    assert_eq!(px, want);
}

#[test]
fn println_ends_two_lines_down() {
    let r = screen(16, 16);
    let font = ascii_font();
    let mut cursor = CursorState::new(2, 2);
    let mut px = vec![7u32; 256];
    r.println("A", &font, &mut cursor, &mut px);
    assert_eq!((cursor.x, cursor.y), (10, 6));
    assert_eq!(px[2 * 16 + 2], 0xFFFFFF);
    assert_eq!(px[3 * 16 + 3], 0xFFFFFF);
    assert_eq!(px[2 * 16 + 3], 0);
}

#[test]
fn print_scrolls_when_the_line_runs_off_the_bottom() {
    let r = screen(16, 16);
    let font = ascii_font();
    let mut cursor = CursorState::new(2, 15);
    let mut px: Vec<u32> = (0..256).map(|i| 100 + (i / 16) as u32).collect();
    r.print("A", &font, &mut cursor, &mut px);
    assert_eq!((cursor.x, cursor.y), (10, 16));
    for y in 0..16usize {
        for x in 0..16usize {
            let want = match (x, y) {
                (2, 14) | (3, 15) => 0xFFFFFF,
                (3, 14) | (2, 15) => 0,
                (_, 15) => 0,
                _ => 100 + y as u32 + 1,
            };
            assert_eq!(px[y * 16 + x], want, "pixel ({x}, {y})");
        }
    }
}

#[test]
fn line_feeds_do_not_draw() {
    let r = screen(16, 16);
    let font = ascii_font();
    let mut cursor = CursorState::new(4, 0);
    let mut px = vec![7u32; 256];
    r.print("\n\n", &font, &mut cursor, &mut px);
    assert_eq!((cursor.x, cursor.y), (10, 6));
    assert_eq!(px, vec![7u32; 256]);
}

#[test]
fn clear_screen_blacks_out_the_visible_pixels() {
    let r = SimplifiedRenderer::new(FramebufferInfo { address: 0, size: 16, width: 2, height: 2, stride: 2, format: 1 });
    let mut px = vec![9u32; 6];
    r.clear_screen(&mut px);
    assert_eq!(px, vec![0, 0, 0, 0, 9, 9]);
}

#[test]
fn alphabet_lines_and_cursor() {
    let r = screen(64, 16);
    let font = ascii_font();
    let mut cursor = CursorState::new(0, 0);
    let mut px = vec![7u32; 64 * 16];
    r.show_alphabet(&font, &mut cursor, &mut px);
    assert_eq!((cursor.x, cursor.y), (10, 24));
    for y in 0..16usize {
        for x in 0..64usize {
            let want = if (10..12).contains(&y) && (10..62).contains(&x) {
                if (x, y) == (10, 10) || (x, y) == (11, 11) { 0xFFFFFF } else { 0 }
            } else {
                7
            };
            assert_eq!(px[y * 64 + x], want, "pixel ({x}, {y})");
        }
    }
}

#[test]
fn watermark_goes_to_bottom_right_corner() {
    let mut bytes = vec![b'P', b'6'];
    bytes.extend_from_slice(b" 2 1 255\n");
    bytes.extend_from_slice(&[1, 2, 3, 4, 5, 6]);
    let image = boykernel::ppm::parse_ppm(&bytes).unwrap();
    let r = SimplifiedRenderer::new(FramebufferInfo { address: 0, size: 60, width: 4, height: 3, stride: 5, format: 1 });
    let mut px = vec![7u32; 15];
    r.show_watermark(&image, &mut px);
    let mut want = vec![7u32; 15];
    want[2 * 5 + 2] = 0xFF01_0203;
    want[2 * 5 + 3] = 0xFF04_0506;
    assert_eq!(px, want);
}
