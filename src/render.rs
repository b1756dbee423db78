//! Drawing on a linear framebuffer of 32-bit pixels.

use vstd::prelude::*;
use vstd::arithmetic::div_mod::lemma_fundamental_div_mod_converse;
use crate::font::{PSF2Font, glyph_spec};
use crate::text::concat;
use crate::ppm::PpmImage;

verus! {

/// The framebuffer the loader hands to the kernel.
#[derive(PartialEq, Eq, Structural, Clone, Copy, Debug)]
pub struct FramebufferInfo {
    pub address: u64,
    pub size: usize,
    pub width: usize,
    pub height: usize,
    pub stride: usize,
    pub format: u32,
}

/// The colors used on screen.
#[derive(PartialEq, Eq, Structural, Clone, Copy, Debug)]
pub enum Color {
    Black,
    White,
    Red,
    Green,
    Blue,
    Yellow,
}

pub open spec fn color_value(c: Color) -> u32 {
    match c {
        Color::Black => 0x00_0000,
        Color::White => 0xFF_FFFF,
        Color::Red => 0xFF_0000,
        Color::Green => 0x00_FF00,
        Color::Blue => 0x00_00FF,
        Color::Yellow => 0xFF_FF00,
    }
}

impl Color {
    /// The pixel value of the color, red in bits 16 to 23.
    pub fn as_u32(self) -> (r: u32)
        ensures
            r == color_value(self),
    {
        match self {
            Color::Black => 0x00_0000,
            Color::White => 0xFF_FFFF,
            Color::Red => 0xFF_0000,
            Color::Green => 0x00_FF00,
            Color::Blue => 0x00_00FF,
            Color::Yellow => 0xFF_FF00,
        }
    }
}

/// Where the next character of text goes, in pixels.
#[derive(PartialEq, Eq, Structural, Clone, Copy, Debug)]
pub struct CursorState {
    pub x: usize,
    pub y: usize,
}

impl CursorState {
    pub fn new(x: usize, y: usize) -> (r: Self)
        ensures
            r == (CursorState { x, y }),
    {
        CursorState { x, y }
    }
}

/// Draws on the framebuffer that `buffer` describes.
pub struct SimplifiedRenderer {
    pub buffer: FramebufferInfo,
}

impl SimplifiedRenderer {
    pub fn new(buffer: FramebufferInfo) -> (r: Self)
        ensures
            r.buffer == buffer,
    {
        SimplifiedRenderer { buffer }
    }
}

/// Whether bit `col` of row `row` of glyph `g` is set.
pub open spec fn glyph_bit(g: Seq<u8>, bytes_per_row: nat, row: int, col: int) -> bool {
    let k = row * bytes_per_row + col / 8;
    k < g.len() && (g[k] >> ((7 - col % 8) as u8)) & 1 == 1
}

/// Whether pixel `i` of a framebuffer `fbw` pixels wide lies in the
/// `width` by `height` box at (`x`, `y`), in a row before `r`, or in row
/// `r` before column `c` (rows and columns counted from the box).
pub open spec fn in_box_before(
    fbw: nat,
    x: nat,
    y: nat,
    width: nat,
    height: nat,
    i: int,
    r: int,
    c: int,
) -> bool {
    &&& fbw > 0
    &&& x <= i % (fbw as int) < x + width
    &&& y <= i / (fbw as int) < y + height
    &&& (i / (fbw as int) - y < r || (i / (fbw as int) - y == r && i % (fbw as int) - x < c))
}

/// The one pixel that stepping past column `col` of row `row` adds to a box
/// lies at that row and column, at buffer index `(y + row) * w + (x + col)`.
proof fn lemma_box_step(w: nat, x: nat, y: nat, width: nat, height: nat, i: int, row: int, col: int)
    requires
        0 <= i,
        0 <= row,
    ensures
        in_box_before(w, x, y, width, height, i, row, col + 1) && !in_box_before(
            w,
            x,
            y,
            width,
            height,
            i,
            row,
            col,
        ) ==> {
            &&& i % (w as int) == x + col < w
            &&& i / (w as int) == y + row
            &&& i == (y + row) * w + (x + col)
            &&& i >= y + row
        },
{
    if in_box_before(w, x, y, width, height, i, row, col + 1) && !in_box_before(
        w,
        x,
        y,
        width,
        height,
        i,
        row,
        col,
    ) {
        let wi = w as int;
        vstd::arithmetic::div_mod::lemma_fundamental_div_mod(i, wi);
        assert(i == wi * (y + row) + (x + col));
        assert(wi * (y + row) == (y + row) * wi) by (nonlinear_arith);
        assert(wi * (y + row) >= y + row) by (nonlinear_arith)
            requires
                wi >= 1,
                y + row >= 0,
        ;
    }
}

/// Pixel `i` after drawing glyph `g` at (`x`, `y`).
pub open spec fn glyph_pixel(
    old: Seq<u32>,
    fbw: nat,
    x: nat,
    y: nat,
    color: u32,
    bg_color: u32,
    g: Seq<u8>,
    bytes_per_row: nat,
    i: int,
) -> u32 {
    if glyph_bit(g, bytes_per_row, i / (fbw as int) - y, i % (fbw as int) - x) {
        color
    } else {
        bg_color
    }
}

/// The buffer `old` after drawing character `ch` of `font` at (`x`, `y`),
/// as `draw_char` does.
pub open spec fn char_spec(
    old: Seq<u32>,
    fbw: nat,
    x: nat,
    y: nat,
    color: u32,
    bg_color: u32,
    font: &PSF2Font,
    ch: u8,
) -> Seq<u32> {
    match glyph_spec(font, ch as u32) {
        None => old,
        Some(g) => Seq::new(
            old.len(),
            |i: int|
                if in_box_before(
                    fbw,
                    x,
                    y,
                    font.header.width as nat,
                    font.header.height as nat,
                    i,
                    font.header.height as int,
                    0,
                ) {
                    glyph_pixel(old, fbw, x, y, color, bg_color, g, (font.header.width as nat + 7) / 8, i)
                } else {
                    old[i]
                },
        ),
    }
}

/// Draws character `ch` of `font` with its top-left corner at (`x`, `y`) on
/// a framebuffer `framebuffer_width` pixels per row: set bits in `color`,
/// clear bits in `bg_color`. Pixels past the right edge or the end of the
/// buffer are not drawn; a character the font lacks draws nothing.
pub fn draw_char(
    framebuffer: &mut Vec<u32>,
    framebuffer_width: usize,
    x: usize,
    y: usize,
    color: u32,
    bg_color: u32,
    font: &PSF2Font,
    ch: u8,
)
    ensures
        final(framebuffer)@ == char_spec(
            old(framebuffer)@,
            framebuffer_width as nat,
            x as nat,
            y as nat,
            color,
            bg_color,
            font,
            ch,
        ),
        final(framebuffer)@.len() == old(framebuffer)@.len(),
        glyph_spec(font, ch as u32) is None ==> final(framebuffer)@ == old(framebuffer)@,
        glyph_spec(font, ch as u32) matches Some(g) ==> forall|i: int|
            0 <= i < old(framebuffer)@.len() ==> #[trigger] final(framebuffer)@[i] == if in_box_before(
                framebuffer_width as nat,
                x as nat,
                y as nat,
                font.header.width as nat,
                font.header.height as nat,
                i,
                font.header.height as int,
                0,
            ) {
                glyph_pixel(
                    old(framebuffer)@,
                    framebuffer_width as nat,
                    x as nat,
                    y as nat,
                    color,
                    bg_color,
                    g,
                    (font.header.width as nat + 7) / 8,
                    i,
                )
            } else {
                old(framebuffer)@[i]
            },
{
    let glyph = match font.glyph(ch as u32) {
        Some(g) => g,
        None => {
            return;
        },
    };
    let ghost g = glyph@;
    let ghost old_fb = framebuffer@;
    let bytes_per_row: u64 = (font.header.width as u64 + 7) / 8;
    let height = font.header.height as u64;
    let width = font.header.width as u64;
    let fbw = framebuffer_width as u128;
    let ghost wn = font.header.width as nat;
    let ghost hn = font.header.height as nat;
    let mut row: u64 = 0;
    while row < height
        invariant
            0 <= row <= height,
            height == hn,
            width == wn,
            hn == font.header.height,
            wn == font.header.width,
            glyph_spec(font, ch as u32) == Some(g),
            fbw == framebuffer_width,
            g == glyph@,
            bytes_per_row == (wn + 7) / 8,
            framebuffer@.len() == old_fb.len(),
            forall|i: int|
                0 <= i < old_fb.len() ==> #[trigger] framebuffer@[i] == if in_box_before(
                    framebuffer_width as nat,
                    x as nat,
                    y as nat,
                    wn,
                    hn,
                    i,
                    row as int,
                    0,
                ) {
                    glyph_pixel(
                        old_fb,
                        framebuffer_width as nat,
                        x as nat,
                        y as nat,
                        color,
                        bg_color,
                        g,
                        (wn + 7) / 8,
                        i,
                    )
                } else {
                    old_fb[i]
                },
        decreases height - row,
    {
        let mut col: u64 = 0;
        while col < width
            invariant
                0 <= row < height,
                0 <= col <= width,
                height == hn,
                width == wn,
                hn == font.header.height,
                wn == font.header.width,
                glyph_spec(font, ch as u32) == Some(g),
                fbw == framebuffer_width,
                g == glyph@,
                bytes_per_row == (wn + 7) / 8,
                framebuffer@.len() == old_fb.len(),
                forall|i: int|
                    0 <= i < old_fb.len() ==> #[trigger] framebuffer@[i] == if in_box_before(
                        framebuffer_width as nat,
                        x as nat,
                        y as nat,
                        wn,
                        hn,
                        i,
                        row as int,
                        col as int,
                    ) {
                        glyph_pixel(
                        old_fb,
                        framebuffer_width as nat,
                        x as nat,
                        y as nat,
                        color,
                        bg_color,
                        g,
                        (wn + 7) / 8,
                        i,
                    )
                    } else {
                        old_fb[i]
                    },
            decreases width - col,
        {
            assert(row * bytes_per_row <= 0xFFFF_FFFF * 0x2000_0000) by (nonlinear_arith)
                requires
                    row <= 0xFFFF_FFFF,
                    bytes_per_row <= 0x2000_0000,
            ;
            let k = row * bytes_per_row + col / 8;
            let byte: u8 = if k < glyph.len() as u64 {
                glyph[k as usize]
            } else {
                0
            };
            let bit = (7 - col % 8) as u8;
            let on = (byte >> bit) & 1;
            let fb_x = x as u128 + col as u128;
            let fb_y = y as u128 + row as u128;
            let len = framebuffer.len() as u128;
            let visible = if fb_x < fbw && fb_y < len {
                assert(fb_y * fbw <= 0xFFFF_FFFF_FFFF_FFFF * 0xFFFF_FFFF_FFFF_FFFF) by (nonlinear_arith)
                    requires
                        fb_y <= 0xFFFF_FFFF_FFFF_FFFF,
                        fbw <= 0xFFFF_FFFF_FFFF_FFFF,
                ;
                fb_y * fbw + fb_x < len
            } else {
                false
            };
            if visible {
                let index = (fb_y * fbw + fb_x) as usize;
                let value = if on != 0 {
                    color
                } else {
                    bg_color
                };
                proof {
                    lemma_fundamental_div_mod_converse(
                        index as int,
                        framebuffer_width as int,
                        (y + row) as int,
                        (x + col) as int,
                    );
                }
                framebuffer.set(index, value);
                assert forall|i: int| 0 <= i < old_fb.len() implies
                    #[trigger] framebuffer@[i] == if in_box_before(
                    framebuffer_width as nat,
                    x as nat,
                    y as nat,
                    wn,
                    hn,
                    i,
                    row as int,
                    col + 1,
                ) {
                    glyph_pixel(
                        old_fb,
                        framebuffer_width as nat,
                        x as nat,
                        y as nat,
                        color,
                        bg_color,
                        g,
                        (wn + 7) / 8,
                        i,
                    )
                } else {
                    old_fb[i]
                } by {
                    lemma_box_step(
                        framebuffer_width as nat,
                        x as nat,
                        y as nat,
                        wn,
                        hn,
                        i,
                        row as int,
                        col as int,
                    );
                    if i == index {
                        assert(k == row * ((wn + 7) / 8) + col / 8);
                        assert(((byte >> bit) & 1u8 != 0) == ((byte >> bit) & 1u8 == 1)) by (bit_vector);
                        assert(((0u8 >> bit) & 1u8) == 0) by (bit_vector);
                        assert(glyph_bit(g, (wn + 7) / 8, row as int, col as int) == (on != 0));
                    }
                }
            } else {
                assert forall|i: int| 0 <= i < old_fb.len() implies
                    #[trigger] framebuffer@[i] == if in_box_before(
                    framebuffer_width as nat,
                    x as nat,
                    y as nat,
                    wn,
                    hn,
                    i,
                    row as int,
                    col + 1,
                ) {
                    glyph_pixel(
                        old_fb,
                        framebuffer_width as nat,
                        x as nat,
                        y as nat,
                        color,
                        bg_color,
                        g,
                        (wn + 7) / 8,
                        i,
                    )
                } else {
                    old_fb[i]
                } by {
                    lemma_box_step(
                        framebuffer_width as nat,
                        x as nat,
                        y as nat,
                        wn,
                        hn,
                        i,
                        row as int,
                        col as int,
                    );
                }
            }
            col = col + 1;
        }
        assert forall|i: int| 0 <= i < old_fb.len() implies in_box_before(
            framebuffer_width as nat, x as nat, y as nat, wn, hn, i, row as int, width as int,
        ) == in_box_before(framebuffer_width as nat, x as nat, y as nat, wn, hn, i, row + 1, 0) by {}
        row = row + 1;
    }
    assert(framebuffer@ =~= char_spec(
        old_fb,
        framebuffer_width as nat,
        x as nat,
        y as nat,
        color,
        bg_color,
        font,
        ch,
    ));
}

/// The buffer `old` after filling the `width` by `height` rectangle at
/// (`x`, `y`) with `color`, rows being `stride` pixels apart; pixels past the
/// end of a row or of the buffer are not drawn.
pub open spec fn rect_spec(
    old: Seq<u32>,
    stride: nat,
    x: nat,
    y: nat,
    width: nat,
    height: nat,
    color: u32,
) -> Seq<u32> {
    Seq::new(
        old.len(),
        |i: int|
            if in_box_before(stride, x, y, width, height, i, height as int, 0) {
                color
            } else {
                old[i]
            },
    )
}

/// Fills a rectangle as `rect_spec` says.
fn draw_rectangle(
    fb: &mut Vec<u32>,
    stride: usize,
    x: usize,
    y: usize,
    width: usize,
    height: usize,
    color: u32,
)
    ensures
        final(fb)@ == rect_spec(
            old(fb)@,
            stride as nat,
            x as nat,
            y as nat,
            width as nat,
            height as nat,
            color,
        ),
{
    let ghost old_fb = fb@;
    let st = stride as u128;
    let mut row: usize = 0;
    while row < height
        invariant
            0 <= row <= height,
            st == stride,
            fb@.len() == old_fb.len(),
            forall|i: int|
                0 <= i < old_fb.len() ==> #[trigger] fb@[i] == if in_box_before(
                    stride as nat,
                    x as nat,
                    y as nat,
                    width as nat,
                    height as nat,
                    i,
                    row as int,
                    0,
                ) {
                    color
                } else {
                    old_fb[i]
                },
        decreases height - row,
    {
        let mut col: usize = 0;
        while col < width
            invariant
                0 <= row < height,
                0 <= col <= width,
                st == stride,
                fb@.len() == old_fb.len(),
                forall|i: int|
                    0 <= i < old_fb.len() ==> #[trigger] fb@[i] == if in_box_before(
                        stride as nat,
                        x as nat,
                        y as nat,
                        width as nat,
                        height as nat,
                        i,
                        row as int,
                        col as int,
                    ) {
                        color
                    } else {
                        old_fb[i]
                    },
            decreases width - col,
        {
            let px = x as u128 + col as u128;
            let py = y as u128 + row as u128;
            let len = fb.len() as u128;
            let visible = if px < st && py < len {
                assert(py * st <= 0xFFFF_FFFF_FFFF_FFFF * 0xFFFF_FFFF_FFFF_FFFF) by (nonlinear_arith)
                    requires
                        py <= 0xFFFF_FFFF_FFFF_FFFF,
                        st <= 0xFFFF_FFFF_FFFF_FFFF,
                ;
                py * st + px < len
            } else {
                false
            };
            if visible {
                let index = (py * st + px) as usize;
                proof {
                    lemma_fundamental_div_mod_converse(
                        index as int,
                        stride as int,
                        (y + row) as int,
                        (x + col) as int,
                    );
                }
                fb.set(index, color);
                assert forall|i: int| 0 <= i < old_fb.len() implies
                    #[trigger] fb@[i] == if in_box_before(
                    stride as nat,
                    x as nat,
                    y as nat,
                    width as nat,
                    height as nat,
                    i,
                    row as int,
                    col + 1,
                ) {
                    color
                } else {
                    old_fb[i]
                } by {
                    lemma_box_step(
                        stride as nat,
                        x as nat,
                        y as nat,
                        width as nat,
                        height as nat,
                        i,
                        row as int,
                        col as int,
                    );
                }
            } else {
                assert forall|i: int| 0 <= i < old_fb.len() implies
                    #[trigger] fb@[i] == if in_box_before(
                    stride as nat,
                    x as nat,
                    y as nat,
                    width as nat,
                    height as nat,
                    i,
                    row as int,
                    col + 1,
                ) {
                    color
                } else {
                    old_fb[i]
                } by {
                    lemma_box_step(
                        stride as nat,
                        x as nat,
                        y as nat,
                        width as nat,
                        height as nat,
                        i,
                        row as int,
                        col as int,
                    );
                }
            }
            col = col + 1;
        }
        row = row + 1;
    }
    assert(fb@ =~= rect_spec(old_fb, stride as nat, x as nat, y as nat, width as nat, height as nat, color));
}

/// The buffer `old` after drawing a one-pixel frame around the `width` by
/// `height` screen whose rows are `stride` pixels apart.
pub open spec fn border_spec(old: Seq<u32>, width: nat, stride: nat, height: nat, color: u32) -> Seq<
    u32,
> {
    rect_spec(
        rect_spec(
            rect_spec(
                rect_spec(old, stride, 0, 0, width, 1, color),
                stride,
                0,
                (height - 1) as nat,
                width,
                1,
                color,
            ),
            stride,
            0,
            0,
            1,
            height,
            color,
        ),
        stride,
        (width - 1) as nat,
        0,
        1,
        height,
        color,
    )
}

/// Draws the top and bottom rows and the left and right columns.
fn draw_border(fb: &mut Vec<u32>, width: usize, stride: usize, height: usize, color: u32)
    requires
        width >= 1,
        height >= 1,
    ensures
        final(fb)@ == border_spec(old(fb)@, width as nat, stride as nat, height as nat, color),
{
    draw_rectangle(fb, stride, 0, 0, width, 1, color);
    draw_rectangle(fb, stride, 0, height - 1, width, 1, color);
    draw_rectangle(fb, stride, 0, 0, 1, height, color);
    draw_rectangle(fb, stride, width - 1, 0, 1, height, color);
}

/// Size of the corner markers.
pub const MARKER: usize = 20;

/// The test pattern that `render_content` draws over `old` for a screen of
/// `width` by `height` pixels, rows `stride` pixels apart.
pub open spec fn content_spec(old: Seq<u32>, width: nat, height: nat, stride: nat) -> Seq<u32> {
    let red = color_value(Color::Red);
    let s1 = rect_spec(old, stride, 50, 50, 100, 50, red);
    let s2 = rect_spec(s1, stride, 200, 100, 80, 120, color_value(Color::Green));
    let s3 = rect_spec(s2, stride, 300, 200, 60, 60, color_value(Color::Blue));
    let s4 = rect_spec(s3, stride, 0, 0, 20, 20, red);
    let s5 = rect_spec(s4, stride, (width - 20) as nat, 0, 20, 20, red);
    let s6 = rect_spec(s5, stride, 0, (height - 20) as nat, 20, 20, red);
    let s7 = rect_spec(s6, stride, (width - 20) as nat, (height - 20) as nat, 20, 20, red);
    border_spec(s7, width, stride, height, color_value(Color::Yellow))
}

impl SimplifiedRenderer {
    /// Draws the test pattern into `pixels`, the framebuffer's contents: red,
    /// green and blue blocks, a red marker in each corner, a yellow frame.
    pub fn render_content(&self, pixels: &mut Vec<u32>)
        requires
            self.buffer.width >= MARKER,
            self.buffer.height >= MARKER,
        ensures
            final(pixels)@ == content_spec(
                old(pixels)@,
                self.buffer.width as nat,
                self.buffer.height as nat,
                self.buffer.stride as nat,
            ),
    {
        let width = self.buffer.width;
        let height = self.buffer.height;
        let stride = self.buffer.stride;
        let red = Color::Red.as_u32();
        draw_rectangle(pixels, stride, 50, 50, 100, 50, red);
        draw_rectangle(pixels, stride, 200, 100, 80, 120, Color::Green.as_u32());
        draw_rectangle(pixels, stride, 300, 200, 60, 60, Color::Blue.as_u32());
        draw_rectangle(pixels, stride, 0, 0, MARKER, MARKER, red);
        draw_rectangle(pixels, stride, width - MARKER, 0, MARKER, MARKER, red);
        draw_rectangle(pixels, stride, 0, height - MARKER, MARKER, MARKER, red);
        draw_rectangle(pixels, stride, width - MARKER, height - MARKER, MARKER, MARKER, red);
        draw_border(pixels, width, stride, height, Color::Yellow.as_u32());
    }
}

/// The buffer `old` after moving the first `height` rows of `width` pixels up
/// by `rows` rows and painting the rows freed at the bottom black.
pub open spec fn scroll_spec(old: Seq<u32>, width: nat, height: nat, rows: nat) -> Seq<u32> {
    Seq::new(
        old.len(),
        |i: int|
            if i < (height - rows) * width {
                old[i + rows * width]
            } else if i < height * width {
                color_value(Color::Black)
            } else {
                old[i]
            },
    )
}

/// Scrolls the screen up by `rows` rows, as `scroll_spec` says.
fn scroll_up(fb: &mut Vec<u32>, width: usize, height: usize, rows: usize)
    requires
        rows <= height,
        height * width <= old(fb)@.len(),
    ensures
        final(fb)@ == scroll_spec(old(fb)@, width as nat, height as nat, rows as nat),
{
    let ghost old_fb = fb@;
    let len = fb.len();
    assert(height * width <= len);
    assert((height - rows) * width + rows * width == height * width) by (nonlinear_arith)
        requires
            rows <= height,
    ;
    assert(rows * width <= height * width) by (nonlinear_arith)
        requires
            rows <= height,
    ;
    let shift = rows * width;
    let kept = (height - rows) * width;
    let total = height * width;
    let mut d: usize = 0;
    while d < kept
        invariant
            d <= kept,
            kept + shift == total,
            total <= old_fb.len(),
            fb@.len() == old_fb.len(),
            forall|i: int| 0 <= i < d ==> #[trigger] fb@[i] == old_fb[i + shift],
            forall|i: int| d <= i < old_fb.len() ==> #[trigger] fb@[i] == old_fb[i],
        decreases kept - d,
    {
        let v = fb[d + shift];
        fb.set(d, v);
        d = d + 1;
    }
    while d < total
        invariant
            kept <= d <= total,
            kept + shift == total,
            total <= old_fb.len(),
            fb@.len() == old_fb.len(),
            forall|i: int| 0 <= i < kept ==> #[trigger] fb@[i] == old_fb[i + shift],
            forall|i: int| kept <= i < d ==> #[trigger] fb@[i] == color_value(Color::Black),
            forall|i: int| d <= i < old_fb.len() ==> #[trigger] fb@[i] == old_fb[i],
        decreases total - d,
    {
        fb.set(d, Color::Black.as_u32());
        d = d + 1;
    }
    assert(fb@ =~= scroll_spec(old_fb, width as nat, height as nat, rows as nat));
}

/// Left margin of text, and the first line's top when the cursor is unset.
pub const TEXT_MARGIN: usize = 10;

/// Cursor and buffer after printing `ch`: a line feed starts a new line; any
/// other character first scrolls the screen so that its line fits, is drawn
/// white on black, and moves the cursor right, wrapping at the right edge.
pub open spec fn print_char_spec(
    font: &PSF2Font,
    width: nat,
    height: nat,
    st: (nat, nat, Seq<u32>),
    ch: char,
) -> (nat, nat, Seq<u32>) {
    let (x, y, fb) = st;
    let fw = font.header.width as nat;
    let fh = font.header.height as nat;
    if ch == '\n' {
        (TEXT_MARGIN as nat, y + fh, fb)
    } else {
        let y1 = if y + fh > height {
            (height - fh) as nat
        } else {
            y
        };
        let fb1 = if y + fh > height {
            let over = (y + fh - height) as nat;
            scroll_spec(fb, width, height, if over < height { over } else { height })
        } else {
            fb
        };
        let fb2 = char_spec(
            fb1,
            width,
            x,
            y1,
            color_value(Color::White),
            color_value(Color::Black),
            font,
            ((ch as u32) % 256) as u8,
        );
        if x + fw + fw > width {
            (TEXT_MARGIN as nat, y1 + fh, fb2)
        } else {
            (x + fw, y1, fb2)
        }
    }
}

/// Cursor and buffer after printing `chars` in order from `st`.
pub open spec fn print_chars_spec(
    font: &PSF2Font,
    width: nat,
    height: nat,
    st: (nat, nat, Seq<u32>),
    chars: Seq<char>,
) -> (nat, nat, Seq<u32>)
    decreases chars.len(),
{
    if chars.len() == 0 {
        st
    } else {
        print_char_spec(
            font,
            width,
            height,
            print_chars_spec(font, width, height, st, chars.drop_last()),
            chars.last(),
        )
    }
}

/// Cursor and buffer after `print`: an unset cursor (at the origin) starts
/// at the margin, and the cursor ends at the start of the next line.
pub open spec fn print_spec(
    font: &PSF2Font,
    width: nat,
    height: nat,
    cursor: CursorState,
    fb: Seq<u32>,
    text: Seq<char>,
) -> (nat, nat, Seq<u32>) {
    let (x0, y0) = if cursor.x == 0 && cursor.y == 0 {
        (TEXT_MARGIN as nat, TEXT_MARGIN as nat)
    } else {
        (cursor.x as nat, cursor.y as nat)
    };
    let (x, y, out) = print_chars_spec(font, width, height, (x0, y0, fb), text);
    (TEXT_MARGIN as nat, (y + font.header.height) as nat, out)
}

pub open spec fn max3(a: nat, b: nat, c: nat) -> nat {
    if a >= b && a >= c {
        a
    } else if b >= c {
        b
    } else {
        c
    }
}

impl SimplifiedRenderer {
    /// Prints `text` in `font` at `cursor` into `pixels`, the framebuffer's
    /// contents, rows `width` pixels apart, and leaves the cursor at the start
    /// of the following line.
    pub fn print(&self, text: &str, font: &PSF2Font, cursor: &mut CursorState, pixels: &mut Vec<u32>)
        requires
            font.header.height <= self.buffer.height,
            self.buffer.height * self.buffer.width <= old(pixels)@.len(),
            max3(old(cursor).x as nat, TEXT_MARGIN as nat, self.buffer.width as nat) + 2
                * font.header.width <= usize::MAX,
            old(cursor).y + TEXT_MARGIN + (text@.len() + 1) * font.header.height <= usize::MAX,
        ensures
            ({
                let (x, y, out) = print_spec(
                    font,
                    self.buffer.width as nat,
                    self.buffer.height as nat,
                    *old(cursor),
                    old(pixels)@,
                    text@,
                );
                &&& final(cursor).x == x
                &&& final(cursor).y == y
                &&& final(pixels)@ == out
            }),
    {
        let width = self.buffer.width;
        let height = self.buffer.height;
        let fw = font.header.width as usize;
        let fh = font.header.height as usize;
        let ghost x0 = cursor.x as nat;
        let ghost y0 = cursor.y as nat;
        if cursor.x == 0 && cursor.y == 0 {
            cursor.x = TEXT_MARGIN;
            cursor.y = TEXT_MARGIN;
        }
        let ghost xs = cursor.x as nat;
        let ghost ys = cursor.y as nat;
        let ghost fb0 = pixels@;
        let n = text.unicode_len();
        let mut i: usize = 0;
        while i < n
            invariant
                n == text@.len(),
                i <= n,
                fw == font.header.width,
                fh == font.header.height,
                width == self.buffer.width,
                height == self.buffer.height,
                fh <= height,
                height * width <= pixels@.len(),
                pixels@.len() == fb0.len(),
                cursor.x <= max3(x0, TEXT_MARGIN as nat, width as nat),
                max3(x0, TEXT_MARGIN as nat, width as nat) + 2 * fw <= usize::MAX,
                cursor.y <= ys + i * fh,
                ys <= y0 + TEXT_MARGIN,
                y0 + TEXT_MARGIN + (n + 1) * fh <= usize::MAX,
                print_chars_spec(
                    font,
                    width as nat,
                    height as nat,
                    (xs, ys, fb0),
                    text@.subrange(0, i as int),
                ) == (cursor.x as nat, cursor.y as nat, pixels@),
            decreases n - i,
        {
            let ch = text.get_char(i);
            proof {
                assert(text@.subrange(0, i + 1).drop_last() =~= text@.subrange(0, i as int));
                assert(text@.subrange(0, i + 1).last() == ch);
                assert((i + 1) * fh == i * fh + fh) by (nonlinear_arith);
                assert(i * fh + fh <= (n + 1) * fh) by (nonlinear_arith)
                    requires
                        i < n,
                ;
            }
            if ch == '\n' {
                cursor.x = TEXT_MARGIN;
                cursor.y = cursor.y + fh;
            } else {
                if cursor.y + fh > height {
                    let over = cursor.y + fh - height;
                    let rows = if over < height {
                        over
                    } else {
                        height
                    };
                    cursor.y = height - fh;
                    scroll_up(pixels, width, height, rows);
                }
                draw_char(
                    pixels,
                    width,
                    cursor.x,
                    cursor.y,
                    Color::White.as_u32(),
                    Color::Black.as_u32(),
                    font,
                    (ch as u32 % 256) as u8,
                );
                if cursor.x + fw + fw > width {
                    cursor.x = TEXT_MARGIN;
                    cursor.y = cursor.y + fh;
                } else {
                    cursor.x = cursor.x + fw;
                }
            }
            i = i + 1;
        }
        assert(text@.subrange(0, n as int) =~= text@);
        proof {
            assert(n * fh + fh == (n + 1) * fh) by (nonlinear_arith);
        }
        cursor.x = TEXT_MARGIN;
        cursor.y = cursor.y + fh;
    }

    /// Prints `text` followed by a line feed.
    pub fn println(&self, text: &str, font: &PSF2Font, cursor: &mut CursorState, pixels: &mut Vec<u32>)
        requires
            font.header.height <= self.buffer.height,
            self.buffer.height * self.buffer.width <= old(pixels)@.len(),
            max3(old(cursor).x as nat, TEXT_MARGIN as nat, self.buffer.width as nat) + 2
                * font.header.width <= usize::MAX,
            old(cursor).y + TEXT_MARGIN + (text@.len() + 2) * font.header.height <= usize::MAX,
        ensures
            ({
                let (x, y, out) = print_spec(
                    font,
                    self.buffer.width as nat,
                    self.buffer.height as nat,
                    *old(cursor),
                    old(pixels)@,
                    text@ + seq!['\n'],
                );
                &&& final(cursor).x == x
                &&& final(cursor).y == y
                &&& final(pixels)@ == out
            }),
    {
        let line = concat(text, "\n");
        proof {
            reveal_strlit("\n");
            assert("\n"@ =~= seq!['\n']);
        }
        self.print(line.as_str(), font, cursor, pixels);
    }
}

impl SimplifiedRenderer {
    /// Paints the first `size / 4` pixels of `pixels` black.
    pub fn clear_screen(&self, pixels: &mut Vec<u32>)
        ensures
            final(pixels)@.len() == old(pixels)@.len(),
            forall|i: int|
                0 <= i < old(pixels)@.len() ==> #[trigger] final(pixels)@[i] == if i < self.buffer.size
                    / 4 {
                    color_value(Color::Black)
                } else {
                    old(pixels)@[i]
                },
    {
        let ghost old_px = pixels@;
        let n = self.buffer.size / 4;
        let mut i: usize = 0;
        while i < n && i < pixels.len()
            invariant
                n == self.buffer.size / 4,
                pixels@.len() == old_px.len(),
                i <= old_px.len(),
                i <= n,
                forall|k: int|
                    0 <= k < old_px.len() ==> #[trigger] pixels@[k] == if k < i {
                        color_value(Color::Black)
                    } else {
                        old_px[k]
                    },
            decreases old_px.len() - i,
        {
            pixels.set(i, Color::Black.as_u32());
            i = i + 1;
        }
    }
}

/// Gap between the two alphabet lines.
pub const ALPHABET_PADDING: usize = 10;

/// The buffer after drawing the `count` letters from `first` on, `letter_width`
/// pixels apart, from (`x`, `y`).
pub open spec fn letters_spec(
    old: Seq<u32>,
    fbw: nat,
    x: nat,
    y: nat,
    letter_width: nat,
    font: &PSF2Font,
    first: u8,
    count: nat,
) -> Seq<u32>
    decreases count,
{
    if count == 0 {
        old
    } else {
        let before = letters_spec(old, fbw, x, y, letter_width, font, first, (count - 1) as nat);
        char_spec(
            before,
            fbw,
            (x + (count - 1) * letter_width) as nat,
            y,
            color_value(Color::White),
            color_value(Color::Black),
            font,
            (first + count - 1) as u8,
        )
    }
}

/// Draws `count` consecutive letters from `first` on one line.
fn draw_letters(
    pixels: &mut Vec<u32>,
    fbw: usize,
    x: usize,
    y: usize,
    letter_width: usize,
    font: &PSF2Font,
    first: u8,
    count: u8,
)
    requires
        first + count <= 256,
        x + count * letter_width <= usize::MAX,
    ensures
        final(pixels)@ == letters_spec(
            old(pixels)@,
            fbw as nat,
            x as nat,
            y as nat,
            letter_width as nat,
            font,
            first,
            count as nat,
        ),
{
    let ghost old_px = pixels@;
    let mut i: u8 = 0;
    while i < count
        invariant
            i <= count,
            first + count <= 256,
            x + count * letter_width <= usize::MAX,
            pixels@ == letters_spec(
                old_px,
                fbw as nat,
                x as nat,
                y as nat,
                letter_width as nat,
                font,
                first,
                i as nat,
            ),
        decreases count - i,
    {
        assert(i * letter_width <= count * letter_width) by (nonlinear_arith)
            requires
                i <= count,
        ;
        draw_char(
            pixels,
            fbw,
            x + (i as usize) * letter_width,
            y,
            Color::White.as_u32(),
            Color::Black.as_u32(),
            font,
            first + i,
        );
        i = i + 1;
    }
}

impl SimplifiedRenderer {
    /// Draws the upper-case alphabet and, one line and a gap below, the
    /// lower-case alphabet, then moves the cursor below both.
    pub fn show_alphabet(&self, font: &PSF2Font, cursor: &mut CursorState, pixels: &mut Vec<u32>)
        requires
            10 + 26 * font.header.width <= usize::MAX,
            (ALPHABET_PADDING + font.header.height) * 2 <= usize::MAX,
        ensures
            final(pixels)@ == letters_spec(
                letters_spec(
                    old(pixels)@,
                    self.buffer.width as nat,
                    10,
                    10,
                    font.header.width as nat,
                    font,
                    0x41,
                    26,
                ),
                self.buffer.width as nat,
                10,
                (10 + font.header.height + ALPHABET_PADDING) as nat,
                font.header.width as nat,
                font,
                0x61,
                26,
            ),
            final(cursor).x == 10,
            final(cursor).y == (ALPHABET_PADDING + font.header.height) * 2,
    {
        let letter_width = font.header.width as usize;
        let height = font.header.height as usize;
        draw_letters(pixels, self.buffer.width, 10, 10, letter_width, font, 0x41, 26);
        draw_letters(
            pixels,
            self.buffer.width,
            10,
            10 + (height + ALPHABET_PADDING),
            letter_width,
            font,
            0x61,
            26,
        );
        cursor.x = 10;
        cursor.y = (ALPHABET_PADDING + height) * 2;
    }
}

/// The opaque pixel value of the three color bytes at `k` of `data`.
pub open spec fn rgb_at(data: Seq<u8>, k: int) -> u32 {
    0xFF00_0000u32 | ((data[k] as u32) << 16u32) | ((data[k + 1] as u32) << 8u32) | (data[k + 2] as u32)
}

/// The buffer `old` after copying the `width` by `height` image `data` into
/// the bottom-right corner of the `fbw` by `fbh` screen, rows `stride` pixels
/// apart.
pub open spec fn watermark_spec(
    old: Seq<u32>,
    stride: nat,
    fbw: nat,
    fbh: nat,
    width: nat,
    height: nat,
    data: Seq<u8>,
) -> Seq<u32> {
    let x0 = (fbw - width) as nat;
    let y0 = (fbh - height) as nat;
    Seq::new(
        old.len(),
        |i: int|
            if in_box_before(stride, x0, y0, width, height, i, height as int, 0) {
                rgb_at(
                    data,
                    ((i / (stride as int) - y0) * width + (i % (stride as int) - x0)) * 3,
                )
            } else {
                old[i]
            },
    )
}

impl SimplifiedRenderer {
    /// Copies `image` into the bottom-right corner of the screen in `pixels`,
    /// each pixel opaque; pixels past the end of the buffer are not drawn.
    pub fn show_watermark(&self, image: &PpmImage, pixels: &mut Vec<u32>)
        requires
            image.width <= self.buffer.width <= self.buffer.stride,
            image.height <= self.buffer.height,
            image.data@.len() == image.width * image.height * 3,
        ensures
            final(pixels)@ == watermark_spec(
                old(pixels)@,
                self.buffer.stride as nat,
                self.buffer.width as nat,
                self.buffer.height as nat,
                image.width as nat,
                image.height as nat,
                image.data@,
            ),
    {
        let ghost old_fb = pixels@;
        let width = image.width;
        let height = image.height;
        let stride = self.buffer.stride;
        let x0 = self.buffer.width - width;
        let y0 = self.buffer.height - height;
        let st = stride as u128;
        let data = image.data;
        let dlen = data.len();
        let mut row: usize = 0;
        while row < height
            invariant
                0 <= row <= height,
                st == stride,
                stride == self.buffer.stride,
                x0 + width <= stride,
                data@ == image.data@,
                data@.len() == dlen,
                data@.len() == width * height * 3,
                pixels@.len() == old_fb.len(),
                forall|i: int|
                    0 <= i < old_fb.len() ==> #[trigger] pixels@[i] == if in_box_before(
                        stride as nat,
                        x0 as nat,
                        y0 as nat,
                        width as nat,
                        height as nat,
                        i,
                        row as int,
                        0,
                    ) {
                        rgb_at(
                            data@,
                            ((i / (stride as int) - y0) * width + (i % (stride as int) - x0)) * 3,
                        )
                    } else {
                        old_fb[i]
                    },
            decreases height - row,
        {
            let mut col: usize = 0;
            while col < width
                invariant
                    0 <= row < height,
                    0 <= col <= width,
                    st == stride,
                    x0 + width <= stride,
                    data@.len() == dlen,
                    data@.len() == width * height * 3,
                    pixels@.len() == old_fb.len(),
                    forall|i: int|
                        0 <= i < old_fb.len() ==> #[trigger] pixels@[i] == if in_box_before(
                            stride as nat,
                            x0 as nat,
                            y0 as nat,
                            width as nat,
                            height as nat,
                            i,
                            row as int,
                            col as int,
                        ) {
                            rgb_at(
                            data@,
                            ((i / (stride as int) - y0) * width + (i % (stride as int) - x0)) * 3,
                        )
                        } else {
                            old_fb[i]
                        },
                decreases width - col,
            {
                assert((row * width + col) * 3 + 3 <= width * height * 3) by (nonlinear_arith)
                    requires
                        row < height,
                        col < width,
                ;
                let k = (row * width + col) * 3;
                let color = 0xFF00_0000u32 | ((data[k] as u32) << 16u32) | ((data[k + 1] as u32) << 8u32)
                    | (data[k + 2] as u32);
                let px = x0 as u128 + col as u128;
                let py = y0 as u128 + row as u128;
                let len = pixels.len() as u128;
                let visible = if py < len {
                    assert(py * st <= 0xFFFF_FFFF_FFFF_FFFF * 0xFFFF_FFFF_FFFF_FFFF) by (nonlinear_arith)
                        requires
                            py <= 0xFFFF_FFFF_FFFF_FFFF,
                            st <= 0xFFFF_FFFF_FFFF_FFFF,
                    ;
                    py * st + px < len
                } else {
                    false
                };
                if visible {
                    let index = (py * st + px) as usize;
                    proof {
                        lemma_fundamental_div_mod_converse(
                            index as int,
                            stride as int,
                            (y0 + row) as int,
                            (x0 + col) as int,
                        );
                    }
                    pixels.set(index, color);
                    assert forall|i: int| 0 <= i < old_fb.len() implies
                        #[trigger] pixels@[i] == if in_box_before(
                        stride as nat,
                        x0 as nat,
                        y0 as nat,
                        width as nat,
                        height as nat,
                        i,
                        row as int,
                        col + 1,
                    ) {
                        rgb_at(
                            data@,
                            ((i / (stride as int) - y0) * width + (i % (stride as int) - x0)) * 3,
                        )
                    } else {
                        old_fb[i]
                    } by {
                        lemma_box_step(
                            stride as nat,
                            x0 as nat,
                            y0 as nat,
                            width as nat,
                            height as nat,
                            i,
                            row as int,
                            col as int,
                        );
                    }
                } else {
                    assert forall|i: int| 0 <= i < old_fb.len() implies
                        #[trigger] pixels@[i] == if in_box_before(
                        stride as nat,
                        x0 as nat,
                        y0 as nat,
                        width as nat,
                        height as nat,
                        i,
                        row as int,
                        col + 1,
                    ) {
                        rgb_at(
                            data@,
                            ((i / (stride as int) - y0) * width + (i % (stride as int) - x0)) * 3,
                        )
                    } else {
                        old_fb[i]
                    } by {
                        lemma_box_step(
                            stride as nat,
                            x0 as nat,
                            y0 as nat,
                            width as nat,
                            height as nat,
                            i,
                            row as int,
                            col as int,
                        );
                    }
                }
                col = col + 1;
            }
            row = row + 1;
        }
        assert(pixels@ =~= watermark_spec(
            old_fb,
            stride as nat,
            self.buffer.width as nat,
            self.buffer.height as nat,
            width as nat,
            height as nat,
            data@,
        ));
    }
}

} // verus!
