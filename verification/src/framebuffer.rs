//! The status display and the operations that draw on a frame for it. What
//! an operation does to a frame is stated as the layer that it paints.

use vstd::prelude::*;
use vstd::arithmetic::div_mod::{lemma_fundamental_div_mod, lemma_fundamental_div_mod_converse};
use crate::display::Color565;
use crate::status_text::chars_of;
use crate::font::{
    digit_cells, digit_pattern, get_character_pattern, header_cells, header_pattern, label_cells,
    label_pattern,
};
use crate::layers::{
    cell_tiles, decimal, dot, filled, glyphs_in, high_byte, icon_named, icon_tiles, in_grid,
    lemma_off_screen, lemma_paint_nothing, lemma_paint_same, lemma_paint_twice, lemma_tile,
    lemma_tile_in_grid, low_byte, nothing, over, paint, painted_byte, rect, small_text, solid, tiled,
    tiled_upto, Icon,
};

verus! {

/// The device of the display.
pub const FB_PATH: &'static str = "/dev/fb0";

#[derive(Copy, Clone)]
struct Dimensions {
    height: u32,
    width: u32,
}

/// The display: its size, and the device that shows a frame written to it.
#[derive(Copy, Clone)]
pub struct Framebuffer<'a> {
    dimensions: Dimensions,
    path: &'a str,
}

impl<'a> Framebuffer<'a> {
    #[verifier::type_invariant]
    spec fn fits(self) -> bool {
        &&& self.dimensions.width == 128
        &&& self.dimensions.height == 128
    }

    /// The width of the screen in pixels.
    pub closed spec fn w(self) -> int {
        self.dimensions.width as int
    }

    /// The height of the screen in pixels.
    pub closed spec fn h(self) -> int {
        self.dimensions.height as int
    }

    /// The display of 128 by 128 pixels behind `/dev/fb0`.
    pub fn new() -> (fb: Self)
        ensures
            fb.w() == 128,
            fb.h() == 128,
            fb.path_text() == FB_PATH@,
    {
        Framebuffer { dimensions: Dimensions { height: 128, width: 128 }, path: FB_PATH }
    }

    /// The device's path, as text.
    pub closed spec fn path_text(self) -> Seq<char> {
        self.path@
    }

    /// The width of the screen in pixels, which is 128.
    pub fn width(&self) -> (w: u32)
        ensures
            w == self.w(),
            w == 128,
    {
        proof {
            use_type_invariant(self);
        }
        self.dimensions.width
    }

    /// The height of the screen in pixels, which is 128.
    pub fn height(&self) -> (h: u32)
        ensures
            h == self.h(),
            h == 128,
    {
        proof {
            use_type_invariant(self);
        }
        self.dimensions.height
    }

    /// The device that shows a frame written to it.
    pub fn path(&self) -> (path: &'a str)
        ensures
            path@ == self.path_text(),
    {
        self.path
    }

    /// Puts the pixel `pixel` at column `x` of row `y`, if that is on the
    /// screen and in the frame.
    pub fn put_pixel(&self, buffer: &mut Vec<u8>, x: u32, y: u32, pixel: u16)
        ensures
            final(buffer)@ == paint(old(buffer)@, self.w(), self.h(), dot(x as int, y as int, pixel)),
    {
        proof {
            use_type_invariant(self);
        }
        let ghost before = buffer@;
        let ghost w = self.dimensions.width as int;
        let ghost h = self.dimensions.height as int;
        let ghost layer = dot(x as int, y as int, pixel);
        if x < self.dimensions.width && y < self.dimensions.height {
            assert(y * w + x < w * h) by (nonlinear_arith)
                requires
                    0 <= x < w,
                    0 <= y < h,
            ;
            let pixel_index: usize = ((y * self.dimensions.width) + x) as usize * 2;
            if pixel_index + 1 < buffer.len() {
                buffer[pixel_index] = (pixel % 256) as u8;
                buffer[pixel_index + 1] = (pixel / 256) as u8;
                proof {
                    assert forall|k: int| 0 <= k < before.len() implies buffer@[k] == painted_byte(
                        before,
                        w,
                        h,
                        layer,
                        k,
                    ) by {
                        let p = k / 2;
                        lemma_fundamental_div_mod(p, w);
                        assert(w * (p / w) == (p / w) * w) by (nonlinear_arith);
                        if p == y * w + x {
                            lemma_fundamental_div_mod_converse(p, w, y as int, x as int);
                        }
                    }
                    assert(buffer@ =~= paint(before, w, h, layer));
                }
            } else {
                proof {
                    assert forall|k: int| 0 <= k < before.len() implies before[k] == painted_byte(
                        before,
                        w,
                        h,
                        layer,
                        k,
                    ) by {
                        let p = k / 2;
                        lemma_fundamental_div_mod(p, w);
                        assert(w * (p / w) == (p / w) * w) by (nonlinear_arith);
                    }
                    assert(buffer@ =~= paint(before, w, h, layer));
                }
            }
        } else {
            proof {
                assert forall|k: int| 0 <= k < before.len() implies before[k] == painted_byte(
                    before,
                    w,
                    h,
                    layer,
                    k,
                ) by {
                    let p = k / 2;
                    lemma_fundamental_div_mod(p, w);
                    assert(0 <= p % w < w);
                }
                assert(buffer@ =~= paint(before, w, h, layer));
            }
        }
    }

    /// Puts one pixel of `color` at column `x` of row `y`, if that is on the
    /// screen and in the frame.
    pub fn draw_pixel(&self, buffer: &mut Vec<u8>, x: u32, y: u32, color: Color565)
        ensures
            final(buffer)@ == paint(old(buffer)@, self.w(), self.h(), dot(
                x as int,
                y as int,
                color.pixel(),
            )),
    {
        self.put_pixel(buffer, x, y, color.to_pixel());
    }

    /// Sets every whole pixel of the frame to `color`.
    pub fn fill_frame(&self, buffer: &mut Vec<u8>, color: Color565)
        ensures
            final(buffer)@ == filled(old(buffer)@, color.pixel()),
    {
        let color_val: u16 = color.to_pixel();
        let ghost before = buffer@;
        let pixels: usize = buffer.len() / 2;
        let mut i: usize = 0;
        while i < pixels
            invariant
                i <= pixels,
                pixels == before.len() / 2,
                before.len() <= usize::MAX,
                buffer@.len() == before.len(),
                color_val == color.pixel(),
                forall|k: int| 0 <= k < 2 * i ==> buffer@[k] == filled(before, color_val)[k],
                forall|k: int| 2 * i <= k < before.len() ==> buffer@[k] == before[k],
            decreases pixels - i,
        {
            buffer[i * 2] = (color_val % 256) as u8;
            buffer[i * 2 + 1] = (color_val / 256) as u8;
            i += 1;
        }
        assert(buffer@ =~= filled(before, color_val));
    }

    /// Fills the `width` columns from `x` on in the `height` rows from `y`
    /// on with the pixel `pixel`, as far as they are on the screen and in
    /// the frame.
    pub fn fill_rect(
        &self,
        buffer: &mut Vec<u8>,
        x: u32,
        y: u32,
        width: u32,
        height: u32,
        pixel: u16,
    )
        ensures
            final(buffer)@ == paint(old(buffer)@, self.w(), self.h(), rect(
                x as int,
                y as int,
                width as int,
                height as int,
                pixel,
            )),
    {
        proof {
            use_type_invariant(self);
        }
        let ghost before = buffer@;
        let ghost w = self.dimensions.width as int;
        let ghost h = self.dimensions.height as int;
        let y_end: u64 = y as u64 + height as u64;
        let x_end: u64 = x as u64 + width as u64;
        let mut cy: u64 = y as u64;
        proof {
            lemma_paint_nothing(before, w, h);
            lemma_paint_same(before, w, h, nothing(), rect(x as int, y as int, width as int, 0, pixel));
        }
        while cy < y_end
            invariant
                y <= cy <= y_end,
                y_end == y + height,
                x_end == x + width,
                w == self.w(),
                h == self.h(),
                w > 0,
                cy <= h || cy == y,
                buffer@ == paint(before, w, h, rect(
                    x as int,
                    y as int,
                    width as int,
                    cy - y,
                    pixel,
                )),
            ensures
                buffer@ == paint(before, w, h, rect(
                    x as int,
                    y as int,
                    width as int,
                    height as int,
                    pixel,
                )),
            decreases y_end - cy,
        {
            if cy >= self.dimensions.height as u64 {
                proof {
                    lemma_paint_same(
                        before,
                        w,
                        h,
                        rect(x as int, y as int, width as int, cy - y, pixel),
                        rect(x as int, y as int, width as int, height as int, pixel),
                    );
                }
                break ;
            }
            let ghost row_start = buffer@;
            let ghost done = rect(x as int, y as int, width as int, cy - y, pixel);
            let mut cx: u64 = x as u64;
            proof {
                lemma_paint_twice(before, w, h, done, rect(x as int, cy as int, 0, 1, pixel));
                lemma_paint_same(
                    before,
                    w,
                    h,
                    over(done, rect(x as int, cy as int, 0, 1, pixel)),
                    done,
                );
                lemma_paint_same(row_start, w, h, rect(x as int, cy as int, 0, 1, pixel), nothing());
                lemma_paint_nothing(row_start, w, h);
            }
            while cx < x_end
                invariant
                    x <= cx <= x_end,
                    x_end == x + width,
                    y <= cy < h,
                    w == self.w(),
                    h == self.h(),
                    w > 0,
                        buffer@ == paint(row_start, w, h, rect(x as int, cy as int, cx - x, 1, pixel)),
                ensures
                    buffer@ == paint(row_start, w, h, rect(
                        x as int,
                        cy as int,
                        width as int,
                        1,
                        pixel,
                    )),
                decreases x_end - cx,
            {
                if cx >= self.dimensions.width as u64 {
                    proof {
                        lemma_paint_same(
                            row_start,
                            w,
                            h,
                            rect(x as int, cy as int, cx - x, 1, pixel),
                            rect(x as int, cy as int, width as int, 1, pixel),
                        );
                    }
                    break ;
                }
                let ghost so_far = rect(x as int, cy as int, cx - x, 1, pixel);
                self.put_pixel(buffer, cx as u32, cy as u32, pixel);
                proof {
                    lemma_paint_twice(row_start, w, h, so_far, dot(cx as int, cy as int, pixel));
                    lemma_paint_same(
                        row_start,
                        w,
                        h,
                        over(so_far, dot(cx as int, cy as int, pixel)),
                        rect(x as int, cy as int, cx - x + 1, 1, pixel),
                    );
                }
                cx = cx + 1;
            }
            proof {
                lemma_paint_twice(before, w, h, done, rect(x as int, cy as int, width as int, 1, pixel));
                lemma_paint_same(
                    before,
                    w,
                    h,
                    over(done, rect(x as int, cy as int, width as int, 1, pixel)),
                    rect(x as int, y as int, width as int, cy - y + 1, pixel),
                );
            }
            cy = cy + 1;
        }
    }

    /// Fills the `width` columns from `x` on in the `height` rows from `y`
    /// on with `color`, as far as they are on the screen and in the frame.
    pub fn draw_rect(
        &self,
        buffer: &mut Vec<u8>,
        x: u32,
        y: u32,
        width: u32,
        height: u32,
        color: Color565,
    )
        ensures
            final(buffer)@ == paint(old(buffer)@, self.w(), self.h(), rect(
                x as int,
                y as int,
                width as int,
                height as int,
                color.pixel(),
            )),
    {
        self.fill_rect(buffer, x, y, width, height, color.to_pixel());
    }

    /// Draws a grid of `cols` by `rows` tiles with its upper left corner at
    /// column `x` of row `y`. Each tile is `size` pixels wide and high and is
    /// filled with the pixel that `tiles` holds for it, the tiles being
    /// counted row after row.
    pub fn draw_tiles(
        &self,
        buffer: &mut Vec<u8>,
        tiles: &[u16],
        cols: u32,
        rows: u32,
        x: u32,
        y: u32,
        size: u32,
    )
        requires
            tiles@.len() == cols * rows,
        ensures
            final(buffer)@ == paint(old(buffer)@, self.w(), self.h(), tiled(
                tiles@,
                cols as int,
                rows as int,
                x as int,
                y as int,
                size as int,
            )),
    {
        proof {
            use_type_invariant(self);
        }
        let ghost before = buffer@;
        let ghost w = self.dimensions.width as int;
        let ghost h = self.dimensions.height as int;
        let ghost all = tiled(tiles@, cols as int, rows as int, x as int, y as int, size as int);
        let count: usize = tiles.len();
        proof {
            lemma_paint_nothing(before, w, h);
            lemma_paint_same(
                before,
                w,
                h,
                nothing(),
                tiled_upto(tiles@, cols as int, rows as int, x as int, y as int, size as int, 0),
            );
        }
        if size == 0 {
            proof {
                lemma_paint_same(before, w, h, nothing(), all);
            }
            return ;
        }
        assert(w <= 0x7fff_ffff && h <= 0x7fff_ffff) by (nonlinear_arith)
            requires
                w > 0,
                h > 0,
                w * h * 2 <= 0x7fff_ffff,
        ;
        let mut cy: u32 = 0;
        while cy < rows
            invariant
                cy <= rows,
                size > 0,
                tiles@.len() == cols * rows,
                tiles@.len() == count,
                w == self.w(),
                h == self.h(),
                0 < w <= 0x7fff_ffff,
                0 < h <= 0x7fff_ffff,
                buffer@ == paint(before, w, h, tiled_upto(
                    tiles@,
                    cols as int,
                    rows as int,
                    x as int,
                    y as int,
                    size as int,
                    cy * cols,
                )),
            decreases rows - cy,
        {
            let mut cx: u32 = 0;
            while cx < cols
                invariant
                    cx <= cols,
                    cy < rows,
                    size > 0,
                    tiles@.len() == cols * rows,
                    tiles@.len() == count,
                    w == self.w(),
                    h == self.h(),
                    0 < w <= 0x7fff_ffff,
                    0 < h <= 0x7fff_ffff,
                    buffer@ == paint(before, w, h, tiled_upto(
                        tiles@,
                        cols as int,
                        rows as int,
                        x as int,
                        y as int,
                        size as int,
                        cy * cols + cx,
                    )),
                decreases cols - cx,
            {
                assert(0 <= cy * cols && cy * cols + cx < rows * cols && rows * cols == cols
                    * rows) by (nonlinear_arith)
                    requires
                        0 <= cx < cols,
                        0 <= cy < rows,
                ;
                assert(cx * size <= 0xffff_ffff * 0xffff_ffff && cy * size <= 0xffff_ffff
                    * 0xffff_ffff) by (nonlinear_arith)
                    requires
                        0 <= cx <= 0xffff_ffff,
                        0 <= cy <= 0xffff_ffff,
                        0 <= size <= 0xffff_ffff,
                ;
                let index: usize = cy as usize * cols as usize + cx as usize;
                let right: u64 = cx as u64 * size as u64;
                let down: u64 = cy as u64 * size as u64;
                let px: u64 = if right <= 0xffff_ffff {
                    x as u64 + right
                } else {
                    right
                };
                let py: u64 = if down <= 0xffff_ffff {
                    y as u64 + down
                } else {
                    down
                };
                assert(px <= 0xffff_ffff ==> px == x + cx * size);
                assert(py <= 0xffff_ffff ==> py == y + cy * size);
                assert(px > 0xffff_ffff ==> x + cx * size > 0xffff_ffff);
                assert(py > 0xffff_ffff ==> y + cy * size > 0xffff_ffff);
                let ghost done = tiled_upto(
                    tiles@,
                    cols as int,
                    rows as int,
                    x as int,
                    y as int,
                    size as int,
                    cy * cols + cx,
                );
                let ghost next = tiled_upto(
                    tiles@,
                    cols as int,
                    rows as int,
                    x as int,
                    y as int,
                    size as int,
                    cy * cols + cx + 1,
                );
                if px <= 0xffff_ffff && py <= 0xffff_ffff {
                    let pixel: u16 = tiles[index];
                    self.fill_rect(buffer, px as u32, py as u32, size, size, pixel);
                    proof {
                        let tile = rect(px as int, py as int, size as int, size as int, pixel);
                        lemma_paint_twice(before, w, h, done, tile);
                        assert forall|a: int, b: int| 0 <= a < w && 0 <= b < h implies #[trigger] over(
                            done,
                            tile,
                        )(a, b) == next(a, b) by {
                            lemma_tile(
                                cols as int,
                                rows as int,
                                x as int,
                                y as int,
                                size as int,
                                cx as int,
                                cy as int,
                                a,
                                b,
                            );
                        }
                        lemma_paint_same(before, w, h, over(done, tile), next);
                    }
                } else {
                    proof {
                        assert forall|a: int, b: int| 0 <= a < w && 0 <= b < h implies #[trigger] done(
                            a,
                            b,
                        ) == next(a, b) by {
                            lemma_tile(
                                cols as int,
                                rows as int,
                                x as int,
                                y as int,
                                size as int,
                                cx as int,
                                cy as int,
                                a,
                                b,
                            );
                        }
                        lemma_paint_same(before, w, h, done, next);
                    }
                }
                cx = cx + 1;
            }
            assert(cy * cols + cols == (cy + 1) * cols) by (nonlinear_arith);
            cy = cy + 1;
        }
        proof {
            let last = tiled_upto(
                tiles@,
                cols as int,
                rows as int,
                x as int,
                y as int,
                size as int,
                rows * cols,
            );
            assert forall|a: int, b: int| 0 <= a < w && 0 <= b < h implies #[trigger] last(a, b)
                == all(a, b) by {
                if in_grid(cols as int, rows as int, x as int, y as int, size as int, a, b) {
                    lemma_tile_in_grid(
                        cols as int,
                        rows as int,
                        x as int,
                        y as int,
                        size as int,
                        a,
                        b,
                    );
                }
            }
            lemma_paint_same(before, w, h, last, all);
        }
    }

    /// Draws one character of the large font from its cells, with its upper
    /// left corner at column `x_offset` of row `y_offset` and tiles of
    /// `pixel_size` pixels: a cell that holds 1 in `color`, any other in
    /// `background`, or in black where none is given. Cells that are not
    /// five rows of five are not drawn.
    pub fn draw_character(
        &self,
        buffer: &mut Vec<u8>,
        pattern: &[u8],
        x_offset: u32,
        y_offset: u32,
        pixel_size: u32,
        color: Color565,
        background: Option<Color565>,
    )
        ensures
            final(buffer)@ == (if pattern@.len() == 25 {
                paint(old(buffer)@, self.w(), self.h(), tiled(
                    cell_tiles(pattern@, color.pixel(), ground(background)),
                    5,
                    5,
                    x_offset as int,
                    y_offset as int,
                    pixel_size as int,
                ))
            } else {
                old(buffer)@
            }),
    {
        if pattern.len() != 25 {
            return ;
        }
        let tiles: Vec<u16> = tiles_of(pattern, color.to_pixel(), ground_pixel(background));
        self.draw_tiles(buffer, tiles.as_slice(), 5, 5, x_offset, y_offset, pixel_size);
    }

    /// Draws a text in the large font with its upper left corner at column
    /// `x_offset` of row `y_offset` and tiles of `pixel_size` pixels, in
    /// `color` on `background`, or on black where none is given.
    pub fn draw_enhanced_text(
        &self,
        buffer: &mut Vec<u8>,
        text: &str,
        x_offset: u32,
        y_offset: u32,
        pixel_size: u32,
        color: Color565,
        background: Option<Color565>,
    )
        ensures
            final(buffer)@ == paint(old(buffer)@, self.w(), self.h(), crate::layers::text(
                text@,
                x_offset as int,
                y_offset as int,
                pixel_size as int,
                color.pixel(),
                ground(background),
            )),
    {
        let chars: Vec<char> = chars_of(text);
        self.draw_chars(buffer, chars.as_slice(), x_offset, y_offset, pixel_size, color, background);
    }

    /// Draws a text, given as its characters, as `draw_enhanced_text` draws
    /// it.
    pub fn draw_chars(
        &self,
        buffer: &mut Vec<u8>,
        text: &[char],
        x_offset: u32,
        y_offset: u32,
        pixel_size: u32,
        color: Color565,
        background: Option<Color565>,
    )
        ensures
            final(buffer)@ == paint(old(buffer)@, self.w(), self.h(), crate::layers::text(
                text@,
                x_offset as int,
                y_offset as int,
                pixel_size as int,
                color.pixel(),
                ground(background),
            )),
    {
        proof {
            use_type_invariant(self);
        }
        let ghost before = buffer@;
        let ghost w = self.dimensions.width as int;
        let ghost h = self.dimensions.height as int;
        let ghost fg = color.pixel();
        let ghost bg = ground(background);
        let ghost s = pixel_size as int;
        let mut x: u64 = x_offset as u64;
        assert(w <= 0x7fff_ffff && h <= 0x7fff_ffff) by (nonlinear_arith)
            requires
                w > 0,
                h > 0,
                w * h * 2 <= 0x7fff_ffff,
        ;
        proof {
            lemma_paint_nothing(before, w, h);
            assert(text@.subrange(0, 0).len() == 0);
        }
        let mut i: usize = 0;
        while i < text.len()
            invariant
                i <= text@.len(),
                w == self.w(),
                h == self.h(),
                0 < w <= 0x7fff_ffff,
                fg == color.pixel(),
                bg == ground(background),
                s == pixel_size,
                x == x_offset + 6 * s * glyphs_in(text@.subrange(0, i as int)) || (x
                    > 0xffff_ffff && x_offset + 6 * s * glyphs_in(
                    text@.subrange(0, i as int),
                ) > 0xffff_ffff),
                x <= 0xffff_ffff + 6 * 0xffff_ffff,
                buffer@ == paint(before, w, h, crate::layers::text(
                    text@.subrange(0, i as int),
                    x_offset as int,
                    y_offset as int,
                    s,
                    fg,
                    bg,
                )),
            decreases text@.len() - i,
        {
            let c: char = text[i];
            let ghost seen = text@.subrange(0, i as int);
            let ghost now = text@.subrange(0, i + 1);
            let ghost at = x_offset + 6 * s * glyphs_in(seen);
            let ghost under = crate::layers::text(seen, x_offset as int, y_offset as int, s, fg, bg);
            proof {
                assert(now.drop_last() == seen);
                assert(now.last() == c);
                assert(6 * s * (glyphs_in(seen) + 1) == 6 * s * glyphs_in(seen) + 6 * s)
                    by (nonlinear_arith);
            }
            match get_character_pattern(c) {
                Some(pattern) => {
                    if x <= 0xffff_ffff {
                        self.draw_character(
                            buffer,
                            pattern,
                            x as u32,
                            y_offset,
                            pixel_size,
                            color,
                            background,
                        );
                        proof {
                            lemma_paint_twice(
                                before,
                                w,
                                h,
                                under,
                                tiled(cell_tiles(pattern@, fg, bg), 5, 5, at, y_offset as int, s),
                            );
                        }
                        x = x + 6 * (pixel_size as u64);
                    } else {
                        proof {
                            lemma_off_screen(
                                before,
                                w,
                                h,
                                cell_tiles(pattern@, fg, bg),
                                5,
                                5,
                                at,
                                y_offset as int,
                                s,
                                under,
                            );
                        }
                    }
                },
                None => {},
            }
            i += 1;
        }
        assert(text@.subrange(0, text@.len() as int) == text@);
    }

    /// Draws a text in the small font with its upper left corner at column
    /// `x_offset` of row `y_offset` and tiles of `pixel_size` pixels, every
    /// character drawn as `header` or not says: as headers draw it, or as
    /// labels do.
    fn draw_small_text(
        &self,
        buffer: &mut Vec<u8>,
        text: &str,
        x_offset: u32,
        y_offset: u32,
        pixel_size: u32,
        fg: u16,
        bg: u16,
        header: bool,
    )
        ensures
            final(buffer)@ == paint(old(buffer)@, self.w(), self.h(), small_text(
                small_cells(header),
                text@,
                x_offset as int,
                y_offset as int,
                pixel_size as int,
                fg,
                bg,
            )),
    {
        proof {
            use_type_invariant(self);
        }
        let ghost before = buffer@;
        let ghost w = self.dimensions.width as int;
        let ghost h = self.dimensions.height as int;
        let ghost s = pixel_size as int;
        let ghost cells_of = small_cells(header);
        let mut x: u64 = x_offset as u64;
        assert(w <= 0x7fff_ffff && h <= 0x7fff_ffff) by (nonlinear_arith)
            requires
                w > 0,
                h > 0,
                w * h * 2 <= 0x7fff_ffff,
        ;
        proof {
            lemma_paint_nothing(before, w, h);
            assert(text@.subrange(0, 0).len() == 0);
        }
        for c in it: text.chars()
            invariant
                it.seq() == text@,
                w == self.w(),
                h == self.h(),
                0 < w <= 0x7fff_ffff,
                s == pixel_size,
                cells_of == small_cells(header),
                x == x_offset + 4 * s * it.index() || (x > 0xffff_ffff && x_offset + 4 * s
                    * it.index() > 0xffff_ffff),
                x <= 0xffff_ffff + 4 * 0xffff_ffff,
                buffer@ == paint(before, w, h, small_text(
                    cells_of,
                    text@.subrange(0, it.index() as int),
                    x_offset as int,
                    y_offset as int,
                    s,
                    fg,
                    bg,
                )),
        {
            let ghost seen = text@.subrange(0, it.index() as int);
            let ghost now = text@.subrange(0, it.index() + 1);
            let ghost at = x_offset + 4 * s * it.index();
            let ghost under = small_text(cells_of, seen, x_offset as int, y_offset as int, s, fg, bg);
            proof {
                assert(now.drop_last() == seen);
                assert(now.last() == c);
                assert(4 * s * (it.index() + 1) == 4 * s * it.index() + 4 * s) by (nonlinear_arith);
            }
            let pattern: &[u8] = if header {
                header_pattern(c)
            } else {
                label_pattern(c)
            };
            let tiles: Vec<u16> = tiles_of(pattern, fg, bg);
            if x <= 0xffff_ffff {
                self.draw_tiles(buffer, tiles.as_slice(), 3, 5, x as u32, y_offset, pixel_size);
                proof {
                    lemma_paint_twice(
                        before,
                        w,
                        h,
                        under,
                        tiled(tiles@, 3, 5, at, y_offset as int, s),
                    );
                }
                x = x + 4 * (pixel_size as u64);
            } else {
                proof {
                    lemma_off_screen(before, w, h, tiles@, 3, 5, at, y_offset as int, s, under);
                }
            }
        }
        assert(text@.subrange(0, text@.len() as int) == text@);
    }

    /// Draws a label in the small font, cyan on black, with tiles of two
    /// pixels and its upper left corner at column `x_offset` of row
    /// `y_offset`.
    pub fn draw_label(&self, buffer: &mut Vec<u8>, label: &str, x_offset: u32, y_offset: u32)
        ensures
            final(buffer)@ == paint(old(buffer)@, self.w(), self.h(), small_text(
                small_cells(false),
                label@,
                x_offset as int,
                y_offset as int,
                2,
                Color565::Cyan.pixel(),
                Color565::Black.pixel(),
            )),
    {
        self.draw_small_text(
            buffer,
            label,
            x_offset,
            y_offset,
            2,
            Color565::Cyan.to_pixel(),
            Color565::Black.to_pixel(),
            false,
        );
    }

    /// Draws a header in the small font, white on black, with tiles of three
    /// pixels and its upper left corner at column `x_offset` of row
    /// `y_offset`.
    pub fn draw_header(&self, buffer: &mut Vec<u8>, label: &str, x_offset: u32, y_offset: u32)
        ensures
            final(buffer)@ == paint(old(buffer)@, self.w(), self.h(), small_text(
                small_cells(true),
                label@,
                x_offset as int,
                y_offset as int,
                3,
                Color565::White.pixel(),
                Color565::Black.pixel(),
            )),
    {
        self.draw_small_text(
            buffer,
            label,
            x_offset,
            y_offset,
            3,
            Color565::White.to_pixel(),
            Color565::Black.to_pixel(),
            true,
        );
    }

    /// Draws one decimal digit in the small font, white on black, with tiles
    /// of two pixels and its upper left corner at column `x_offset` of row
    /// `y_offset`.
    pub fn draw_digit(&self, buffer: &mut Vec<u8>, digit: u8, x_offset: u32, y_offset: u32)
        requires
            digit <= 9,
        ensures
            final(buffer)@ == paint(old(buffer)@, self.w(), self.h(), tiled(
                cell_tiles(
                    digit_cells(digit as int),
                    Color565::White.pixel(),
                    Color565::Black.pixel(),
                ),
                3,
                5,
                x_offset as int,
                y_offset as int,
                2,
            )),
    {
        let tiles: Vec<u16> = tiles_of(
            digit_pattern(digit),
            Color565::White.to_pixel(),
            Color565::Black.to_pixel(),
        );
        self.draw_tiles(buffer, tiles.as_slice(), 3, 5, x_offset, y_offset, 2);
    }

    /// Draws a number in decimal digits, each eight pixels to the right of
    /// the one before, with its upper left corner at column `x_offset` of
    /// row `y_offset`.
    pub fn draw_number(&self, buffer: &mut Vec<u8>, number: usize, x_offset: u32, y_offset: u32)
        ensures
            final(buffer)@ == paint(old(buffer)@, self.w(), self.h(), crate::layers::number(
                decimal(number as nat),
                x_offset as int,
                y_offset as int,
                Color565::White.pixel(),
                Color565::Black.pixel(),
            )),
    {
        proof {
            use_type_invariant(self);
        }
        let ghost before = buffer@;
        let ghost w = self.dimensions.width as int;
        let ghost h = self.dimensions.height as int;
        let ghost fg = Color565::White.pixel();
        let ghost bg = Color565::Black.pixel();
        let digits: Vec<u8> = decimal_digits(number);
        assert(w <= 0x7fff_ffff && h <= 0x7fff_ffff) by (nonlinear_arith)
            requires
                w > 0,
                h > 0,
                w * h * 2 <= 0x7fff_ffff,
        ;
        proof {
            lemma_paint_nothing(before, w, h);
            assert(digits@.subrange(0, 0).len() == 0);
        }
        let mut i: usize = 0;
        while i < digits.len()
            invariant
                i <= digits@.len(),
                digits@.len() <= 20,
                forall|k: int| 0 <= k < digits@.len() ==> digits@[k] <= 9,
                w == self.w(),
                h == self.h(),
                0 < w <= 0x7fff_ffff,
                fg == Color565::White.pixel(),
                bg == Color565::Black.pixel(),
                buffer@ == paint(before, w, h, crate::layers::number(
                    digits@.subrange(0, i as int),
                    x_offset as int,
                    y_offset as int,
                    fg,
                    bg,
                )),
            decreases digits@.len() - i,
        {
            let ghost seen = digits@.subrange(0, i as int);
            let ghost now = digits@.subrange(0, i + 1);
            let ghost under = crate::layers::number(seen, x_offset as int, y_offset as int, fg, bg);
            proof {
                assert(now.drop_last() == seen);
                assert(now.last() == digits@[i as int]);
            }
            let x: u64 = x_offset as u64 + 8 * (i as u64);
            if x <= 0xffff_ffff {
                self.draw_digit(buffer, digits[i], x as u32, y_offset);
                proof {
                    lemma_paint_twice(
                        before,
                        w,
                        h,
                        under,
                        tiled(
                            cell_tiles(digit_cells(digits@[i as int] as int), fg, bg),
                            3,
                            5,
                            x as int,
                            y_offset as int,
                            2,
                        ),
                    );
                }
            } else {
                proof {
                    lemma_off_screen(
                        before,
                        w,
                        h,
                        cell_tiles(digit_cells(digits@[i as int] as int), fg, bg),
                        3,
                        5,
                        x as int,
                        y_offset as int,
                        2,
                        under,
                    );
                }
            }
            i += 1;
        }
        assert(digits@.subrange(0, digits@.len() as int) == digits@);
    }

    /// Draws the status icon that `icon_type` names, sixteen pixels wide and
    /// high, with its upper left corner at column `x_offset` of row
    /// `y_offset`. A name that stands for no icon draws nothing.
    pub fn draw_status_icon(
        &self,
        buffer: &mut Vec<u8>,
        icon_type: &str,
        x_offset: u32,
        y_offset: u32,
    )
        ensures
            final(buffer)@ == (match icon_named(icon_type@) {
                Some(icon) => paint(old(buffer)@, self.w(), self.h(), tiled(
                    icon_tiles(icon),
                    16,
                    16,
                    x_offset as int,
                    y_offset as int,
                    1,
                )),
                None => old(buffer)@,
            }),
    {
        let name: String = icon_type.to_owned();
        let icon: Icon = if name == "ok".to_owned() {
            Icon::Okay
        } else if name == "warning".to_owned() {
            Icon::Warning
        } else if name == "error".to_owned() {
            Icon::Error
        } else {
            return ;
        };
        let tiles: Vec<u16> = icon_pixels(icon);
        self.draw_tiles(buffer, tiles.as_slice(), 16, 16, x_offset, y_offset, 1);
    }

    /// The frame of a bar of `color` over the whole width of the screen and
    /// `height` rows high.
    pub fn draw_line(&self, color: Color565, height: u32) -> (frame: Vec<u8>)
        requires
            height * self.w() * 2 <= usize::MAX,
        ensures
            frame@ == solid(height * self.w(), color.pixel()),
    {
        proof {
            use_type_invariant(self);
        }
        let px_num: usize = height as usize * self.dimensions.width as usize;
        let pixel: u16 = color.to_pixel();
        let mut buffer: Vec<u8> = Vec::new();
        let mut i: usize = 0;
        while i < px_num
            invariant
                i <= px_num,
                buffer@ == solid(i as int, pixel),
            decreases px_num - i,
        {
            buffer.push((pixel % 256) as u8);
            buffer.push((pixel / 256) as u8);
            assert(buffer@ =~= solid(i + 1, pixel));
            i += 1;
        }
        buffer
    }

    /// The two frames of a warning, to be shown one after the other: a bar
    /// of `color`, ten rows high, and a block of 29 rows that is black but
    /// for a white field in its first fourteen rows. The field is six
    /// pixels wide for every byte of the message, of which twenty at most
    /// count.
    pub fn draw_warning(&self, message: &str, severity: &str, color: Color565) -> (frames: (
        Vec<u8>,
        Vec<u8>,
    ))
        ensures
            frames.0@ == solid(10 * self.w(), color.pixel()),
            frames.1@ == warning_block(self.w(), message.len() as int),
    {
        proof {
            use_type_invariant(self);
        }
        let bar: Vec<u8> = self.draw_line(color, 10);
        let color_text: u16 = Color565::White.to_pixel();
        let color_bg: u16 = Color565::Black.to_pixel();
        let shown: u32 = if message.len() > 20 {
            20
        } else {
            message.len() as u32
        };
        let ghost w = self.dimensions.width as int;
        let ghost len = message.len() as int;
        let mut buffer: Vec<u8> = Vec::new();
        let mut y: u32 = 11;
        while y < 40
            invariant
                11 <= y <= 40,
                w == self.w(),
                w == 128,
                self.dimensions.width == 128,
                shown == shown_bytes(len),
                color_text == Color565::White.pixel(),
                color_bg == Color565::Black.pixel(),
                buffer@.len() == 2 * (y - 11) * w,
                forall|k: int| 0 <= k < buffer@.len() ==> buffer@[k] == warning_block(w, len)[k],
            decreases 40 - y,
        {
            let mut x: u32 = 0;
            while x < self.dimensions.width
                invariant
                    11 <= y < 40,
                    x <= w,
                    w == self.w(),
                    w == 128,
                    self.dimensions.width == 128,
                    shown == shown_bytes(len),
                    color_text == Color565::White.pixel(),
                    color_bg == Color565::Black.pixel(),
                    buffer@.len() == 2 * ((y - 11) * w + x),
                    forall|k: int|
                        0 <= k < buffer@.len() ==> buffer@[k] == warning_block(w, len)[k],
                decreases w - x,
            {
                let pixel_color: u16 = if y < 25 && x < shown * 6 {
                    color_text
                } else {
                    color_bg
                };
                let ghost p = (y - 11) * w + x;
                proof {
                    lemma_fundamental_div_mod_converse(p, w, y - 11, x as int);
                }
                buffer.push((pixel_color % 256) as u8);
                buffer.push((pixel_color / 256) as u8);
                x = x + 1;
            }
            y = y + 1;
        }
        assert(buffer@ =~= warning_block(w, len));
        (bar, buffer)
    }
}

/// The pixel behind a text: that of the background where one is given, black
/// where none is.
pub open spec fn ground(background: Option<Color565>) -> u16 {
    match background {
        Some(color) => color.pixel(),
        None => Color565::Black.pixel(),
    }
}

/// How the small font draws a character for a header, or for a label.
pub open spec fn small_cells(header: bool) -> spec_fn(char) -> Seq<u8> {
    |c: char|
        if header {
            header_cells(c)
        } else {
            label_cells(c)
        }
}

fn ground_pixel(background: Option<Color565>) -> (pixel: u16)
    ensures
        pixel == ground(background),
{
    match background {
        Some(color) => color.to_pixel(),
        None => Color565::Black.to_pixel(),
    }
}

/// The pixels of the tiles of a character: `fg` for a cell that holds 1,
/// `bg` for any other.
pub fn tiles_of(cells: &[u8], fg: u16, bg: u16) -> (tiles: Vec<u16>)
    ensures
        tiles@ == cell_tiles(cells@, fg, bg),
{
    let mut tiles: Vec<u16> = Vec::with_capacity(cells.len());
    let mut i: usize = 0;
    while i < cells.len()
        invariant
            i <= cells@.len(),
            tiles@.len() == i,
            forall|k: int| 0 <= k < i ==> tiles@[k] == cell_tiles(cells@, fg, bg)[k],
        decreases cells@.len() - i,
    {
        if cells[i] == 1 {
            tiles.push(fg);
        } else {
            tiles.push(bg);
        }
        i += 1;
    }
    assert(tiles@ =~= cell_tiles(cells@, fg, bg));
    tiles
}

/// The decimal digits of `n`, the highest first.
pub fn decimal_digits(n: usize) -> (digits: Vec<u8>)
    ensures
        digits@ == decimal(n as nat),
        forall|k: int| 0 <= k < digits@.len() ==> digits@[k] <= 9,
        1 <= digits@.len() <= 20,
    decreases n,
{
    if n < 10 {
        let mut digits: Vec<u8> = Vec::new();
        digits.push(n as u8);
        assert(digits@ == seq![n as u8]);
        digits
    } else {
        let mut digits: Vec<u8> = decimal_digits(n / 10);
        digits.push((n % 10) as u8);
        proof {
            lemma_decimal_len(n as nat);
        }
        digits
    }
}

/// Ten to the power of `k`.
pub open spec fn pow10(k: nat) -> nat
    decreases k,
{
    if k == 0 {
        1
    } else {
        10 * pow10((k - 1) as nat)
    }
}

/// A number below ten to the power of `k` has `k` decimal digits at most.
pub proof fn lemma_decimal_below(n: nat, k: nat)
    requires
        k >= 1,
        n < pow10(k),
    ensures
        1 <= decimal(n).len() <= k,
    decreases k,
{
    if n >= 10 {
        assert(pow10(1) == 10) by {
            reveal_with_fuel(pow10, 2);
        }
        lemma_decimal_below(n / 10, (k - 1) as nat);
    }
}

/// A number of 64 bits has twenty decimal digits at most.
pub proof fn lemma_decimal_len(n: nat)
    requires
        n <= 0xffff_ffff_ffff_ffff,
    ensures
        1 <= decimal(n).len() <= 20,
{
    assert(pow10(20) == 100_000_000_000_000_000_000) by {
        reveal_with_fuel(pow10, 21);
    }
    lemma_decimal_below(n, 20);
}

/// The number of bytes of a message that a warning makes room for: all of
/// them up to twenty, and twenty for a longer one.
pub open spec fn shown_bytes(len: int) -> int {
    if len > 20 {
        20
    } else {
        len
    }
}

/// The block of a warning for a screen `w` wide and a message of `len`
/// bytes: 29 rows, which stand for the rows 11 to 39 of the screen, black
/// but for a white field of six pixels for every byte shown, in the rows
/// above row 25.
pub open spec fn warning_block(w: int, len: int) -> Seq<u8> {
    Seq::new(
        (2 * 29 * w) as nat,
        |k: int|
            {
                let p = k / 2;
                let pixel = if p / w + 11 < 25 && p % w < 6 * shown_bytes(len) {
                    Color565::White.pixel()
                } else {
                    Color565::Black.pixel()
                };
                if k % 2 == 0 {
                    low_byte(pixel)
                } else {
                    high_byte(pixel)
                }
            },
    )
}

/// The pixels of an icon, row after row.
pub fn icon_pixels(icon: Icon) -> (tiles: Vec<u16>)
    ensures
        tiles@ == icon_tiles(icon),
{
    let color_ok: u16 = Color565::Green.to_pixel();
    let color_warn: u16 = Color565::Yellow.to_pixel();
    let color_error: u16 = Color565::Red.to_pixel();
    let color_bg: u16 = Color565::Black.to_pixel();
    let size: u32 = 16;
    let mut tiles: Vec<u16> = Vec::with_capacity(256);
    let mut y: u32 = 0;
    while y < size
        invariant
            y <= 16,
            size == 16,
            color_ok == 0b0000011111100000,
            color_warn == 0b1111111111100000,
            color_error == 0b1111100000000000,
            color_bg == 0,
            tiles@.len() == 16 * y,
            forall|i: int| 0 <= i < tiles@.len() ==> tiles@[i] == icon_tiles(icon)[i],
        decreases 16 - y,
    {
        let mut x: u32 = 0;
        while x < size
            invariant
                x <= 16,
                y < 16,
                size == 16,
                color_ok == 0b0000011111100000,
                color_warn == 0b1111111111100000,
                color_error == 0b1111100000000000,
                color_bg == 0,
                tiles@.len() == 16 * y + x,
                forall|i: int| 0 <= i < tiles@.len() ==> tiles@[i] == icon_tiles(icon)[i],
            decreases 16 - x,
        {
            let pixel: u16 = match icon {
                Icon::Okay => {
                    let is_set: bool = (x >= size / 3 && x <= size / 2 && y >= size / 2 && y
                        <= size / 2 + 2) || (x >= size / 2 && x <= size - 2 && (y == size / 2 + 2
                        - (x - size / 2) || y == size / 2 + 3 - (x - size / 2)));
                    if is_set {
                        color_ok
                    } else {
                        color_bg
                    }
                },
                Icon::Warning => {
                    let top_y: u32 = 1;
                    let bottom_y: u32 = size - 2;
                    let mid_x: u32 = size / 2;
                    let mark: bool = x >= mid_x - 1 && x <= mid_x + 1 && y >= top_y + 3 && y
                        < top_y + 3 + (size - 6) && (y - (top_y + 3) < size / 2 - 2 || y - (top_y
                        + 3) > size / 2);
                    if mark || y < top_y {
                        color_bg
                    } else {
                        let left_x: u32 = mid_x - (y - top_y) / 2 - 1;
                        let right_x: u32 = mid_x + (y - top_y) / 2 + 1;
                        let is_in_triangle: bool = y >= top_y && y <= bottom_y && x >= left_x && x
                            <= right_x;
                        let is_border: bool = (y == top_y && (x == mid_x || x == mid_x - 1 || x
                            == mid_x + 1)) || (y == bottom_y && x >= left_x && x <= right_x) || (y
                            > top_y && y < bottom_y && (x == left_x || x == right_x));
                        if is_border || is_in_triangle {
                            color_warn
                        } else {
                            color_bg
                        }
                    }
                },
                Icon::Error => {
                    let is_set: bool = ((x == y || x == y + 1 || x + 1 == y) && x >= 2 && x <= size
                        - 3) || ((x + y == size - 1 || x + y == size || x + y == size - 2) && x
                        >= 2 && x <= size - 3);
                    if is_set {
                        color_error
                    } else {
                        color_bg
                    }
                },
            };
            proof {
                let i = 16 * y + x;
                assert(i % 16 == x && i / 16 == y);
            }
            tiles.push(pixel);
            x = x + 1;
        }
        y = y + 1;
    }
    assert(tiles@ =~= icon_tiles(icon));
    tiles
}

} // verus!
