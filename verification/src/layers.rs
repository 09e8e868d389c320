//! Frames and layers. A frame holds the pixels of a screen row after row,
//! each pixel as two bytes with the lower one first. A layer says for each
//! place of the screen which pixel it puts there, if any; painting a layer
//! on a frame puts those pixels and leaves the rest of the frame as it was.

use vstd::prelude::*;
use vstd::arithmetic::div_mod::{
    lemma_fundamental_div_mod, lemma_fundamental_div_mod_converse, lemma_mod_pos_bound,
};
use crate::font::{digit_cells, glyph};

verus! {

/// The lower byte of a pixel, which comes first in a frame.
pub open spec fn low_byte(pixel: u16) -> u8 {
    (pixel % 256) as u8
}

/// The upper byte of a pixel.
pub open spec fn high_byte(pixel: u16) -> u8 {
    (pixel / 256) as u8
}

/// Byte `k` of the frame `frame` of a screen `w` wide and `h` high, once
/// `layer` is painted on it. The byte belongs to the pixel `k / 2`, which
/// lies in column `k / 2 % w` of row `k / 2 / w`. A pixel is painted only
/// where its row is on the screen and both its bytes are in the frame.
pub open spec fn painted_byte(
    frame: Seq<u8>,
    w: int,
    h: int,
    layer: spec_fn(int, int) -> Option<u16>,
    k: int,
) -> u8 {
    let p = k / 2;
    if p / w < h && 2 * p + 1 < frame.len() {
        match layer(p % w, p / w) {
            Some(pixel) => if k % 2 == 0 {
                low_byte(pixel)
            } else {
                high_byte(pixel)
            },
            None => frame[k],
        }
    } else {
        frame[k]
    }
}

/// The frame `frame` of a screen `w` wide and `h` high with `layer` painted
/// on it.
pub open spec fn paint(frame: Seq<u8>, w: int, h: int, layer: spec_fn(int, int) -> Option<u16>)
    -> Seq<u8> {
    Seq::new(frame.len(), |k: int| painted_byte(frame, w, h, layer, k))
}

/// The layer `top` on the layer `bottom`: what `top` puts, and elsewhere
/// what `bottom` puts.
pub open spec fn over(
    bottom: spec_fn(int, int) -> Option<u16>,
    top: spec_fn(int, int) -> Option<u16>,
) -> spec_fn(int, int) -> Option<u16> {
    |x: int, y: int|
        match top(x, y) {
            Some(pixel) => Some(pixel),
            None => bottom(x, y),
        }
}

/// The layer that puts nothing.
pub open spec fn nothing() -> spec_fn(int, int) -> Option<u16> {
    |x: int, y: int| None
}

/// The layer that puts `pixel` at column `x` of row `y` and nothing else.
pub open spec fn dot(x: int, y: int, pixel: u16) -> spec_fn(int, int) -> Option<u16> {
    |a: int, b: int|
        if a == x && b == y {
            Some(pixel)
        } else {
            None
        }
}

/// The layer that puts `pixel` on the `w` columns from `x` on in the `h`
/// rows from `y` on.
pub open spec fn rect(x: int, y: int, w: int, h: int, pixel: u16) -> spec_fn(int, int) -> Option<
    u16,
> {
    |a: int, b: int|
        if x <= a < x + w && y <= b < y + h {
            Some(pixel)
        } else {
            None
        }
}

/// The frame with every whole pixel set to `pixel`; a last odd byte stays.
pub open spec fn filled(frame: Seq<u8>, pixel: u16) -> Seq<u8> {
    Seq::new(
        frame.len(),
        |k: int|
            if 2 * (k / 2) + 1 < frame.len() {
                if k % 2 == 0 {
                    low_byte(pixel)
                } else {
                    high_byte(pixel)
                }
            } else {
                frame[k]
            },
    )
}

/// Painting one layer and then another is painting the second on the first.
pub proof fn lemma_paint_twice(
    frame: Seq<u8>,
    w: int,
    h: int,
    bottom: spec_fn(int, int) -> Option<u16>,
    top: spec_fn(int, int) -> Option<u16>,
)
    ensures
        paint(paint(frame, w, h, bottom), w, h, top) == paint(frame, w, h, over(bottom, top)),
{
    assert(paint(paint(frame, w, h, bottom), w, h, top) =~= paint(frame, w, h, over(bottom, top)));
}

/// Layers that put the same on the screen paint the same.
pub proof fn lemma_paint_same(
    frame: Seq<u8>,
    w: int,
    h: int,
    one: spec_fn(int, int) -> Option<u16>,
    other: spec_fn(int, int) -> Option<u16>,
)
    requires
        w > 0,
        forall|x: int, y: int| 0 <= x < w && 0 <= y < h ==> #[trigger] one(x, y) == other(x, y),
    ensures
        paint(frame, w, h, one) == paint(frame, w, h, other),
{
    assert forall|k: int| 0 <= k < frame.len() implies painted_byte(frame, w, h, one, k)
        == painted_byte(frame, w, h, other, k) by {
        let p = k / 2;
        lemma_fundamental_div_mod(p, w);
        assert(0 <= p % w < w);
        assert(0 <= p / w) by (nonlinear_arith)
            requires
                0 <= p,
                w > 0,
        ;
    }
    assert(paint(frame, w, h, one) =~= paint(frame, w, h, other));
}

/// Painting nothing changes nothing.
pub proof fn lemma_paint_nothing(frame: Seq<u8>, w: int, h: int)
    ensures
        paint(frame, w, h, nothing()) == frame,
{
    assert(paint(frame, w, h, nothing()) =~= frame);
}

/// Whether column `a` of row `b` lies in a grid of `cols` by `rows` tiles,
/// each `s` pixels wide and high, whose upper left corner is column `x` of
/// row `y`.
pub open spec fn in_grid(cols: int, rows: int, x: int, y: int, s: int, a: int, b: int) -> bool {
    s > 0 && x <= a < x + cols * s && y <= b < y + rows * s
}

/// The tile of such a grid in which column `a` of row `b` lies, the tiles
/// being counted row after row from the upper left.
pub open spec fn tile_at(cols: int, x: int, y: int, s: int, a: int, b: int) -> int {
    (b - y) / s * cols + (a - x) / s
}

/// The layer of a grid of tiles, each filled with the pixel that `tiles`
/// holds for it.
pub open spec fn tiled(tiles: Seq<u16>, cols: int, rows: int, x: int, y: int, s: int) -> spec_fn(
    int,
    int,
) -> Option<u16> {
    |a: int, b: int|
        if in_grid(cols, rows, x, y, s, a, b) {
            Some(tiles[tile_at(cols, x, y, s, a, b)])
        } else {
            None
        }
}

/// The same layer, of the first `done` tiles only.
pub open spec fn tiled_upto(
    tiles: Seq<u16>,
    cols: int,
    rows: int,
    x: int,
    y: int,
    s: int,
    done: int,
) -> spec_fn(int, int) -> Option<u16> {
    |a: int, b: int|
        if in_grid(cols, rows, x, y, s, a, b) && tile_at(cols, x, y, s, a, b) < done {
            Some(tiles[tile_at(cols, x, y, s, a, b)])
        } else {
            None
        }
}

/// The quotient of `d` by `s` is `q` exactly where `d` lies in the `q`-th
/// run of `s` numbers.
pub proof fn lemma_quotient(d: int, s: int, q: int)
    requires
        s > 0,
        0 <= d,
    ensures
        d / s == q <==> q * s <= d < q * s + s,
{
    lemma_fundamental_div_mod(d, s);
    lemma_mod_pos_bound(d, s);
    assert(s * (d / s) == (d / s) * s) by (nonlinear_arith);
    if q * s <= d < q * s + s {
        lemma_fundamental_div_mod_converse(d, s, q, d - q * s);
    }
}

/// The tile in column `cx` of row `cy` of a grid covers exactly the places
/// of the grid whose tile it is.
pub proof fn lemma_tile(
    cols: int,
    rows: int,
    x: int,
    y: int,
    s: int,
    cx: int,
    cy: int,
    a: int,
    b: int,
)
    requires
        s > 0,
        0 <= cx < cols,
        0 <= cy < rows,
    ensures
        (x + cx * s <= a < x + cx * s + s && y + cy * s <= b < y + cy * s + s) <==> (in_grid(
            cols,
            rows,
            x,
            y,
            s,
            a,
            b,
        ) && tile_at(cols, x, y, s, a, b) == cy * cols + cx),
{
    assert(cx * s + s <= cols * s) by (nonlinear_arith)
        requires
            cx + 1 <= cols,
            s > 0,
    ;
    assert(cy * s + s <= rows * s) by (nonlinear_arith)
        requires
            cy + 1 <= rows,
            s > 0,
    ;
    assert(0 <= cx * s && 0 <= cy * s) by (nonlinear_arith)
        requires
            0 <= cx,
            0 <= cy,
            s > 0,
    ;
    if x + cx * s <= a < x + cx * s + s && y + cy * s <= b < y + cy * s + s {
        lemma_quotient(a - x, s, cx);
        lemma_quotient(b - y, s, cy);
    }
    if in_grid(cols, rows, x, y, s, a, b) && tile_at(cols, x, y, s, a, b) == cy * cols + cx {
        let qa = (a - x) / s;
        let qb = (b - y) / s;
        lemma_quotient(a - x, s, qa);
        lemma_quotient(b - y, s, qb);
        assert(0 <= qa < cols) by (nonlinear_arith)
            requires
                qa * s <= a - x < qa * s + s,
                0 <= a - x < cols * s,
                s > 0,
        ;
        lemma_fundamental_div_mod_converse(qb * cols + qa, cols, qb, qa);
        lemma_fundamental_div_mod_converse(cy * cols + cx, cols, cy, cx);
    }
}

/// Every place of a grid lies in one of its tiles.
pub proof fn lemma_tile_in_grid(cols: int, rows: int, x: int, y: int, s: int, a: int, b: int)
    requires
        in_grid(cols, rows, x, y, s, a, b),
    ensures
        0 <= tile_at(cols, x, y, s, a, b) < rows * cols,
{
    let qa = (a - x) / s;
    let qb = (b - y) / s;
    lemma_quotient(a - x, s, qa);
    lemma_quotient(b - y, s, qb);
    assert(0 <= qa < cols) by (nonlinear_arith)
        requires
            qa * s <= a - x < qa * s + s,
            0 <= a - x < cols * s,
            s > 0,
    ;
    assert(0 <= qb < rows) by (nonlinear_arith)
        requires
            qb * s <= b - y < qb * s + s,
            0 <= b - y < rows * s,
            s > 0,
    ;
    assert(0 <= qb * cols + qa < rows * cols) by (nonlinear_arith)
        requires
            0 <= qa < cols,
            0 <= qb < rows,
    ;
}

/// The pixels of the tiles of a character: the pixel `fg` for a cell that
/// holds 1, the pixel `bg` for any other.
pub open spec fn cell_tiles(cells: Seq<u8>, fg: u16, bg: u16) -> Seq<u16> {
    Seq::new(
        cells.len(),
        |i: int|
            if cells[i] == 1 {
                fg
            } else {
                bg
            },
    )
}

/// The number of characters of `chars` that the large font has.
pub open spec fn glyphs_in(chars: Seq<char>) -> nat
    decreases chars.len(),
{
    if chars.len() == 0 {
        0
    } else {
        glyphs_in(chars.drop_last()) + if glyph(chars.last()) is Some {
            1nat
        } else {
            0nat
        }
    }
}

/// The layer of a text in the large font with its upper left corner at
/// column `x` of row `y`, drawn with tiles of `s` pixels in the pixel `fg`
/// on the pixel `bg`. A character takes five tiles and leaves one free
/// before the next; one that the font lacks is left out and takes no room.
/// Each character is drawn over those before it.
pub open spec fn text(chars: Seq<char>, x: int, y: int, s: int, fg: u16, bg: u16) -> spec_fn(
    int,
    int,
) -> Option<u16>
    decreases chars.len(),
{
    if chars.len() == 0 {
        nothing()
    } else {
        let rest = text(chars.drop_last(), x, y, s, fg, bg);
        match glyph(chars.last()) {
            Some(cells) => over(
                rest,
                tiled(cell_tiles(cells, fg, bg), 5, 5, x + 6 * s * glyphs_in(chars.drop_last()), y, s),
            ),
            None => rest,
        }
    }
}

/// The layer of a text in the small font with its upper left corner at
/// column `x` of row `y`. A character takes three tiles and leaves one free
/// before the next; `cells_of` says how each character is drawn. Each
/// character is drawn over those before it.
pub open spec fn small_text(
    cells_of: spec_fn(char) -> Seq<u8>,
    chars: Seq<char>,
    x: int,
    y: int,
    s: int,
    fg: u16,
    bg: u16,
) -> spec_fn(int, int) -> Option<u16>
    decreases chars.len(),
{
    if chars.len() == 0 {
        nothing()
    } else {
        over(
            small_text(cells_of, chars.drop_last(), x, y, s, fg, bg),
            tiled(
                cell_tiles(cells_of(chars.last()), fg, bg),
                3,
                5,
                x + 4 * s * (chars.len() - 1),
                y,
                s,
            ),
        )
    }
}

/// The decimal digits of `n`, the highest first.
pub open spec fn decimal(n: nat) -> Seq<u8>
    decreases n,
{
    if n < 10 {
        seq![n as u8]
    } else {
        decimal(n / 10).push((n % 10) as u8)
    }
}

/// The layer of a number in the small font with its upper left corner at
/// column `x` of row `y`: each digit in tiles of two pixels, white on black,
/// eight pixels to the right of the one before.
pub open spec fn number(digits: Seq<u8>, x: int, y: int, fg: u16, bg: u16) -> spec_fn(
    int,
    int,
) -> Option<u16>
    decreases digits.len(),
{
    if digits.len() == 0 {
        nothing()
    } else {
        over(
            number(digits.drop_last(), x, y, fg, bg),
            tiled(
                cell_tiles(digit_cells(digits.last() as int), fg, bg),
                3,
                5,
                x + 8 * (digits.len() - 1),
                y,
                2,
            ),
        )
    }
}

/// A grid that begins to the right of the screen, or below it, paints
/// nothing.
pub proof fn lemma_off_screen(
    frame: Seq<u8>,
    w: int,
    h: int,
    tiles: Seq<u16>,
    cols: int,
    rows: int,
    x: int,
    y: int,
    s: int,
    under: spec_fn(int, int) -> Option<u16>,
)
    requires
        w > 0,
        x >= w || y >= h,
    ensures
        paint(frame, w, h, over(under, tiled(tiles, cols, rows, x, y, s))) == paint(
            frame,
            w,
            h,
            under,
        ),
{
    lemma_paint_same(frame, w, h, over(under, tiled(tiles, cols, rows, x, y, s)), under);
}

/// The three status icons.
#[derive(Clone, Copy, Debug, PartialEq, Eq, Structural)]
pub enum Icon {
    /// A green check mark.
    Okay,
    /// A yellow triangle with a black exclamation mark.
    Warning,
    /// A red cross.
    Error,
}

/// The icon that a name stands for, if it stands for one.
pub open spec fn icon_named(name: Seq<char>) -> Option<Icon> {
    if name == "ok"@ {
        Some(Icon::Okay)
    } else if name == "warning"@ {
        Some(Icon::Warning)
    } else if name == "error"@ {
        Some(Icon::Error)
    } else {
        None
    }
}

/// Whether the check mark covers column `x` of row `y` of its sixteen by
/// sixteen pixels: a short bar to the left and a stroke of two pixels that
/// rises to the right.
pub open spec fn check_mark(x: int, y: int) -> bool {
    (5 <= x <= 8 && 8 <= y <= 10) || (8 <= x <= 14 && (y == 10 - (x - 8) || y == 11 - (x - 8)))
}

/// Whether the triangle covers column `x` of row `y`: from row 1 to row 14,
/// a pixel wider to each side every two rows.
pub open spec fn triangle(x: int, y: int) -> bool {
    1 <= y <= 14 && 7 - (y - 1) / 2 <= x <= 9 + (y - 1) / 2
}

/// Whether the exclamation mark covers column `x` of row `y`: three columns
/// wide, a stem of six rows and a dot.
pub open spec fn exclamation_mark(x: int, y: int) -> bool {
    7 <= x <= 9 && (4 <= y <= 9 || y == 13)
}

/// Whether the cross covers column `x` of row `y`: both diagonals, three
/// pixels thick, without the two outermost columns on each side.
pub open spec fn cross(x: int, y: int) -> bool {
    2 <= x <= 13 && (x == y || x == y + 1 || x + 1 == y || x + y == 15 || x + y == 16 || x + y
        == 14)
}

/// The pixel of an icon at column `x` of row `y` of its sixteen by sixteen
/// pixels. What the icon does not cover is black.
pub open spec fn icon_pixel(icon: Icon, x: int, y: int) -> u16 {
    match icon {
        Icon::Okay => if check_mark(x, y) {
            0b0000011111100000
        } else {
            0
        },
        Icon::Warning => if triangle(x, y) && !exclamation_mark(x, y) {
            0b1111111111100000
        } else {
            0
        },
        Icon::Error => if cross(x, y) {
            0b1111100000000000
        } else {
            0
        },
    }
}

/// The pixels of an icon, row after row.
pub open spec fn icon_tiles(icon: Icon) -> Seq<u16> {
    Seq::new(256, |i: int| icon_pixel(icon, i % 16, i / 16))
}

/// The frame of `pixels` pixels that are all the pixel `pixel`.
pub open spec fn solid(pixels: int, pixel: u16) -> Seq<u8> {
    Seq::new(
        (2 * pixels) as nat,
        |k: int|
            if k % 2 == 0 {
                low_byte(pixel)
            } else {
                high_byte(pixel)
            },
    )
}

} // verus!
