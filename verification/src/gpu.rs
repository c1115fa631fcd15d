//! Text drawn into the RGB framebuffer of the 720x400 text screen.
use vstd::prelude::*;

verus! {

/// Pixels in a row of the screen.
pub const SCREEN_WIDTH: usize = 720;

/// Rows of the screen.
pub const SCREEN_HEIGHT: usize = 400;

/// Bytes a framebuffer must hold: three per pixel.
pub const FRAMEBUFFER_BYTES: usize = 864000;

/// Bytes of one glyph in the font: one per row of 8 pixels.
pub const GLYPH_BYTES: usize = 16;

/// `fb` with the pixel at `(x, y)` set to `(r, g, b)`; pixels off the screen are not
/// drawn.
pub open spec fn with_pixel(fb: Seq<u8>, x: int, y: int, r: u8, g: u8, b: u8) -> Seq<u8> {
    if 0 <= x < 720 && 0 <= y < 400 {
        let i = (y * 720 + x) * 3;
        fb.update(i, r).update(i + 1, g).update(i + 2, b)
    } else {
        fb
    }
}

/// Whether bit `7 - col` of a glyph row is set: the row's pixels run from the most
/// significant bit.
pub open spec fn glyph_bit(bits: u8, col: int) -> bool {
    bits & ((1u8 << ((7 - col) as u8)) as u8) != 0
}

/// `fb` with the set bits of glyph row `bits` drawn from column `col` on, at `(x, y)`.
pub open spec fn row_drawn(fb: Seq<u8>, bits: u8, x: int, y: int, col: int, r: u8, g: u8, b: u8) -> Seq<u8>
    decreases 8 - col,
{
    if col >= 8 || col < 0 {
        fb
    } else {
        let next = if glyph_bit(bits, col) {
            with_pixel(fb, x + col, y, r, g, b)
        } else {
            fb
        };
        row_drawn(next, bits, x, y, col + 1, r, g, b)
    }
}

/// `fb` with the rows of `glyph` from `row` on drawn with their top-left corner at
/// `(x, y)`.
pub open spec fn glyph_drawn(fb: Seq<u8>, glyph: Seq<u8>, x: int, y: int, row: int, r: u8, g: u8, b: u8) -> Seq<u8>
    decreases glyph.len() - row,
{
    if row >= glyph.len() || row < 0 {
        fb
    } else {
        glyph_drawn(row_drawn(fb, glyph[row], x, y + row, 0, r, g, b), glyph, x, y, row + 1, r, g, b)
    }
}

/// The glyph of character code `c` in `font`.
pub open spec fn glyph_of(font: Seq<u8>, c: int) -> Seq<u8> {
    font.subrange(c * 16, c * 16 + 16)
}

/// `fb` with the characters of `text` from index `k` on drawn 8 pixels apart, the
/// first at `(x, y)`.
pub open spec fn text_drawn(fb: Seq<u8>, font: Seq<u8>, text: Seq<char>, k: int, x: int, y: int, r: u8, g: u8, b: u8) -> Seq<u8>
    decreases text.len() - k,
{
    if k >= text.len() || k < 0 {
        fb
    } else {
        text_drawn(
            glyph_drawn(fb, glyph_of(font, text[k] as int), x, y, 0, r, g, b),
            font,
            text,
            k + 1,
            x + 8,
            y,
            r,
            g,
            b,
        )
    }
}

/// Sets the pixel at `(x, y)`; pixels off the screen are left alone.
pub fn put_pixel(fb: &mut [u8], x: usize, y: usize, r: u8, g: u8, b: u8)
    requires
        old(fb)@.len() >= FRAMEBUFFER_BYTES,
    ensures
        final(fb)@ == with_pixel(old(fb)@, x as int, y as int, r, g, b),
        final(fb)@.len() == old(fb)@.len(),
{
    if x >= 720 || y >= 400 {
        return;
    }
    let i = (y * 720 + x) * 3;
    fb[i] = r;
    fb[i + 1] = g;
    fb[i + 2] = b;
}

/// Draws the glyph of `c` with its top-left corner at `(x, y)`.
pub fn draw_char(fb: &mut [u8], font: &[u8], x: usize, y: usize, c: char, r: u8, g: u8, b: u8)
    requires
        old(fb)@.len() >= FRAMEBUFFER_BYTES,
        (c as int) * 16 + 16 <= font@.len(),
        x + 8 <= usize::MAX,
        y + 16 <= usize::MAX,
    ensures
        final(fb)@ == glyph_drawn(old(fb)@, glyph_of(font@, c as int), x as int, y as int, 0, r, g, b),
        final(fb)@.len() == old(fb)@.len(),
{
    assert(font@.len() == font.len());
    let start = (c as usize) * 16;
    let ghost glyph = glyph_of(font@, c as int);
    let mut row: usize = 0;
    while row < 16
        invariant
            0 <= row <= 16,
            glyph.len() == 16,
            glyph == font@.subrange(start as int, start + 16),
            start + 16 <= font@.len(),
            font@.len() <= usize::MAX,
            fb@.len() == old(fb)@.len(),
            old(fb)@.len() >= FRAMEBUFFER_BYTES,
            x + 8 <= usize::MAX,
            y + 16 <= usize::MAX,
            glyph_drawn(old(fb)@, glyph, x as int, y as int, 0, r, g, b) == glyph_drawn(
                fb@,
                glyph,
                x as int,
                y as int,
                row as int,
                r,
                g,
                b,
            ),
        decreases 16 - row,
    {
        let bits = font[start + row];
        assert(bits == glyph[row as int]);
        let ghost before = fb@;
        let mut col: usize = 0;
        while col < 8
            invariant
                0 <= col <= 8,
                row < 16,
                fb@.len() == old(fb)@.len(),
                old(fb)@.len() >= FRAMEBUFFER_BYTES,
                x + 8 <= usize::MAX,
                y + 16 <= usize::MAX,
                row_drawn(before, bits, x as int, y + row, 0, r, g, b) == row_drawn(
                    fb@,
                    bits,
                    x as int,
                    y + row,
                    col as int,
                    r,
                    g,
                    b,
                ),
            decreases 8 - col,
        {
            if bits & (1 << (7 - col as u8)) != 0 {
                put_pixel(fb, x + col, y + row, r, g, b);
            }
            col = col + 1;
        }
        row = row + 1;
    }
}

/// Draws `text` from `(x, y)`, each character 8 pixels to the right of the one before.
pub fn draw_text(fb: &mut [u8], font: &[u8], x: usize, y: usize, text: &str, r: u8, g: u8, b: u8)
    requires
        old(fb)@.len() >= FRAMEBUFFER_BYTES,
        forall|k: int| 0 <= k < text@.len() ==> (text@[k] as int) * 16 + 16 <= font@.len(),
        x + 8 * text@.len() + 8 <= usize::MAX,
        y + 16 <= usize::MAX,
    ensures
        final(fb)@ == text_drawn(old(fb)@, font@, text@, 0, x as int, y as int, r, g, b),
{
    let mut cx = x;
    let n = text.unicode_len();
    let mut k: usize = 0;
    while k < n
        invariant
            0 <= k <= n,
            n == text@.len(),
            cx == x + 8 * k,
            fb@.len() == old(fb)@.len(),
            old(fb)@.len() >= FRAMEBUFFER_BYTES,
            forall|j: int| 0 <= j < text@.len() ==> (text@[j] as int) * 16 + 16 <= font@.len(),
            x + 8 * text@.len() + 8 <= usize::MAX,
            y + 16 <= usize::MAX,
            text_drawn(old(fb)@, font@, text@, 0, x as int, y as int, r, g, b) == text_drawn(
                fb@,
                font@,
                text@,
                k as int,
                cx as int,
                y as int,
                r,
                g,
                b,
            ),
        decreases n - k,
    {
        let ch = text.get_char(k);
        draw_char(fb, font, cx, y, ch, r, g, b);
        cx = cx + 8;
        k = k + 1;
    }
}

} // verus!
