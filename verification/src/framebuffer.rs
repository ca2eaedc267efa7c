//! A text console drawn in software onto a linear pixel framebuffer, one
//! pre-rasterized glyph of the Noto Sans Mono font per character.
use vstd::prelude::*;
use noto_sans_mono_bitmap::FontWeight as NotoWeight;
use noto_sans_mono_bitmap::RasterHeight as NotoHeight;

verus! {

/// Color format of the pixels of a framebuffer.
#[derive(Clone, Copy, PartialEq, Eq, Structural, Debug)]
pub enum PixelFormat {
    /// One byte red, then one byte green, then one byte blue.
    Rgb,
    /// One byte blue, then one byte green, then one byte red.
    Bgr,
    /// A single grayscale byte.
    U8,
    /// Unknown format, with the bit offsets of its color values.
    Unknown { red_position: u8, green_position: u8, blue_position: u8 },
}

/// Layout of a framebuffer.
#[derive(Clone, Copy, PartialEq, Eq, Structural, Debug)]
pub struct FrameBufferInfo {
    /// The total size in bytes.
    pub byte_len: usize,
    /// The width in pixels.
    pub width: usize,
    /// The height in pixels.
    pub height: usize,
    /// The color format of each pixel.
    pub pixel_format: PixelFormat,
    /// The number of bytes per pixel.
    pub bytes_per_pixel: usize,
    /// Number of pixels between the start of a line and the start of the next.
    pub stride: usize,
}

/// Font weights of the glyph font.
#[derive(Clone, Copy, PartialEq, Eq, Structural, Debug)]
pub enum FontWeight {
    Light,
    Regular,
    Bold,
}

/// Raster heights of the glyph font.
#[derive(Clone, Copy, PartialEq, Eq, Structural, Debug)]
pub enum RasterHeight {
    Size16,
    Size20,
    Size24,
    Size32,
}

impl FontWeight {
    /// The position of the weight among the font's weights.
    pub open spec fn index(self) -> usize {
        match self {
            FontWeight::Light => 0,
            FontWeight::Regular => 1,
            FontWeight::Bold => 2,
        }
    }
}

impl RasterHeight {
    /// The height of a glyph box in pixels.
    pub open spec fn pixels(self) -> usize {
        match self {
            RasterHeight::Size16 => 16,
            RasterHeight::Size20 => 20,
            RasterHeight::Size24 => 24,
            RasterHeight::Size32 => 32,
        }
    }

    /// The height of a glyph box in pixels.
    pub fn val(self) -> (r: usize)
        ensures
            r == self.pixels(),
    {
        match self {
            RasterHeight::Size16 => 16,
            RasterHeight::Size20 => 20,
            RasterHeight::Size24 => 24,
            RasterHeight::Size32 => 32,
        }
    }
}

/// Width in pixels of every glyph of the given weight and height.
pub open spec fn raster_width(weight: FontWeight, height: RasterHeight) -> usize {
    match height {
        RasterHeight::Size16 => 7,
        RasterHeight::Size20 => 9,
        RasterHeight::Size24 => 11,
        RasterHeight::Size32 => 14,
    }
}

/// The rows of pixel intensities of the glyph that the font holds for a
/// character, at the given weight index and raster height.
pub uninterp spec fn glyph_raster(c: char, weight: usize, height: usize) -> Seq<Seq<u8>>;

/// The font holds glyphs for the printable ASCII characters.
pub open spec fn has_glyph(c: char) -> bool {
    ' ' <= c <= '~'
}

/// `noto_sans_mono_bitmap::get_raster_width`: the width of the glyphs of a
/// weight and height, as the crate's per-size tables give it.
#[verifier::external_body]
fn get_raster_width(weight: FontWeight, height: RasterHeight) -> (r: usize)
    ensures
        r == raster_width(weight, height),
{
    let w = match weight {
        FontWeight::Light => NotoWeight::Light,
        FontWeight::Regular => NotoWeight::Regular,
        FontWeight::Bold => NotoWeight::Bold,
    };
    let h = match height {
        RasterHeight::Size16 => NotoHeight::Size16,
        RasterHeight::Size20 => NotoHeight::Size20,
        RasterHeight::Size24 => NotoHeight::Size24,
        RasterHeight::Size32 => NotoHeight::Size32,
    };
    noto_sans_mono_bitmap::get_raster_width(w, h)
}

/// `noto_sans_mono_bitmap::get_raster`: the glyph of `c`, as rows of pixel
/// intensities. The crate holds glyphs exactly for the printable ASCII
/// characters; each glyph has as many rows as the raster height and as many
/// pixels per row as the raster width. The intensities themselves are named
/// by `glyph_raster`, not stated.
#[verifier::external_body]
fn get_raster(c: char, weight: FontWeight, height: RasterHeight) -> (r: Option<Vec<Vec<u8>>>)
    ensures
        r is Some <==> has_glyph(c),
        r matches Some(rows) ==> {
            &&& rows@.map_values(|row: Vec<u8>| row@) == glyph_raster(c, weight.index(), height.pixels())
            &&& rows@.len() == height.pixels()
            &&& forall|i: int| 0 <= i < rows@.len() ==> #[trigger] rows@[i]@.len() == raster_width(weight, height)
        },
{
    let w = match weight {
        FontWeight::Light => NotoWeight::Light,
        FontWeight::Regular => NotoWeight::Regular,
        FontWeight::Bold => NotoWeight::Bold,
    };
    let h = match height {
        RasterHeight::Size16 => NotoHeight::Size16,
        RasterHeight::Size20 => NotoHeight::Size20,
        RasterHeight::Size24 => NotoHeight::Size24,
        RasterHeight::Size32 => NotoHeight::Size32,
    };
    noto_sans_mono_bitmap::get_raster(c, w, h).map(|g| g.raster().iter().map(|row| row.to_vec()).collect())
}

/// The font weight the console draws with.
pub const FONT_WEIGHT: FontWeight = FontWeight::Regular;

/// The raster height the console draws with.
pub const CHAR_RASTER_HEIGHT: RasterHeight = RasterHeight::Size16;

/// Width in pixels of a character cell of the console.
pub open spec fn char_width() -> int {
    raster_width(FONT_WEIGHT, CHAR_RASTER_HEIGHT) as int
}

/// Height in pixels of a text line of the console.
pub open spec fn char_height() -> int {
    CHAR_RASTER_HEIGHT.pixels() as int
}

/// The framebuffer described by `info` fits in a buffer of `len` bytes, and
/// each pixel has room for the bytes its format writes.
pub open spec fn info_fits(info: FrameBufferInfo, len: int) -> bool {
    &&& info.width <= info.stride
    &&& info.stride * info.height * info.bytes_per_pixel <= len
    &&& info.bytes_per_pixel >= 1
    &&& (info.pixel_format is Rgb || info.pixel_format is Bgr) ==> info.bytes_per_pixel >= 3
}

/// Index of the first byte of pixel `(x, y)`.
pub open spec fn pixel_offset(info: FrameBufferInfo, x: int, y: int) -> int {
    (y * info.stride + x) * info.bytes_per_pixel
}

/// `buf` with pixel `(x, y)` set to gray level `v`: all three color bytes
/// for RGB and BGR, the first byte for other formats. A pixel off the
/// screen leaves the buffer as it is.
pub open spec fn set_pixel(buf: Seq<u8>, info: FrameBufferInfo, x: int, y: int, v: u8) -> Seq<u8> {
    if x < 0 || y < 0 || x >= info.width || y >= info.height {
        buf
    } else {
        let o = pixel_offset(info, x, y);
        if info.pixel_format is Rgb || info.pixel_format is Bgr {
            buf.update(o, v).update(o + 1, v).update(o + 2, v)
        } else {
            buf.update(o, v)
        }
    }
}

/// `buf` with the first `n` pixels of `row` drawn rightwards from `(x, y)`.
pub open spec fn paint_row(buf: Seq<u8>, info: FrameBufferInfo, x: int, y: int, row: Seq<u8>, n: int) -> Seq<u8>
    decreases n,
{
    if n <= 0 {
        buf
    } else {
        set_pixel(paint_row(buf, info, x, y, row, n - 1), info, x + n - 1, y, row[n - 1])
    }
}

/// `buf` with the first `n` rows of `rows` drawn downwards from `(x, y)`.
pub open spec fn paint_rows(buf: Seq<u8>, info: FrameBufferInfo, x: int, y: int, rows: Seq<Seq<u8>>, n: int) -> Seq<u8>
    decreases n,
{
    if n <= 0 {
        buf
    } else {
        let b = paint_rows(buf, info, x, y, rows, n - 1);
        paint_row(b, info, x, y + n - 1, rows[n - 1], rows[n - 1].len() as int)
    }
}

/// The glyph the console draws for `c`: its own, or that of `'?'` when the
/// font has none.
pub open spec fn glyph_for(c: char) -> Seq<Seq<u8>> {
    if has_glyph(c) {
        glyph_raster(c, FONT_WEIGHT.index(), CHAR_RASTER_HEIGHT.pixels())
    } else {
        glyph_raster('?', FONT_WEIGHT.index(), CHAR_RASTER_HEIGHT.pixels())
    }
}

/// What the console shows: the framebuffer bytes and the pixel cursor.
pub struct Screen {
    pub buffer: Seq<u8>,
    pub x: int,
    pub y: int,
}

/// A line break: the cursor goes to the start of the next line; when a
/// further line would not fit below it, the screen is cleared and the
/// cursor goes to the top.
pub open spec fn newline_screen(s: Screen, info: FrameBufferInfo) -> Screen {
    if s.y + 2 * char_height() > info.height {
        Screen { buffer: Seq::new(s.buffer.len(), |i: int| 0u8), x: 0, y: 0 }
    } else {
        Screen { buffer: s.buffer, x: 0, y: s.y + char_height() }
    }
}

/// Writing one character: `'\n'` breaks the line, `'\r'` does nothing, and
/// any other character is drawn at the cursor (after a line break when it
/// would not fit on the line), which then advances by one cell.
pub open spec fn write_char_screen(s: Screen, info: FrameBufferInfo, c: char) -> Screen {
    if c == '\n' {
        newline_screen(s, info)
    } else if c == '\r' {
        s
    } else {
        let s1 = if s.x + char_width() > info.width {
            newline_screen(s, info)
        } else {
            s
        };
        let g = glyph_for(c);
        Screen {
            buffer: paint_rows(s1.buffer, info, s1.x, s1.y, g, g.len() as int),
            x: s1.x + char_width(),
            y: s1.y,
        }
    }
}

/// Writing the characters of `text` one after the other.
pub open spec fn write_str_screen(s: Screen, info: FrameBufferInfo, text: Seq<char>) -> Screen
    decreases text.len(),
{
    if text.len() == 0 {
        s
    } else {
        write_char_screen(write_str_screen(s, info, text.drop_last()), info, text.last())
    }
}


/// The cursor stays where text can go: its line fits on the screen (or it
/// is at the top), and it is at most one cell past the right edge of a
/// screen narrower than a cell.
pub open spec fn cursor_on_screen(s: Screen, info: FrameBufferInfo) -> bool {
    &&& s.y == 0 || s.y + char_height() <= info.height
    &&& s.x <= info.width || s.x == char_width()
    &&& 0 <= s.x && 0 <= s.y
}

proof fn lemma_paint_rows_len(buf: Seq<u8>, info: FrameBufferInfo, x: int, y: int, rows: Seq<Seq<u8>>, n: int)
    requires
        info_fits(info, buf.len() as int),
    ensures
        paint_rows(buf, info, x, y, rows, n).len() == buf.len(),
    decreases n,
{
    if n > 0 {
        lemma_paint_rows_len(buf, info, x, y, rows, n - 1);
        let b = paint_rows(buf, info, x, y, rows, n - 1);
        lemma_paint_row_len(b, info, x, y + n - 1, rows[n - 1], rows[n - 1].len() as int);
    }
}

/// Writing a character never changes the size of the framebuffer, and keeps
/// the cursor on the screen.
pub proof fn lemma_write_char_stays_on_screen(s: Screen, info: FrameBufferInfo, c: char)
    requires
        info_fits(info, s.buffer.len() as int),
        cursor_on_screen(s, info),
    ensures
        write_char_screen(s, info, c).buffer.len() == s.buffer.len(),
        cursor_on_screen(write_char_screen(s, info, c), info),
{
    if c != '\n' && c != '\r' {
        let s1 = if s.x + char_width() > info.width {
            newline_screen(s, info)
        } else {
            s
        };
        let g = glyph_for(c);
        lemma_paint_rows_len(s1.buffer, info, s1.x, s1.y, g, g.len() as int);
    }
}

/// Writing a string never changes the size of the framebuffer, and keeps the
/// cursor on the screen.
pub proof fn lemma_write_str_stays_on_screen(s: Screen, info: FrameBufferInfo, text: Seq<char>)
    requires
        info_fits(info, s.buffer.len() as int),
        cursor_on_screen(s, info),
    ensures
        write_str_screen(s, info, text).buffer.len() == s.buffer.len(),
        cursor_on_screen(write_str_screen(s, info, text), info),
    decreases text.len(),
{
    if text.len() > 0 {
        lemma_write_str_stays_on_screen(s, info, text.drop_last());
        lemma_write_char_stays_on_screen(write_str_screen(s, info, text.drop_last()), info, text.last());
    }
}

/// A character the font has no glyph for is shown as `'?'`.
pub proof fn lemma_unknown_char_shows_question_mark(s: Screen, info: FrameBufferInfo, c: char)
    requires
        !has_glyph(c),
        c != '\n',
        c != '\r',
    ensures
        write_char_screen(s, info, c) == write_char_screen(s, info, '?'),
{
}

/// A carriage return changes nothing on the screen.
pub proof fn lemma_carriage_return_is_ignored(s: Screen, info: FrameBufferInfo)
    ensures
        write_char_screen(s, info, '\r') == s,
{
}

/// Writing `a + b` is writing `a`, then `b`.
pub proof fn lemma_write_str_append(s: Screen, info: FrameBufferInfo, a: Seq<char>, b: Seq<char>)
    ensures
        write_str_screen(s, info, a + b) == write_str_screen(write_str_screen(s, info, a), info, b),
    decreases b.len(),
{
    if b.len() == 0 {
        assert(a + b =~= a);
    } else {
        assert((a + b).drop_last() =~= a + b.drop_last());
        assert((a + b).last() == b.last());
        lemma_write_str_append(s, info, a, b.drop_last());
    }
}

proof fn lemma_pixel_in_buffer(info: FrameBufferInfo, len: int, x: int, y: int)
    requires
        info_fits(info, len),
        0 <= x < info.width,
        0 <= y < info.height,
    ensures
        0 <= y * info.stride + x <= pixel_offset(info, x, y),
        pixel_offset(info, x, y) + info.bytes_per_pixel <= len,
{
    let s = info.stride as int;
    let h = info.height as int;
    let b = info.bytes_per_pixel as int;
    assert(0 <= y * s + x <= (y * s + x) * b && (y * s + x) * b + b <= s * h * b) by (nonlinear_arith)
        requires
            0 <= x < s,
            0 <= y < h,
            b >= 1,
    ;
}

proof fn lemma_set_pixel_len(buf: Seq<u8>, info: FrameBufferInfo, x: int, y: int, v: u8)
    requires
        info_fits(info, buf.len() as int),
    ensures
        set_pixel(buf, info, x, y, v).len() == buf.len(),
{
    if 0 <= x < info.width && 0 <= y < info.height {
        lemma_pixel_in_buffer(info, buf.len() as int, x, y);
    }
}

proof fn lemma_paint_row_len(buf: Seq<u8>, info: FrameBufferInfo, x: int, y: int, row: Seq<u8>, n: int)
    requires
        info_fits(info, buf.len() as int),
    ensures
        paint_row(buf, info, x, y, row, n).len() == buf.len(),
    decreases n,
{
    if n > 0 {
        lemma_paint_row_len(buf, info, x, y, row, n - 1);
        lemma_set_pixel_len(paint_row(buf, info, x, y, row, n - 1), info, x + n - 1, y, row[n - 1]);
    }
}


/// The framebuffer bytes of pixel `(x, y)` show gray level `v`: its red,
/// green and blue bytes for RGB and BGR, its first byte for other formats.
pub open spec fn pixel_shows(buf: Seq<u8>, info: FrameBufferInfo, x: int, y: int, v: u8) -> bool {
    let o = pixel_offset(info, x, y);
    if info.pixel_format is Rgb || info.pixel_format is Bgr {
        buf[o] == v && buf[o + 1] == v && buf[o + 2] == v
    } else {
        buf[o] == v
    }
}

pub open spec fn on_screen(info: FrameBufferInfo, x: int, y: int) -> bool {
    0 <= x < info.width && 0 <= y < info.height
}

/// Distinct pixels of the screen occupy disjoint bytes of the framebuffer.
proof fn lemma_pixels_disjoint(info: FrameBufferInfo, len: int, x1: int, y1: int, x2: int, y2: int)
    requires
        info_fits(info, len),
        on_screen(info, x1, y1),
        on_screen(info, x2, y2),
        x1 != x2 || y1 != y2,
    ensures
        pixel_offset(info, x1, y1) + info.bytes_per_pixel <= pixel_offset(info, x2, y2)
            || pixel_offset(info, x2, y2) + info.bytes_per_pixel <= pixel_offset(info, x1, y1),
{
    let s = info.stride as int;
    let b = info.bytes_per_pixel as int;
    assert(y1 * s + x1 != y2 * s + x2) by (nonlinear_arith)
        requires
            0 <= x1 < s,
            0 <= x2 < s,
            0 <= y1,
            0 <= y2,
            x1 != x2 || y1 != y2,
    {
        if y1 < y2 {
            assert(y1 * s + x1 < (y1 + 1) * s);
            assert((y1 + 1) * s <= y2 * s);
        } else if y2 < y1 {
            assert(y2 * s + x2 < (y2 + 1) * s);
            assert((y2 + 1) * s <= y1 * s);
        }
    }
    let i1 = y1 * s + x1;
    let i2 = y2 * s + x2;
    assert(i1 * b + b <= i2 * b || i2 * b + b <= i1 * b) by (nonlinear_arith)
        requires
            i1 != i2,
            b >= 1,
    {
        if i1 < i2 {
            assert((i1 + 1) * b <= i2 * b);
        } else {
            assert((i2 + 1) * b <= i1 * b);
        }
    }
}

/// Setting a pixel of an RGB or BGR framebuffer makes it gray: its red,
/// green and blue bytes all get the intensity; a pixel of another format
/// gets it in its first byte. Other pixels of the screen keep what they show.
pub proof fn lemma_set_pixel_shows(buf: Seq<u8>, info: FrameBufferInfo, x: int, y: int, v: u8, px: int, py: int, w: u8)
    requires
        info_fits(info, buf.len() as int),
        on_screen(info, x, y),
        on_screen(info, px, py),
    ensures
        pixel_shows(set_pixel(buf, info, x, y, v), info, x, y, v),
        (px != x || py != y) && pixel_shows(buf, info, px, py, w) ==> pixel_shows(
            set_pixel(buf, info, x, y, v),
            info,
            px,
            py,
            w,
        ),
{
    lemma_pixel_in_buffer(info, buf.len() as int, x, y);
    lemma_pixel_in_buffer(info, buf.len() as int, px, py);
    if px != x || py != y {
        lemma_pixels_disjoint(info, buf.len() as int, x, y, px, py);
    }
}

/// A pixel outside what a row paints keeps what it shows.
proof fn lemma_paint_row_keeps(buf: Seq<u8>, info: FrameBufferInfo, x: int, y: int, row: Seq<u8>, n: int, px: int, py: int, w: u8)
    requires
        info_fits(info, buf.len() as int),
        on_screen(info, px, py),
        pixel_shows(buf, info, px, py, w),
        !(py == y && x <= px < x + n),
    ensures
        pixel_shows(paint_row(buf, info, x, y, row, n), info, px, py, w),
    decreases n,
{
    if n > 0 {
        lemma_paint_row_keeps(buf, info, x, y, row, n - 1, px, py, w);
        let b = paint_row(buf, info, x, y, row, n - 1);
        lemma_paint_row_len(buf, info, x, y, row, n - 1);
        if on_screen(info, x + n - 1, y) {
            lemma_set_pixel_shows(b, info, x + n - 1, y, row[n - 1], px, py, w);
        }
    }
}

/// Painting a row shows each of its pixels that lands on the screen.
proof fn lemma_paint_row_shows(buf: Seq<u8>, info: FrameBufferInfo, x: int, y: int, row: Seq<u8>, n: int, c: int)
    requires
        info_fits(info, buf.len() as int),
        0 <= c < n <= row.len(),
        on_screen(info, x + c, y),
    ensures
        pixel_shows(paint_row(buf, info, x, y, row, n), info, x + c, y, row[c]),
    decreases n,
{
    let b = paint_row(buf, info, x, y, row, n - 1);
    lemma_paint_row_len(buf, info, x, y, row, n - 1);
    if c == n - 1 {
        lemma_set_pixel_shows(b, info, x + c, y, row[c], x + c, y, row[c]);
    } else {
        lemma_paint_row_shows(buf, info, x, y, row, n - 1, c);
        if on_screen(info, x + n - 1, y) {
            lemma_set_pixel_shows(b, info, x + n - 1, y, row[n - 1], x + c, y, row[c]);
        }
    }
}

/// Drawing rows of pixels paints every one of them: each pixel `c` of row
/// `r` that lands on the screen shows its intensity at `(x + c, y + r)`.
pub proof fn lemma_paint_rows_shows(buf: Seq<u8>, info: FrameBufferInfo, x: int, y: int, rows: Seq<Seq<u8>>, r: int, c: int)
    requires
        info_fits(info, buf.len() as int),
        0 <= r < rows.len(),
        0 <= c < rows[r].len(),
        on_screen(info, x + c, y + r),
    ensures
        pixel_shows(paint_rows(buf, info, x, y, rows, rows.len() as int), info, x + c, y + r, rows[r][c]),
{
    lemma_paint_rows_prefix_shows(buf, info, x, y, rows, rows.len() as int, r, c);
}

proof fn lemma_paint_rows_prefix_shows(buf: Seq<u8>, info: FrameBufferInfo, x: int, y: int, rows: Seq<Seq<u8>>, n: int, r: int, c: int)
    requires
        info_fits(info, buf.len() as int),
        0 <= r < n <= rows.len(),
        0 <= c < rows[r].len(),
        on_screen(info, x + c, y + r),
    ensures
        pixel_shows(paint_rows(buf, info, x, y, rows, n), info, x + c, y + r, rows[r][c]),
    decreases n,
{
    let b = paint_rows(buf, info, x, y, rows, n - 1);
    lemma_paint_rows_len(buf, info, x, y, rows, n - 1);
    if r == n - 1 {
        lemma_paint_row_shows(b, info, x, y + r, rows[r], rows[r].len() as int, c);
    } else {
        lemma_paint_rows_prefix_shows(buf, info, x, y, rows, n - 1, r, c);
        lemma_paint_row_keeps(b, info, x, y + n - 1, rows[n - 1], rows[n - 1].len() as int, x + c, y + r, rows[r][c]);
    }
}

/// The glyph the font holds for `c` at the console's weight and height.
pub open spec fn font_glyph(c: char) -> Seq<Seq<u8>> {
    glyph_raster(c, FONT_WEIGHT.index(), CHAR_RASTER_HEIGHT.pixels())
}

/// Writing a character the font holds, where it fits on the line, draws
/// the character's own glyph with its top left corner at the cursor: every
/// glyph pixel that lands on the screen shows its intensity. The cursor
/// then moves one cell right.
pub proof fn lemma_write_char_draws_its_glyph(s: Screen, info: FrameBufferInfo, c: char, r: int, col: int)
    requires
        info_fits(info, s.buffer.len() as int),
        has_glyph(c),
        0 <= s.x,
        0 <= s.y,
        s.x + char_width() <= info.width,
        0 <= r < font_glyph(c).len(),
        0 <= col < font_glyph(c)[r].len(),
        on_screen(info, s.x + col, s.y + r),
    ensures
        pixel_shows(write_char_screen(s, info, c).buffer, info, s.x + col, s.y + r, font_glyph(c)[r][col]),
        write_char_screen(s, info, c).x == s.x + 7,
        write_char_screen(s, info, c).y == s.y,
{
    lemma_paint_rows_shows(s.buffer, info, s.x, s.y, font_glyph(c), r, col);
}

/// Writing a character the font holds that does not fit on the line draws
/// its own glyph at the start of the next line, or, when no further line
/// fits below, at the top left of the cleared screen.
pub proof fn lemma_write_char_wraps_and_draws(s: Screen, info: FrameBufferInfo, c: char, r: int, col: int)
    requires
        info_fits(info, s.buffer.len() as int),
        has_glyph(c),
        0 <= s.y,
        s.x + char_width() > info.width,
        0 <= r < font_glyph(c).len(),
        0 <= col < font_glyph(c)[r].len(),
    ensures
        s.y + 32 <= info.height && on_screen(info, col, s.y + 16 + r) ==> pixel_shows(
            write_char_screen(s, info, c).buffer,
            info,
            col,
            s.y + 16 + r,
            font_glyph(c)[r][col],
        ),
        s.y + 32 <= info.height ==> write_char_screen(s, info, c).x == 7 && write_char_screen(s, info, c).y == s.y + 16,
        s.y + 32 > info.height && on_screen(info, col, r) ==> pixel_shows(
            write_char_screen(s, info, c).buffer,
            info,
            col,
            r,
            font_glyph(c)[r][col],
        ),
        s.y + 32 > info.height ==> write_char_screen(s, info, c).x == 7 && write_char_screen(s, info, c).y == 0,
{
    let s1 = newline_screen(s, info);
    assert(s1.buffer.len() == s.buffer.len());
    if s.y + 32 <= info.height {
        if on_screen(info, col, s.y + 16 + r) {
            lemma_paint_rows_shows(s1.buffer, info, 0, s.y + 16, font_glyph(c), r, col);
        }
    } else {
        if on_screen(info, col, r) {
            lemma_paint_rows_shows(s1.buffer, info, 0, 0, font_glyph(c), r, col);
        }
    }
}

/// Writing a string is writing each of its characters in turn: one more
/// character at the end is one more character written.
pub proof fn lemma_write_str_push(s: Screen, info: FrameBufferInfo, text: Seq<char>, c: char)
    ensures
        write_str_screen(s, info, text.push(c)) == write_char_screen(write_str_screen(s, info, text), info, c),
        write_str_screen(s, info, seq![c]) == write_char_screen(s, info, c),
{
    assert(text.push(c).drop_last() =~= text);
    assert(seq![c].drop_last() =~= Seq::<char>::empty());
    assert(seq![c].last() == c);
    assert(write_str_screen(s, info, seq![c].drop_last()) == s);
}

/// The console: a framebuffer, its layout and the pixel cursor.
pub struct Writer {
    buffer: Vec<u8>,
    info: FrameBufferInfo,
    x: usize,
    y: usize,
}

impl Writer {
    /// What the console shows.
    pub closed spec fn screen(&self) -> Screen {
        Screen { buffer: self.buffer@, x: self.x as int, y: self.y as int }
    }

    /// The layout of the framebuffer.
    pub closed spec fn layout(&self) -> FrameBufferInfo {
        self.info
    }

    pub closed spec fn wf(&self) -> bool {
        info_fits(self.info, self.buffer@.len() as int)
    }

    /// The framebuffer bytes.
    pub fn buffer(&self) -> (r: &Vec<u8>)
        ensures
            r@ == self.screen().buffer,
    {
        &self.buffer
    }

    /// The pixel cursor `(x, y)`.
    pub fn cursor(&self) -> (r: (usize, usize))
        ensures
            r.0 == self.screen().x,
            r.1 == self.screen().y,
    {
        (self.x, self.y)
    }

    fn write_pixel(&mut self, x: usize, y: usize, intensity: u8)
        requires
            old(self).wf(),
        ensures
            final(self).wf(),
            final(self).info == old(self).info,
            final(self).x == old(self).x,
            final(self).y == old(self).y,
            final(self).buffer@ == set_pixel(old(self).buffer@, old(self).info, x as int, y as int, intensity),
    {
        if x >= self.info.width || y >= self.info.height {
            return;
        }
        let _len = self.buffer.len();
        proof {
            lemma_pixel_in_buffer(self.info, self.buffer@.len() as int, x as int, y as int);
            assert((y * self.info.stride + x) * self.info.bytes_per_pixel == pixel_offset(self.info, x as int, y as int));
        }
        let byte_offset = (y * self.info.stride + x) * self.info.bytes_per_pixel;
        match self.info.pixel_format {
            PixelFormat::Rgb | PixelFormat::Bgr => {
                self.buffer.set(byte_offset, intensity);
                self.buffer.set(byte_offset + 1, intensity);
                self.buffer.set(byte_offset + 2, intensity);
            },
            PixelFormat::U8 => {
                self.buffer.set(byte_offset, intensity);
            },
            _ => {
                self.buffer.set(byte_offset, intensity);
            },
        }
    }

    /// Draws pixel `(x + dx, y + dy)`; a position past the range of `usize`
    /// is off the screen.
    fn write_pixel_at(&mut self, x: usize, dx: usize, y: usize, dy: usize, intensity: u8)
        requires
            old(self).wf(),
        ensures
            final(self).wf(),
            final(self).info == old(self).info,
            final(self).x == old(self).x,
            final(self).y == old(self).y,
            final(self).buffer@ == set_pixel(old(self).buffer@, old(self).info, x + dx, y + dy, intensity),
    {
        match (x.checked_add(dx), y.checked_add(dy)) {
            (Some(px), Some(py)) => self.write_pixel(px, py, intensity),
            _ => {},
        }
    }

    fn clear(&mut self)
        requires
            old(self).wf(),
        ensures
            final(self).wf(),
            final(self).info == old(self).info,
            final(self).x == old(self).x,
            final(self).y == 0,
            final(self).buffer@ == Seq::new(old(self).buffer@.len(), |i: int| 0u8),
    {
        let len = self.buffer.len();
        let mut i: usize = 0;
        while i < len
            invariant
                0 <= i <= len,
                len == old(self).buffer@.len(),
                self.buffer@.len() == len,
                self.info == old(self).info,
                self.x == old(self).x,
                forall|k: int| 0 <= k < i ==> self.buffer@[k] == 0u8,
            decreases len - i,
        {
            self.buffer.set(i, 0);
            i = i + 1;
        }
        self.y = 0;
        assert(self.buffer@ =~= Seq::new(len as nat, |i: int| 0u8));
    }

    fn newline(&mut self)
        requires
            old(self).wf(),
        ensures
            final(self).wf(),
            final(self).info == old(self).info,
            final(self).screen() == newline_screen(old(self).screen(), old(self).info),
    {
        self.x = 0;
        let line = CHAR_RASTER_HEIGHT.val();
        if self.y > self.info.height || self.info.height - self.y < 2 * line {
            self.clear();
        } else {
            self.y = self.y + line;
        }
    }

    /// Draws the rows of `rows` downwards from the cursor, each row rightwards.
    fn draw_glyph(&mut self, rows: &Vec<Vec<u8>>)
        requires
            old(self).wf(),
        ensures
            final(self).wf(),
            final(self).info == old(self).info,
            final(self).x == old(self).x,
            final(self).y == old(self).y,
            final(self).buffer@ == paint_rows(
                old(self).buffer@,
                old(self).info,
                old(self).x as int,
                old(self).y as int,
                rows@.map_values(|row: Vec<u8>| row@),
                rows@.len() as int,
            ),
    {
        let ghost g = rows@.map_values(|row: Vec<u8>| row@);
        let ghost b0 = self.buffer@;
        let ghost info = self.info;
        let x0 = self.x;
        let y0 = self.y;
        let mut i: usize = 0;
        while i < rows.len()
            invariant
                0 <= i <= rows@.len(),
                g == rows@.map_values(|row: Vec<u8>| row@),
                self.wf(),
                self.info == info,
                self.x == x0,
                self.y == y0,
                self.buffer@ == paint_rows(b0, info, x0 as int, y0 as int, g, i as int),
            decreases rows@.len() - i,
        {
            let row = &rows[i];
            let ghost before = self.buffer@;
            assert(g[i as int] == row@);
            let mut j: usize = 0;
            while j < row.len()
                invariant
                    0 <= j <= row@.len(),
                    self.wf(),
                    self.info == info,
                    self.x == x0,
                    self.y == y0,
                    self.buffer@ == paint_row(before, info, x0 as int, y0 + i, row@, j as int),
                decreases row@.len() - j,
            {
                self.write_pixel_at(x0, j, y0, i, row[j]);
                j = j + 1;
            }
            i = i + 1;
        }
    }

    /// Writes one character at the cursor: `'\n'` breaks the line, `'\r'` is
    /// ignored, and any other character is drawn with its glyph (that of
    /// `'?'` when the font has none), after a line break when the character
    /// does not fit on the current line; the cursor then advances by one cell.
    pub fn write_char(&mut self, c: char)
        requires
            old(self).wf(),
        ensures
            final(self).wf(),
            final(self).layout() == old(self).layout(),
            final(self).screen() == write_char_screen(old(self).screen(), old(self).layout(), c),
    {
        if c == '\n' {
            self.newline();
        } else if c == '\r' {
        } else {
            let cell = get_raster_width(FONT_WEIGHT, CHAR_RASTER_HEIGHT);
            if self.x > self.info.width || self.info.width - self.x < cell {
                self.newline();
            }
            let glyph = match get_raster(c, FONT_WEIGHT, CHAR_RASTER_HEIGHT) {
                Some(g) => g,
                None => match get_raster('?', FONT_WEIGHT, CHAR_RASTER_HEIGHT) {
                    Some(g) => g,
                    None => {
                        proof {
                            assert(has_glyph('?'));
                        }
                        Vec::new()
                    },
                },
            };
            self.draw_glyph(&glyph);
            self.x = self.x + cell;
        }
    }

    /// Writes the characters of `s` one after the other.
    pub fn write_str(&mut self, s: &str)
        requires
            old(self).wf(),
        ensures
            final(self).wf(),
            final(self).layout() == old(self).layout(),
            final(self).screen() == write_str_screen(old(self).screen(), old(self).layout(), s@),
    {
        let ghost start = self.screen();
        let ghost info = self.info;
        for c in it: s.chars()
            invariant
                self.wf(),
                self.info == info,
                it.seq() == s@,
                self.screen() == write_str_screen(start, info, s@.take(it.index() as int)),
        {
            proof {
                assert(s@.take(it.index() + 1).drop_last() =~= s@.take(it.index() as int));
            }
            self.write_char(c);
        }
        proof {
            assert(s@.take(s@.len() as int) =~= s@);
        }
    }
}

/// A console on `buffer`, laid out as `info`: the screen is cleared and the
/// cursor is at the top left.
pub fn init(buffer: Vec<u8>, info: FrameBufferInfo) -> (w: Writer)
    requires
        info_fits(info, buffer@.len() as int),
    ensures
        w.wf(),
        w.layout() == info,
        w.screen() == (Screen { buffer: Seq::new(buffer@.len(), |i: int| 0u8), x: 0, y: 0 }),
{
    let mut writer = Writer { buffer, info, x: 0, y: 0 };
    writer.clear();
    writer
}

} // verus!
