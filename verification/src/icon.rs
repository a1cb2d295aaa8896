//! Icon rendering: sizing the raster to the terminal and pairing pixel rows
//! into half-block glyph cells.
//!
//! The icon arrives as a base64 payload behind a data-URI prefix.  The bytes
//! are decoded and resized by the image library behind trusted wrappers; the
//! sizing rule and the pairing of two vertically adjacent pixels into one
//! glyph cell (foreground above, background below) are verified.

use vstd::prelude::*;

use crate::style::Rgb;

verus! {

impl View for Rgb {
    type V = Rgb;

    open spec fn view(&self) -> Rgb {
        *self
    }
}

impl DeepView for Rgb {
    type V = Rgb;

    open spec fn deep_view(&self) -> Rgb {
        *self
    }
}

/// One glyph cell: the upper pixel is drawn as the foreground of a
/// half-block character, the lower pixel as its background.
#[derive(Clone, Copy, Debug, PartialEq, Eq, Structural)]
pub struct PixelBlock {
    pub upper: Rgb,
    pub lower: Rgb,
}

impl View for PixelBlock {
    type V = PixelBlock;

    open spec fn view(&self) -> PixelBlock {
        *self
    }
}

impl DeepView for PixelBlock {
    type V = PixelBlock;

    open spec fn deep_view(&self) -> PixelBlock {
        *self
    }
}

/// Why an icon could not be rendered.
#[derive(Clone, Copy, Debug, PartialEq, Eq, Structural)]
pub enum IconError {
    /// The payload is not valid base64.
    InvalidBase64,
    /// The terminal leaves no room for the glyph grid.
    TermTooSmall,
    /// The decoded bytes are not a readable image.
    UndecodableImage,
}

// ---------------------------------------------------------------------------
// Sizing
// ---------------------------------------------------------------------------

/// The square render size for a terminal of `term` columns and rows with the
/// reserved margin `base`: none when the terminal is too small; the free
/// width when width limits and leaves at least the minimum; otherwise two
/// pixel rows per free glyph row less a two-row margin, capped at 64.
pub open spec fn calc_image_size_spec(term: (u16, u16), base: (u16, u16)) -> Option<int> {
    if term.0 <= base.0 || term.1 <= base.1 {
        None
    } else {
        let x_max = term.0 - base.0;
        let y_max = term.1 - base.1;
        if x_max < y_max {
            if x_max < 13 {
                None
            } else {
                Some(x_max as int)
            }
        } else {
            if 2 * y_max - 2 > 64 {
                Some(64)
            } else {
                Some(2 * y_max - 2)
            }
        }
    }
}

/// Computes the square render size for the given terminal size and reserved
/// margin; `None` means the terminal is too small.
pub fn calc_image_size(term: (u16, u16), base: (u16, u16)) -> (r: Option<usize>)
    ensures
        r is Some <==> calc_image_size_spec(term, base) is Some,
        r matches Some(s) ==> calc_image_size_spec(term, base) == Some(s as int),
{
    if term.0 <= base.0 || term.1 <= base.1 {
        return None;
    }
    let x_max = term.0 - base.0;
    let y_max = term.1 - base.1;
    if x_max < y_max {
        if x_max < 13 {
            None
        } else {
            Some(x_max as usize)
        }
    } else {
        let doubled = 2 * (y_max as usize) - 2;
        if doubled > 64 {
            Some(64)
        } else {
            Some(doubled)
        }
    }
}

// ---------------------------------------------------------------------------
// Pairing pixel rows into glyph cells
// ---------------------------------------------------------------------------

/// How many glyph cells a paired row yields: one per column, never past
/// either row's end.
pub open spec fn glyph_count(r1: Seq<Rgb>, r2: Seq<Rgb>) -> int {
    if r1.len() <= r2.len() {
        r1.len() as int
    } else {
        r2.len() as int
    }
}

/// The glyph cells of one paired row.
pub open spec fn glyph_row(r1: Seq<Rgb>, r2: Seq<Rgb>) -> Seq<PixelBlock> {
    Seq::new(glyph_count(r1, r2) as nat, |i: int| PixelBlock { upper: r1[i], lower: r2[i] })
}

/// The glyph lines of a pixel grid: one line per pair of rows; a trailing
/// unpaired row yields an empty line rather than a partial glyph.
pub open spec fn glyph_lines_spec(rows: Seq<Seq<Rgb>>) -> Seq<Seq<PixelBlock>> {
    Seq::new(
        (((rows.len() + 1) / 2) as int) as nat,
        |k: int|
            if 2 * k + 1 < rows.len() {
                glyph_row(rows[2 * k], rows[2 * k + 1])
            } else {
                Seq::empty()
            },
    )
}

/// Pairs a pixel grid's rows into glyph lines.
pub fn glyph_lines(rows: &Vec<Vec<Rgb>>) -> (r: Vec<Vec<PixelBlock>>)
    ensures
        r.deep_view() == glyph_lines_spec(rows.deep_view()),
{
    let ghost grid = rows.deep_view();
    let n = rows.len();
    let count = n / 2 + n % 2;
    let mut out: Vec<Vec<PixelBlock>> = Vec::new();
    let mut k: usize = 0;
    proof {
        assert(grid.len() == n);
        assert(forall|i: int| 0 <= i < n ==> grid[i] == rows@[i].deep_view());
        assert(count == (n + 1) / 2);
    }
    while k < count
        invariant
            n == rows@.len(),
            grid == rows.deep_view(),
            grid.len() == n,
            forall|i: int| 0 <= i < n ==> grid[i] == rows@[i].deep_view(),
            count == (n + 1) / 2,
            k <= count,
            out.deep_view().len() == k,
            forall|i: int| 0 <= i < k ==> out.deep_view()[i] == glyph_lines_spec(grid)[i],
        decreases count - k,
    {
        let mut line: Vec<PixelBlock> = Vec::new();
        if 2 * k + 1 < n {
            let r1 = &rows[2 * k];
            let r2 = &rows[2 * k + 1];
            let m = if r1.len() <= r2.len() {
                r1.len()
            } else {
                r2.len()
            };
            proof {
                assert(grid[2 * k as int] == r1.deep_view());
                assert(grid[2 * k as int + 1] == r2.deep_view());
                assert(m == glyph_count(r1.deep_view(), r2.deep_view()));
            }
            let mut i: usize = 0;
            while i < m
                invariant
                    m == glyph_count(r1.deep_view(), r2.deep_view()),
                    m <= r1@.len(),
                    m <= r2@.len(),
                    i <= m,
                    line.deep_view().len() == i,
                    forall|j: int| 0 <= j < i ==> line.deep_view()[j] == glyph_row(
                        r1.deep_view(),
                        r2.deep_view(),
                    )[j],
                decreases m - i,
            {
                let ghost old_dv = line.deep_view();
                let b = PixelBlock { upper: r1[i], lower: r2[i] };
                line.push(b);
                proof {
                    assert(line.deep_view() =~= old_dv.push(b));
                    assert(r1.deep_view()[i as int] == r1@[i as int]);
                    assert(r2.deep_view()[i as int] == r2@[i as int]);
                    assert(line.deep_view()[i as int] == glyph_row(r1.deep_view(), r2.deep_view())[i as int]);
                }
                i += 1;
            }
            proof {
                assert(line.deep_view() =~= glyph_row(r1.deep_view(), r2.deep_view()));
            }
        } else {
            proof {
                assert(line.deep_view() =~= Seq::<PixelBlock>::empty());
            }
        }
        out.push(line);
        k += 1;
    }
    proof {
        assert(out.deep_view() =~= glyph_lines_spec(grid));
    }
    out
}

// ---------------------------------------------------------------------------
// Trusted wrappers around the image and base64 libraries
// ---------------------------------------------------------------------------

/// A rectangular pixel grid: all rows of one length.
pub open spec fn rectangular(rows: Seq<Seq<Rgb>>) -> bool {
    forall|i: int, j: int|
        0 <= i < rows.len() && 0 <= j < rows.len() ==> rows[i].len() == rows[j].len()
}

/// The pixel grid the image library reads out of the given bytes resized to
/// fit a `size` square: `None` on bytes no decoder reads.  Decoding and
/// resampling depend on the bytes and the size alone.
pub uninterp spec fn image_rows_of(bytes: Seq<u8>, size: u32) -> Option<Seq<Seq<Rgb>>>;

/// Relies on image::load_from_memory (decodes an image from its raw bytes,
/// format guessed from them; an error on bytes no decoder reads),
/// image::DynamicImage::resize with the Catmull-Rom filter (scales the
/// raster to fit within a `size` by `size` square when `size` is at least
/// one, keeping the aspect ratio, never below one pixel a side), and
/// image::GenericImageView::get_pixel (read in bounds, row by row, alpha
/// dropped).  Every row is built with the raster's width, so the grid is
/// rectangular and bounded by the requested square.
#[verifier::external_body]
fn decode_resized_rows(buf: &[u8], size: u32) -> (r: Option<Vec<Vec<Rgb>>>)
    ensures
        r is Some <==> image_rows_of(buf@, size) is Some,
        r matches Some(rows) ==> image_rows_of(buf@, size) == Some(rows.deep_view()),
        r matches Some(rows) ==> rectangular(rows.deep_view()),
        r matches Some(rows) ==> size >= 1 ==> rows.deep_view().len() <= size && (forall|i: int|
            0 <= i < rows.deep_view().len() ==> #[trigger] rows.deep_view()[i].len() <= size),
{
    let img = match image::load_from_memory(buf) {
        Ok(i) => i.resize(size, size, image::imageops::FilterType::CatmullRom),
        Err(_) => return None,
    };
    let mut rows: Vec<Vec<Rgb>> = Vec::new();
    for y in 0..img.height() {
        let mut row: Vec<Rgb> = Vec::new();
        for x in 0..img.width() {
            let p = image::GenericImageView::get_pixel(&img, x, y);
            row.push(Rgb { r: p.0[0], g: p.0[1], b: p.0[2] });
        }
        rows.push(row);
    }
    Some(rows)
}

/// What the base64 decoder with the standard alphabet yields on the given
/// text: `None` on text that is not valid base64.  The result depends on the
/// text alone.
pub uninterp spec fn b64_decode(s: Seq<char>) -> Option<Seq<u8>>;

/// Relies on base64::Engine::decode with the standard engine.
#[verifier::external_body]
fn base64_decode(s: &str) -> (r: Option<Vec<u8>>)
    ensures
        r is Some <==> b64_decode(s@) is Some,
        r matches Some(v) ==> b64_decode(s@) == Some(v@),
{
    base64::Engine::decode(&base64::engine::general_purpose::STANDARD, s).ok()
}

// ---------------------------------------------------------------------------
// The icon pipeline
// ---------------------------------------------------------------------------

/// The data-URI prefix an icon payload carries in front of its base64 text.
pub open spec fn icon_prefix() -> Seq<char> {
    "data:image/png;base64,"@
}

/// The payload with the data-URI prefix stripped, when it starts with one.
pub open spec fn strip_icon_prefix_spec(s: Seq<char>) -> Seq<char> {
    if s.len() >= icon_prefix().len() && s.take(icon_prefix().len() as int) == icon_prefix() {
        s.skip(icon_prefix().len() as int)
    } else {
        s
    }
}

/// Strips the data-URI prefix off an icon payload, if it starts with one.
pub fn strip_icon_prefix(s: &str) -> (r: String)
    ensures
        r@ == strip_icon_prefix_spec(s@),
{
    let p = "data:image/png;base64,";
    let plen = p.unicode_len();
    let slen = s.unicode_len();
    if slen < plen {
        proof {
            assert(s@.len() < icon_prefix().len());
        }
        return s.to_owned();
    }
    let mut i: usize = 0;
    while i < plen
        invariant
            plen == icon_prefix().len(),
            plen == p@.len(),
            p@ == icon_prefix(),
            slen == s@.len(),
            plen <= slen,
            i <= plen,
            forall|j: int| 0 <= j < i ==> s@[j] == icon_prefix()[j],
        decreases plen - i,
    {
        if s.get_char(i) != p.get_char(i) {
            proof {
                assert(s@[i as int] != icon_prefix()[i as int]);
                assert(s@.take(icon_prefix().len() as int)[i as int] != icon_prefix()[i as int]);
                assert(s@.take(icon_prefix().len() as int) != icon_prefix());
            }
            return s.to_owned();
        }
        i += 1;
    }
    proof {
        assert(s@.take(plen as int) =~= icon_prefix());
    }
    let rest = s.substring_char(plen, slen);
    rest.to_owned()
}

/// The icon bytes a favicon payload carries: the data-URI prefix stripped,
/// the rest read as base64.
pub open spec fn favicon_bytes(favicon: Seq<char>) -> Option<Seq<u8>> {
    b64_decode(strip_icon_prefix_spec(favicon))
}

/// The render size a favicon gets under the fixed column margin, after
/// `lines_len` text lines are already on screen.
pub open spec fn favicon_render_size(term: (u16, u16), lines_len: usize) -> Option<int> {
    calc_image_size_spec(term, (13, (lines_len + 1) as u16))
}

/// Renders decoded image bytes as glyph lines: the raster is decoded,
/// resized to fit a `size` square, and its pixel rows paired into half-block
/// cells.  It succeeds exactly when the bytes decode as an image; its lines
/// are exactly the pairing of the resized grid; and for a positive size the
/// output fits the square: at most `(size + 1) / 2` lines of at most `size`
/// cells each.
pub fn img2lines(buffer: &[u8], size: u32) -> (r: Result<Vec<Vec<PixelBlock>>, IconError>)
    ensures
        r is Ok <==> image_rows_of(buffer@, size) is Some,
        r matches Ok(lines) ==> lines.deep_view() == glyph_lines_spec(
            image_rows_of(buffer@, size)->0,
        ),
        r matches Err(e) ==> e == IconError::UndecodableImage,
        r matches Ok(lines) ==> size >= 1 ==> lines.deep_view().len() <= (size + 1) / 2 && (
        forall|i: int|
            0 <= i < lines.deep_view().len() ==> #[trigger] lines.deep_view()[i].len() <= size),
{
    match decode_resized_rows(buffer, size) {
        None => Err(IconError::UndecodableImage),
        Some(rows) => {
            let lines = glyph_lines(&rows);
            proof {
                let grid = rows.deep_view();
                assert(lines.deep_view() == glyph_lines_spec(grid));
                if size >= 1 {
                    assert(grid.len() <= size);
                    assert(lines.deep_view().len() == ((grid.len() + 1) / 2) as int);
                    assert forall|i: int|
                        0 <= i < lines.deep_view().len() implies #[trigger] lines.deep_view()[i].len()
                        <= size by {
                        if 2 * i + 1 < grid.len() {
                            assert(lines.deep_view()[i] == glyph_row(grid[2 * i], grid[2 * i + 1]));
                            assert(grid[2 * i].len() <= size);
                            assert(grid[2 * i + 1].len() <= size);
                        } else {
                            assert(lines.deep_view()[i] == Seq::<PixelBlock>::empty());
                        }
                    }
                }
            }
            Ok(lines)
        },
    }
}

/// Renders a raw favicon payload for the given terminal size, after
/// `lines_len` text lines are already on screen: the data-URI prefix is
/// stripped, the base64 text decoded, the render size computed with the
/// fixed column margin, and the resized raster paired into glyph lines.
/// Each error names exactly the first stage that failed, and a success is
/// exactly the pairing of the decoded, resized grid.
pub fn favicon_glyphs(favicon: &str, term: (u16, u16), lines_len: usize) -> (r: Result<
    Vec<Vec<PixelBlock>>,
    IconError,
>)
    requires
        lines_len < 65535,
    ensures
        (r == Err::<Vec<Vec<PixelBlock>>, IconError>(IconError::InvalidBase64)) <==> favicon_bytes(
            favicon@,
        ) is None,
        (r == Err::<Vec<Vec<PixelBlock>>, IconError>(IconError::TermTooSmall)) <==> (favicon_bytes(
            favicon@,
        ) is Some && favicon_render_size(term, lines_len) is None),
        (r == Err::<Vec<Vec<PixelBlock>>, IconError>(IconError::UndecodableImage)) <==> (
        favicon_bytes(favicon@) is Some && favicon_render_size(term, lines_len) is Some
            && image_rows_of(
            favicon_bytes(favicon@)->0,
            favicon_render_size(term, lines_len)->0 as u32,
        ) is None),
        r matches Ok(lines) ==> favicon_bytes(favicon@) is Some && favicon_render_size(
            term,
            lines_len,
        ) is Some && lines.deep_view() == glyph_lines_spec(
            image_rows_of(
                favicon_bytes(favicon@)->0,
                favicon_render_size(term, lines_len)->0 as u32,
            )->0,
        ),
{
    let stripped = strip_icon_prefix(favicon);
    let bytes = match base64_decode(stripped.as_str()) {
        Some(b) => b,
        None => {
            return Err(IconError::InvalidBase64);
        },
    };
    let base1: u16 = (lines_len + 1) as u16;
    let size = match calc_image_size(term, (13, base1)) {
        Some(s) => s,
        None => {
            return Err(IconError::TermTooSmall);
        },
    };
    proof {
        assert(size <= 65535);
        assert(favicon_render_size(term, lines_len) == Some(size as int));
        assert(size as u32 == favicon_render_size(term, lines_len)->0 as u32);
        assert(bytes@ == favicon_bytes(favicon@)->0);
    }
    img2lines(bytes.as_slice(), size as u32)
}

} // verus!
