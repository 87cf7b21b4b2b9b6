//! The pixel buffer that holds what has been committed so far, and the
//! per-frame previews made from it.
//!
//! The buffer is row-major RGB, three bytes per pixel. All contracts speak
//! of it as a flat sequence of bytes, where byte `k` belongs to the pixel in
//! column `pixel_x(k, width)` of row `pixel_y(k, width)`.

use vstd::prelude::*;
use vstd::arithmetic::div_mod::lemma_fundamental_div_mod;
use vstd::arithmetic::div_mod::lemma_fundamental_div_mod_converse;
use vstd::arithmetic::div_mod::lemma_mod_pos_bound;
use crate::geometry::first_row;
use crate::geometry::last_row;
use crate::geometry::lemma_bank_fits;
use crate::geometry::lemma_layout_bounds;
use crate::geometry::spec_bank_width;
use crate::geometry::spec_bank_x;
use crate::geometry::spec_canvas_width;
use crate::geometry::spec_first_row;
use crate::geometry::spec_last_row;
use crate::geometry::spec_n_banks_width;
use crate::geometry::valid_bank_count;
use crate::geometry::HEIGHT;
use crate::geometry::SPACER_WIDTH;
use crate::model::Location;
use crate::model::Section;

verus! {

/// Red, green and blue, in that order.
pub type Color = (u8, u8, u8);

/// Colour of the background.
pub open spec fn spec_blank_color() -> Color {
    (255u8, 255u8, 255u8)
}

/// Colour of the separators between banks.
pub open spec fn spec_separator_color() -> Color {
    (0u8, 0u8, 0u8)
}

/// Colour of a committed placement.
pub open spec fn spec_filled_color() -> Color {
    (0u8, 255u8, 0u8)
}

/// Colour of the placement that is being tried.
pub open spec fn spec_overlay_color() -> Color {
    (255u8, 0u8, 0u8)
}

/// Colour of a committed placement.
pub fn filled_color() -> (color: Color)
    ensures
        color == spec_filled_color(),
{
    (0, 255, 0)
}

/// Colour of the placement that is being tried.
pub fn overlay_color() -> (color: Color)
    ensures
        color == spec_overlay_color(),
{
    (255, 0, 0)
}

/// Column of the pixel that byte `k` of a buffer `width` pixels wide belongs to.
pub open spec fn pixel_x(k: int, width: int) -> int {
    (k / 3) % width
}

/// Row of the pixel that byte `k` of a buffer `width` pixels wide belongs to.
pub open spec fn pixel_y(k: int, width: int) -> int {
    (k / 3) / width
}

/// The component of `color` that byte `k` of a buffer holds.
pub open spec fn channel(color: Color, k: int) -> u8 {
    if k % 3 == 0 {
        color.0
    } else if k % 3 == 1 {
        color.1
    } else {
        color.2
    }
}

/// Index of the first byte of the pixel in column `x` of row `y`.
pub open spec fn pixel_index(x: int, y: int, width: int) -> int {
    (x + y * width) * 3
}

/// Whether byte `k` belongs to a pixel in columns `x0 .. x0 + w` of rows
/// `row0 ..= row1`.
pub open spec fn in_rect(k: int, width: int, x0: int, w: int, row0: int, row1: int) -> bool {
    &&& x0 <= pixel_x(k, width) < x0 + w
    &&& row0 <= pixel_y(k, width) <= row1
}

/// `pixels` with the three bytes of one pixel replaced by `color`.
pub open spec fn spec_write_color(pixels: Seq<u8>, x: int, y: int, width: int, color: Color) -> Seq<
    u8,
> {
    pixels.update(pixel_index(x, y, width), color.0).update(
        pixel_index(x, y, width) + 1,
        color.1,
    ).update(pixel_index(x, y, width) + 2, color.2)
}

/// `pixels` with columns `x0 .. x0 + w` of rows `row0 ..= row1` in `color`,
/// and every other byte as it was.
pub open spec fn spec_fill(
    pixels: Seq<u8>,
    width: int,
    x0: int,
    w: int,
    row0: int,
    row1: int,
    color: Color,
) -> Seq<u8> {
    Seq::new(
        pixels.len(),
        |k: int|
            if in_rect(k, width, x0, w, row0, row1) {
                channel(color, k)
            } else {
                pixels[k]
            },
    )
}

/// Whether column `x` lies in a spacer between two banks.
pub open spec fn is_spacer_column(x: int, bank_width: int) -> bool {
    x % (bank_width + 2) >= bank_width
}

/// Number of bytes in the buffer of a canvas of `nb_banks` banks.
pub open spec fn spec_buffer_len(nb_banks: int) -> int {
    spec_canvas_width(nb_banks) * 512 * 3
}

/// The canvas before anything is placed: white, with black spacers between
/// the banks.
pub open spec fn spec_background(nb_banks: int) -> Seq<u8> {
    Seq::new(
        spec_buffer_len(nb_banks) as nat,
        |k: int|
            if is_spacer_column(
                pixel_x(k, spec_canvas_width(nb_banks)),
                spec_bank_width(nb_banks),
            ) {
                channel(spec_separator_color(), k)
            } else {
                channel(spec_blank_color(), k)
            },
    )
}

/// `pixels`, the buffer of a canvas of `nb_banks` banks, with the rectangle
/// of a placement of `nb_bytes` bytes at `location` in `color`.
pub open spec fn spec_paint(
    pixels: Seq<u8>,
    nb_banks: int,
    location: Location,
    nb_bytes: int,
    color: Color,
) -> Seq<u8> {
    spec_fill(
        pixels,
        spec_canvas_width(nb_banks),
        spec_bank_x(location.bank as int, spec_bank_width(nb_banks)),
        spec_bank_width(nb_banks),
        spec_first_row(location.addr as int),
        spec_last_row(location.addr as int, nb_bytes),
        color,
    )
}

/// Whether byte `k` of the buffer of a canvas of `nb_banks` banks lies in the
/// rectangle of a placement of `nb_bytes` bytes at `location`.
pub open spec fn in_placement(k: int, nb_banks: int, location: Location, nb_bytes: int) -> bool {
    in_rect(
        k,
        spec_canvas_width(nb_banks),
        spec_bank_x(location.bank as int, spec_bank_width(nb_banks)),
        spec_bank_width(nb_banks),
        spec_first_row(location.addr as int),
        spec_last_row(location.addr as int, nb_bytes),
    )
}

/// The three bytes of the pixel in column `x` of row `y` are exactly the
/// bytes whose column is `x` and whose row is `y`.
pub proof fn lemma_pixel_bytes(k: int, x: int, y: int, width: int)
    requires
        0 <= x < width,
        0 <= y,
        0 <= k,
    ensures
        (pixel_index(x, y, width) <= k < pixel_index(x, y, width) + 3) <==> (pixel_x(k, width) == x
            && pixel_y(k, width) == y),
{
    let q = k / 3;
    if pixel_index(x, y, width) <= k < pixel_index(x, y, width) + 3 {
        assert(q == x + y * width);
        assert(q == width * y + x) by (nonlinear_arith)
            requires
                q == x + y * width,
        ;
        lemma_fundamental_div_mod_converse(q, width, y, x);
    }
    if pixel_x(k, width) == x && pixel_y(k, width) == y {
        lemma_fundamental_div_mod(q, width);
        assert(q == x + y * width) by (nonlinear_arith)
            requires
                q == width * y + x,
        ;
    }
}

/// Within the stretch of columns that starts at the spacer before bank
/// `bank`, the spacer's columns are those left of the bank.
pub proof fn lemma_spacer_columns(x: int, bank: int, bank_width: int)
    requires
        0 <= bank_width,
        1 <= bank,
        bank * (bank_width + 2) - 2 <= x < (bank + 1) * (bank_width + 2) - 2,
    ensures
        is_spacer_column(x, bank_width) <==> x < bank * (bank_width + 2),
{
    let p = bank_width + 2;
    assert((bank + 1) * p == bank * p + p && (bank - 1) * p == bank * p - p) by (nonlinear_arith);
    if x < bank * p {
        let r = x - (bank - 1) * p;
        assert(x == p * (bank - 1) + r) by (nonlinear_arith)
            requires
                r == x - (bank - 1) * p,
        ;
        lemma_fundamental_div_mod_converse(x, p, bank - 1, r);
    } else {
        let r = x - bank * p;
        assert(x == p * bank + r) by (nonlinear_arith)
            requires
                r == x - bank * p,
        ;
        lemma_fundamental_div_mod_converse(x, p, bank, r);
    }
}

/// The columns of the first bank are no spacer columns.
pub proof fn lemma_first_bank_columns(x: int, bank_width: int)
    requires
        0 <= x < bank_width,
    ensures
        !is_spacer_column(x, bank_width),
{
    lemma_fundamental_div_mod_converse(x, bank_width + 2, 0, x);
}

/// Every byte of a buffer belongs to a pixel on the canvas.
pub proof fn lemma_pixel_on_canvas(k: int, width: int, height: int)
    requires
        0 < width,
        0 <= height,
        0 <= k < width * height * 3,
    ensures
        0 <= pixel_x(k, width) < width,
        0 <= pixel_y(k, width) < height,
{
    let q = k / 3;
    lemma_fundamental_div_mod(q, width);
    lemma_mod_pos_bound(q, width);
    let y = q / width;
    assert(q == width * y + q % width);
    assert(0 <= y < height) by (nonlinear_arith)
        requires
            0 < width,
            0 <= q < width * height,
            q == width * y + q % width,
            0 <= q % width < width,
    ;
}

/// Whether pixel number `p` of a buffer, counted row by row, has the colour
/// of a committed placement.
pub open spec fn is_committed(pixels: Seq<u8>, p: int) -> bool {
    (pixels[3 * p], pixels[3 * p + 1], pixels[3 * p + 2]) == spec_filled_color()
}

/// Whether pixel number `p` of a buffer, counted row by row, is white.
pub open spec fn is_blank(pixels: Seq<u8>, p: int) -> bool {
    (pixels[3 * p], pixels[3 * p + 1], pixels[3 * p + 2]) == spec_blank_color()
}

/// Painting a placement keeps the size of the buffer, gives every byte inside
/// the placement's rectangle its component of the colour, and leaves every
/// byte outside of it as it was.
pub proof fn lemma_paint_bytes(
    pixels: Seq<u8>,
    nb_banks: int,
    location: Location,
    nb_bytes: int,
    color: Color,
    k: int,
)
    requires
        0 <= k < pixels.len(),
    ensures
        spec_paint(pixels, nb_banks, location, nb_bytes, color).len() == pixels.len(),
        in_placement(k, nb_banks, location, nb_bytes) ==> spec_paint(
            pixels,
            nb_banks,
            location,
            nb_bytes,
            color,
        )[k] == channel(color, k),
        !in_placement(k, nb_banks, location, nb_bytes) ==> spec_paint(
            pixels,
            nb_banks,
            location,
            nb_bytes,
            color,
        )[k] == pixels[k],
{
}

/// Two previews made from one canvas both equal that canvas outside their
/// own rectangles: neither of them shows in the other, nor in the canvas.
pub proof fn lemma_overlays_keep_rest(
    pixels: Seq<u8>,
    nb_banks: int,
    first: Location,
    first_bytes: int,
    second: Location,
    second_bytes: int,
    k: int,
)
    requires
        0 <= k < pixels.len(),
    ensures
        !in_placement(k, nb_banks, first, first_bytes) ==> spec_paint(
            pixels,
            nb_banks,
            first,
            first_bytes,
            spec_overlay_color(),
        )[k] == pixels[k],
        !in_placement(k, nb_banks, second, second_bytes) ==> spec_paint(
            pixels,
            nb_banks,
            second,
            second_bytes,
            spec_overlay_color(),
        )[k] == pixels[k],
{
}

/// Committing a placement never takes the committed colour from a pixel:
/// what was green stays green, and so is not white.
pub proof fn lemma_settle_keeps_committed(
    pixels: Seq<u8>,
    nb_banks: int,
    location: Location,
    nb_bytes: int,
    p: int,
)
    requires
        0 <= p,
        3 * p + 2 < pixels.len(),
        is_committed(pixels, p),
    ensures
        is_committed(spec_paint(pixels, nb_banks, location, nb_bytes, spec_filled_color()), p),
        !is_blank(spec_paint(pixels, nb_banks, location, nb_bytes, spec_filled_color()), p),
{
    let after = spec_paint(pixels, nb_banks, location, nb_bytes, spec_filled_color());
    assert((3 * p) / 3 == p && (3 * p + 1) / 3 == p && (3 * p + 2) / 3 == p);
    assert((3 * p) % 3 == 0 && (3 * p + 1) % 3 == 1 && (3 * p + 2) % 3 == 2);
    lemma_paint_bytes(pixels, nb_banks, location, nb_bytes, spec_filled_color(), 3 * p);
    lemma_paint_bytes(pixels, nb_banks, location, nb_bytes, spec_filled_color(), 3 * p + 1);
    lemma_paint_bytes(pixels, nb_banks, location, nb_bytes, spec_filled_color(), 3 * p + 2);
}

/// What a fill has painted when it stands at column `done` of row `y`.
spec fn fill_progress(k: int, width: int, x0: int, w: int, row0: int, y: int, done: int) -> bool {
    ||| in_rect(k, width, x0, w, row0, y - 1)
    ||| (pixel_y(k, width) == y && x0 <= pixel_x(k, width) < x0 + done)
}

/// What has been blackened when `done` columns of the spacer before bank
/// `bank` are through in row `y`.
spec fn separator_progress(
    k: int,
    width: int,
    bank_width: int,
    y: int,
    bank: int,
    done: int,
) -> bool {
    let edge = bank * (bank_width + 2);
    &&& is_spacer_column(pixel_x(k, width), bank_width)
    &&& {
        ||| pixel_y(k, width) < y
        ||| (pixel_y(k, width) == y && pixel_x(k, width) < edge - 2)
        ||| (pixel_y(k, width) == y && edge - done <= pixel_x(k, width) < edge)
    }
}

/// The pixel buffer of what has been committed so far.
#[derive(Debug)]
pub struct Canvas {
    bank_width: u32,
    nb_banks: u32,
    pixels: Vec<u8>,
}

impl View for Canvas {
    type V = Seq<u8>;

    closed spec fn view(&self) -> Seq<u8> {
        self.pixels@
    }
}

impl Canvas {
    /// Number of banks that the canvas was laid out for.
    pub closed spec fn spec_nb_banks(&self) -> int {
        self.nb_banks as int
    }

    /// Width of one bank on the canvas, in pixels.
    pub closed spec fn spec_bank_width(&self) -> int {
        self.bank_width as int
    }

    /// The canvas has the layout and the buffer size of its bank count.
    pub closed spec fn wf(&self) -> bool {
        &&& valid_bank_count(self.nb_banks as int)
        &&& self.bank_width == spec_bank_width(self.nb_banks as int)
        &&& self.pixels@.len() == spec_buffer_len(self.nb_banks as int)
    }

    /// A well-formed canvas has as many bytes as its layout asks for.
    pub proof fn lemma_wf_len(&self)
        requires
            self.wf(),
        ensures
            valid_bank_count(self.spec_nb_banks()),
            self.spec_bank_width() == spec_bank_width(self.spec_nb_banks()),
            self@.len() == spec_buffer_len(self.spec_nb_banks()),
    {
    }

    /// Sets the pixel in column `x` of row `y` of a buffer `width` pixels
    /// wide to `color`.
    pub fn write_color(pixels: &mut Vec<u8>, x: u32, y: u32, width: u32, color: Color)
        requires
            pixel_index(x as int, y as int, width as int) + 2 < old(pixels)@.len(),
        ensures
            final(pixels)@ == spec_write_color(
                old(pixels)@,
                x as int,
                y as int,
                width as int,
                color,
            ),
    {
        let len: usize = pixels.len();
        assert(0 <= y * width) by (nonlinear_arith)
            requires
                0 <= y,
                0 <= width,
        ;
        assert((x + y * width) * 3 + 2 < len);
        let offset: usize = y as usize * width as usize;
        let idx: usize = (x as usize + offset) * 3;
        pixels.set(idx, color.0);
        pixels.set(idx + 1, color.1);
        pixels.set(idx + 2, color.2);
    }

    /// Fills the rectangle of a placement of `nb_bytes` bytes at `location`
    /// with `color`, in a buffer `width` pixels wide whose banks are
    /// `bank_width` pixels wide.
    pub fn draw_rect(
        pixels: &mut Vec<u8>,
        location: &Location,
        nb_bytes: u32,
        width: u32,
        bank_width: u32,
        color: Color,
    )
        requires
            nb_bytes >= 1,
            spec_bank_x(location.bank as int, bank_width as int) + bank_width <= width,
            old(pixels)@.len() >= width * 512 * 3,
        ensures
            final(pixels)@ == spec_fill(
                old(pixels)@,
                width as int,
                spec_bank_x(location.bank as int, bank_width as int),
                bank_width as int,
                spec_first_row(location.addr as int),
                spec_last_row(location.addr as int, nb_bytes as int),
                color,
            ),
    {
        let ghost before = pixels@;
        let ghost gx = spec_bank_x(location.bank as int, bank_width as int);
        assert(0 <= gx) by (nonlinear_arith)
            requires
                gx == location.bank * (bank_width + 2),
        ;
        let x: u32 = (location.bank as u64 * (bank_width as u64 + 2)) as u32;
        let first_byte_row: u32 = first_row(location.addr);
        let last_byte_row: u32 = last_row(location.addr, nb_bytes);

        let mut y: u32 = first_byte_row;
        while y <= last_byte_row
            invariant
                first_byte_row <= y <= last_byte_row + 1,
                last_byte_row <= 511,
                x == gx,
                x + bank_width <= width,
                pixels@.len() == before.len(),
                before.len() >= width * 512 * 3,
                forall|k: int|
                    0 <= k < before.len() ==> #[trigger] pixels@[k] == if in_rect(
                        k,
                        width as int,
                        x as int,
                        bank_width as int,
                        first_byte_row as int,
                        y - 1,
                    ) {
                        channel(color, k)
                    } else {
                        before[k]
                    },
            decreases last_byte_row + 1 - y,
        {
            let mut x_ofs: u32 = 0;
            while x_ofs < bank_width
                invariant
                    first_byte_row <= y <= last_byte_row <= 511,
                    x_ofs <= bank_width,
                    x + bank_width <= width,
                    pixels@.len() == before.len(),
                    before.len() >= width * 512 * 3,
                    forall|k: int|
                        0 <= k < before.len() ==> #[trigger] pixels@[k] == if fill_progress(
                            k,
                            width as int,
                            x as int,
                            bank_width as int,
                            first_byte_row as int,
                            y as int,
                            x_ofs as int,
                        ) {
                            channel(color, k)
                        } else {
                            before[k]
                        },
                decreases bank_width - x_ofs,
            {
                let ghost prev = pixels@;
                let ghost col = x + x_ofs;
                assert(0 <= pixel_index(col, y as int, width as int) && pixel_index(
                    col,
                    y as int,
                    width as int,
                ) + 2 < width * 512 * 3) by (nonlinear_arith)
                    requires
                        0 <= col < width,
                        0 <= y <= 511,
                ;
                Self::write_color(pixels, x + x_ofs, y, width, color);
                assert forall|k: int| 0 <= k < before.len() implies #[trigger] pixels@[k]
                    == if fill_progress(
                    k,
                    width as int,
                    x as int,
                    bank_width as int,
                    first_byte_row as int,
                    y as int,
                    x_ofs + 1,
                ) {
                    channel(color, k)
                } else {
                    before[k]
                } by {
                    lemma_pixel_bytes(k, col, y as int, width as int);
                }
                x_ofs += 1;
            }
            y += 1;
        }
        assert(pixels@ =~= spec_fill(
            before,
            width as int,
            gx,
            bank_width as int,
            spec_first_row(location.addr as int),
            spec_last_row(location.addr as int, nb_bytes as int),
            color,
        ));
    }

    /// A blank canvas for `nb_banks` banks: white, with the spacers between
    /// the banks in black.
    pub fn new(nb_banks: u32) -> (canvas: Self)
        requires
            valid_bank_count(nb_banks as int),
        ensures
            canvas.wf(),
            canvas.spec_nb_banks() == nb_banks,
            canvas.spec_bank_width() == spec_bank_width(nb_banks as int),
            canvas@ == spec_background(nb_banks as int),
    {
        proof {
            lemma_layout_bounds(nb_banks as int);
        }
        // The width has to be even, so the share of each bank is rounded down.
        let bank_width: u32 = crate::geometry::bank_width(nb_banks);
        let width: u32 = Self::n_banks_width(bank_width, nb_banks);
        let len: u32 = width * HEIGHT * 3;
        // The canvas is white by default.
        let mut pixels: Vec<u8> = vec![255u8; len as usize];
        let ghost pitch = bank_width + 2;

        // Draw the columns between the banks.
        let mut y: u32 = 0;
        while y < HEIGHT
            invariant
                valid_bank_count(nb_banks as int),
                bank_width == spec_bank_width(nb_banks as int),
                width == spec_canvas_width(nb_banks as int),
                width == pitch * nb_banks - 2,
                pitch == bank_width + 2,
                2 <= width <= 1022,
                y <= 512,
                pixels@.len() == width * 512 * 3,
                forall|k: int|
                    0 <= k < pixels@.len() ==> #[trigger] pixels@[k] == if is_spacer_column(
                        pixel_x(k, width as int),
                        bank_width as int,
                    ) && pixel_y(k, width as int) < y {
                        0u8
                    } else {
                        255u8
                    },
            decreases 512 - y,
        {
            assert forall|k: int| 0 <= k < pixels@.len() implies #[trigger] pixels@[k]
                == if separator_progress(k, width as int, bank_width as int, y as int, 1, 0) {
                0u8
            } else {
                255u8
            } by {
                lemma_pixel_on_canvas(k, width as int, 512);
                if pixel_x(k, width as int) < bank_width {
                    lemma_first_bank_columns(pixel_x(k, width as int), bank_width as int);
                }
            }
            let mut bank: u32 = 1;
            while bank < nb_banks
                invariant
                    valid_bank_count(nb_banks as int),
                    width == pitch * nb_banks - 2,
                    pitch == bank_width + 2,
                    2 <= width <= 1022,
                    y < 512,
                    1 <= bank,
                    bank <= nb_banks || nb_banks == 1,
                    pixels@.len() == width * 512 * 3,
                    forall|k: int|
                        0 <= k < pixels@.len() ==> #[trigger] pixels@[k] == if separator_progress(
                            k,
                            width as int,
                            bank_width as int,
                            y as int,
                            bank as int,
                            0,
                        ) {
                            0u8
                        } else {
                            255u8
                        },
                decreases nb_banks - bank,
            {
                assert(pitch <= bank * pitch && bank * pitch + pitch <= pitch * nb_banks && 0
                    <= bank * pitch) by (nonlinear_arith)
                    requires
                        1 <= bank < nb_banks,
                        2 <= pitch,
                ;
                let edge: u32 = bank * (bank_width + SPACER_WIDTH);
                let mut xofs: u32 = 1;
                while xofs <= SPACER_WIDTH
                    invariant
                        width == pitch * nb_banks - 2,
                        pitch == bank_width + 2,
                        2 <= width <= 1022,
                        y < 512,
                        1 <= bank < nb_banks,
                        edge == bank * pitch,
                        2 <= edge <= width,
                        1 <= xofs <= 3,
                        pixels@.len() == width * 512 * 3,
                        forall|k: int|
                            0 <= k < pixels@.len() ==> #[trigger] pixels@[k]
                                == if separator_progress(
                                k,
                                width as int,
                                bank_width as int,
                                y as int,
                                bank as int,
                                xofs - 1,
                            ) {
                                0u8
                            } else {
                                255u8
                            },
                    decreases 3 - xofs,
                {
                    let ghost col = edge - xofs;
                    assert(0 <= pixel_index(col, y as int, width as int) && pixel_index(
                        col,
                        y as int,
                        width as int,
                    ) + 2 < width * 512 * 3) by (nonlinear_arith)
                        requires
                            0 <= col < width,
                            0 <= y <= 511,
                    ;
                    Self::write_color(&mut pixels, edge - xofs, y, width, (0, 0, 0));
                    assert forall|k: int| 0 <= k < pixels@.len() implies #[trigger] pixels@[k]
                        == if separator_progress(
                        k,
                        width as int,
                        bank_width as int,
                        y as int,
                        bank as int,
                        xofs as int,
                    ) {
                        0u8
                    } else {
                        255u8
                    } by {
                        lemma_pixel_bytes(k, col, y as int, width as int);
                        assert((bank + 1) * pitch == bank * pitch + pitch) by (nonlinear_arith);
                        lemma_spacer_columns(col, bank as int, bank_width as int);
                    }
                    xofs += 1;
                }
                assert forall|k: int| 0 <= k < pixels@.len() implies #[trigger] pixels@[k]
                    == if separator_progress(
                    k,
                    width as int,
                    bank_width as int,
                    y as int,
                    bank + 1,
                    0,
                ) {
                    0u8
                } else {
                    255u8
                } by {
                    lemma_pixel_on_canvas(k, width as int, 512);
                    let px = pixel_x(k, width as int);
                    assert((bank + 1) * pitch == bank * pitch + pitch) by (nonlinear_arith);
                    if bank * pitch - 2 <= px < (bank + 1) * pitch - 2 {
                        lemma_spacer_columns(px, bank as int, bank_width as int);
                    }
                }
                bank += 1;
            }
            assert forall|k: int| 0 <= k < pixels@.len() implies #[trigger] pixels@[k]
                == if is_spacer_column(pixel_x(k, width as int), bank_width as int) && pixel_y(
                k,
                width as int,
            ) < y + 1 {
                0u8
            } else {
                255u8
            } by {
                lemma_pixel_on_canvas(k, width as int, 512);
                let px = pixel_x(k, width as int);
                if nb_banks == 1 {
                    lemma_first_bank_columns(px, bank_width as int);
                } else {
                    assert(bank * pitch == pitch * nb_banks) by (nonlinear_arith)
                        requires
                            bank == nb_banks,
                    ;
                }
            }
            y += 1;
        }
        assert forall|k: int| 0 <= k < pixels@.len() implies pixels@[k] == spec_background(
            nb_banks as int,
        )[k] by {
            lemma_pixel_on_canvas(k, width as int, 512);
        }
        assert(pixels@ =~= spec_background(nb_banks as int));
        Canvas { bank_width, nb_banks, pixels }
    }

    /// Width of `nb_banks` banks of `bank_width` pixels, spacers included.
    pub fn n_banks_width(bank_width: u32, nb_banks: u32) -> (width: u32)
        requires
            nb_banks >= 1,
            (bank_width + 2) * nb_banks <= u32::MAX,
        ensures
            width == spec_n_banks_width(bank_width as int, nb_banks as int),
    {
        assert((bank_width + 2) * nb_banks >= bank_width + 2) by (nonlinear_arith)
            requires
                nb_banks >= 1,
        ;
        (bank_width + SPACER_WIDTH) * nb_banks - SPACER_WIDTH
    }

    /// Width of the canvas, in pixels.
    pub fn width(&self) -> (width: u32)
        requires
            self.wf(),
        ensures
            width == spec_canvas_width(self.spec_nb_banks()),
    {
        proof {
            lemma_layout_bounds(self.nb_banks as int);
        }
        Self::n_banks_width(self.bank_width, self.nb_banks)
    }

    /// Height of the canvas, in pixels.
    pub fn height(&self) -> (height: u32)
        ensures
            height == 512,
    {
        HEIGHT
    }

    /// Commits the placement of `section` at `location`: its rectangle
    /// becomes green in the permanent buffer.
    pub fn settle(&mut self, section: &Section, location: &Location)
        requires
            old(self).wf(),
            section.size >= 1,
            location.bank < old(self).spec_nb_banks(),
        ensures
            final(self).wf(),
            final(self).spec_nb_banks() == old(self).spec_nb_banks(),
            final(self).spec_bank_width() == old(self).spec_bank_width(),
            final(self)@ == spec_paint(
                old(self)@,
                old(self).spec_nb_banks(),
                *location,
                section.size as int,
                spec_filled_color(),
            ),
    {
        let width: u32 = self.width();
        let bank_width: u32 = self.bank_width;
        proof {
            lemma_layout_bounds(self.nb_banks as int);
            lemma_bank_fits(location.bank as int, self.nb_banks as int, bank_width as int);
        }
        Self::draw_rect(
            &mut self.pixels,
            location,
            section.size as u32,
            width,
            bank_width,
            filled_color(),
        );
    }

    /// A copy of the permanent buffer with the placement of `section` at
    /// `location` in red. The permanent buffer stays as it is.
    pub fn overlay(&self, section: &Section, location: &Location) -> (pixels: Vec<u8>)
        requires
            self.wf(),
            section.size >= 1,
            location.bank < self.spec_nb_banks(),
        ensures
            pixels@ == spec_paint(
                self@,
                self.spec_nb_banks(),
                *location,
                section.size as int,
                spec_overlay_color(),
            ),
    {
        let mut pixels: Vec<u8> = self.pixels.clone();
        assert(pixels@ =~= self.pixels@);
        let width: u32 = self.width();
        let bank_width: u32 = self.bank_width;
        proof {
            lemma_layout_bounds(self.nb_banks as int);
            lemma_bank_fits(location.bank as int, self.nb_banks as int, bank_width as int);
        }
        Self::draw_rect(
            &mut pixels,
            location,
            section.size as u32,
            width,
            bank_width,
            overlay_color(),
        );
        pixels
    }

    /// Width of one bank on the canvas, in pixels.
    pub fn bank_width(&self) -> (bank_width: u32)
        ensures
            bank_width == self.spec_bank_width(),
    {
        self.bank_width
    }

    /// Number of banks that the canvas was laid out for.
    pub fn nb_banks(&self) -> (nb_banks: u32)
        ensures
            nb_banks == self.spec_nb_banks(),
    {
        self.nb_banks
    }

    /// The committed pixels.
    pub fn pixels(&self) -> (pixels: &Vec<u8>)
        ensures
            pixels@ == self@,
    {
        &self.pixels
    }
}

} // verus!
