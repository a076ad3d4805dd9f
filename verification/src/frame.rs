//! The packed one-bit frame.
//!
//! A frame stores one bit per pixel, row after row. Within a byte the
//! leftmost pixel is the most significant bit; a set bit is a white pixel.
//! Every row starts on a byte boundary, so a row of `width` pixels takes
//! `(width + 7) / 8` bytes. The bits of a row's last byte that lie beyond the
//! row's last pixel are always set.
//!
//! For a width that is a multiple of eight nothing is padded: the byte of
//! pixel `(x, y)` is then `(y * width + x) / 8` and the frame takes
//! `width * height / 8` bytes (see [`lemma_byte_index_unpadded`]).

use vstd::prelude::*;
use crate::error::RenderError;
use crate::graphics::{grid_has_size, grid_with, Grid, PixelColor};

verus! {

/// Width of the display, in pixels.
pub const EPD_WIDTH: usize = 800;

/// Height of the display, in pixels.
pub const EPD_HEIGHT: usize = 480;

/// The number of bytes that hold one packed row of `width` pixels.
pub open spec fn row_bytes(width: int) -> int {
    (width + 7) / 8
}

/// The index of the byte that holds pixel `(x, y)` in rows of `width` pixels.
pub open spec fn byte_index(width: int, x: int, y: int) -> int {
    y * row_bytes(width) + x / 8
}

/// The bit that holds column `x` within its byte; bit 7 is the most
/// significant one.
pub open spec fn bit_index(x: int) -> int {
    7 - x % 8
}

/// Bit `bit` of `byte` is set.
pub open spec fn bit_set(byte: u8, bit: int) -> bool {
    0 <= bit < 8 && (byte >> (bit as u8)) & 1 == 1
}

/// The pixel that `bytes` hold for column `x` of row `y`.
pub open spec fn packed_pixel(bytes: Seq<u8>, width: int, x: int, y: int) -> PixelColor {
    if bit_set(bytes[byte_index(width, x, y)], bit_index(x)) {
        PixelColor::White
    } else {
        PixelColor::Black
    }
}

/// The pixels that packed `bytes` hold.
pub open spec fn unpack(bytes: Seq<u8>, width: int, height: int) -> Grid {
    Seq::new(
        height as nat,
        |y: int| Seq::new(width as nat, |x: int| packed_pixel(bytes, width, x, y)),
    )
}

/// `bytes` is the packed form of the `width` by `height` pixels of `grid`:
/// it has the right length, holds every pixel, and its padding bits are set.
/// There is exactly one such byte sequence (see [`lemma_packed_unique`]).
pub open spec fn is_packed(bytes: Seq<u8>, grid: Grid, width: int, height: int) -> bool {
    &&& bytes.len() == row_bytes(width) * height
    &&& forall|x: int, y: int|
        0 <= x < width && 0 <= y < height ==> #[trigger] packed_pixel(bytes, width, x, y)
            == grid[y][x]
    &&& forall|x: int, y: int|
        width <= x < 8 * row_bytes(width) && 0 <= y < height ==> #[trigger] packed_pixel(
            bytes,
            width,
            x,
            y,
        ) == PixelColor::White
}

/// The `width` by `height` pixels of `grid` whose top left corner is `(x, y)`.
pub open spec fn grid_region(grid: Grid, x: int, y: int, width: int, height: int) -> Grid {
    Seq::new(height as nat, |dy: int| Seq::new(width as nat, |dx: int| grid[y + dy][x + dx]))
}

/// The place of pixel `(x, y)` in a raster that holds one value per pixel,
/// row after row.
pub open spec fn raster_index(width: int, x: int, y: int) -> int {
    y * width + x
}

/// The luminance that a visual raster shows for a pixel.
pub open spec fn luma_of(color: PixelColor) -> u8 {
    match color {
        PixelColor::White => 0xFF,
        PixelColor::Black => 0x00,
    }
}

/// What a frame is: its size and its pixels, row by row.
pub struct FrameView {
    pub width: nat,
    pub height: nat,
    pub pixels: Grid,
}

impl FrameView {
    /// The grid has the frame's size.
    pub open spec fn wf(self) -> bool {
        grid_has_size(self.pixels, self.width as int, self.height as int)
    }

    /// The frame of the given size whose pixels are all white.
    pub open spec fn blank(width: nat, height: nat) -> FrameView {
        FrameView {
            width,
            height,
            pixels: Seq::new(height, |y: int| Seq::new(width, |x: int| PixelColor::White)),
        }
    }

    /// Pixel `(x, y)` lies in the frame.
    pub open spec fn contains(self, x: int, y: int) -> bool {
        0 <= x < self.width && 0 <= y < self.height
    }

    /// This frame with pixel `(x, y)` replaced.
    pub open spec fn with_pixel(self, x: int, y: int, color: PixelColor) -> FrameView {
        FrameView { pixels: grid_with(self.pixels, x, y, color), ..self }
    }
}

/// A frame for the display: `width` by `height` pixels of one bit each.
/// Its size never changes.
#[derive(Debug)]
pub struct EpdImage {
    width: usize,
    height: usize,
    // one bit per pixel, rows padded to whole bytes
    data: Vec<u8>,
}

impl View for EpdImage {
    type V = FrameView;

    closed spec fn view(&self) -> FrameView {
        FrameView {
            width: self.width as nat,
            height: self.height as nat,
            pixels: unpack(self.data@, self.width as int, self.height as int),
        }
    }
}

/// The number of bytes that hold one packed row of `width` pixels.
pub fn packed_row_len(width: usize) -> (len: usize)
    ensures
        len == row_bytes(width as int),
{
    if width % 8 == 0 {
        width / 8
    } else {
        width / 8 + 1
    }
}

/// The pixel that packed `bytes` hold for column `x` of row `y`, where a row
/// has `width` pixels.
pub fn unpack_pixel(bytes: &Vec<u8>, width: usize, x: usize, y: usize) -> (color: PixelColor)
    requires
        x < width,
        byte_index(width as int, x as int, y as int) < bytes.len(),
    ensures
        color == packed_pixel(bytes@, width as int, x as int, y as int),
{
    let stride = packed_row_len(width);
    assert(y * stride <= y * stride + x / 8);
    assert(0 <= y * stride) by (nonlinear_arith)
        requires
            0 <= y,
            0 <= stride,
    ;
    let byte = bytes[y * stride + x / 8];
    let shift: u8 = 7 - (x % 8) as u8;
    if (byte >> shift) & 1 == 1 {
        PixelColor::White
    } else {
        PixelColor::Black
    }
}

/// Stores `color` for column `x` of row `y` in packed rows of `width`
/// pixels. No other bit changes.
fn pack_pixel(
    data: &mut Vec<u8>,
    width: usize,
    height: usize,
    x: usize,
    y: usize,
    color: PixelColor,
)
    requires
        old(data).len() == row_bytes(width as int) * height,
        x < width,
        y < height,
    ensures
        final(data).len() == old(data).len(),
        forall|x2: int, y2: int|
            0 <= x2 < 8 * row_bytes(width as int) && 0 <= y2 < height ==> #[trigger] packed_pixel(
                final(data)@,
                width as int,
                x2,
                y2,
            ) == (if x2 == x && y2 == y {
                color
            } else {
                packed_pixel(old(data)@, width as int, x2, y2)
            }),
{
    let stride = packed_row_len(width);
    proof {
        lemma_byte_in_rows(stride as int, height as int, x as int / 8, y as int);
        assert(0 <= y * stride) by (nonlinear_arith)
            requires
                0 <= y,
                0 <= stride,
        ;
    }
    let index = y * stride + x / 8;
    let bit: u8 = 7 - (x % 8) as u8;
    let byte = data[index];
    match color {
        PixelColor::White => {
            data[index] = byte | (1u8 << bit);
        },
        PixelColor::Black => {
            data[index] = byte & !(1u8 << bit);
        },
    }
    proof {
        assert forall|x2: int, y2: int|
            0 <= x2 < 8 * stride && 0 <= y2 < height implies #[trigger] packed_pixel(
            data@,
            width as int,
            x2,
            y2,
        ) == (if x2 == x && y2 == y {
            color
        } else {
            packed_pixel(old(data)@, width as int, x2, y2)
        }) by {
            lemma_byte_in_rows(stride as int, height as int, x2 / 8, y2);
            if byte_index(width as int, x2, y2) == index {
                lemma_byte_row_unique(stride as int, x2 / 8, y2, x as int / 8, y as int);
                lemma_set_bit(byte, bit, (7 - x2 % 8) as u8);
                lemma_clear_bit(byte, bit, (7 - x2 % 8) as u8);
            }
        }
    }
}

impl EpdImage {
    /// The bytes are the packed form of the pixels.
    pub closed spec fn packed(&self) -> bool {
        is_packed(self.data@, self@.pixels, self.width as int, self.height as int)
    }

    /// The invariant of a frame. Every frame that this module hands out has
    /// it, and every operation keeps it.
    pub open spec fn wf(&self) -> bool {
        &&& self@.wf()
        &&& self.packed()
    }

    /// A frame of `width` by `height` white pixels.
    pub fn new(width: usize, height: usize) -> (image: EpdImage)
        requires
            row_bytes(width as int) * height <= usize::MAX,
        ensures
            image.wf(),
            image@ == FrameView::blank(width as nat, height as nat),
    {
        let stride = packed_row_len(width);
        let size = stride * height;
        let data = vec![0xFFu8; size];
        let image = EpdImage { width, height, data };
        proof {
            assert forall|x: int, y: int|
                0 <= x < 8 * stride && 0 <= y < height implies #[trigger] packed_pixel(
                image.data@,
                width as int,
                x,
                y,
            ) == PixelColor::White by {
                lemma_byte_in_rows(stride as int, height as int, x / 8, y);
                lemma_all_bits_set((7 - x % 8) as u8);
            }
            assert forall|y: int| 0 <= y < height implies #[trigger] image@.pixels[y]
                =~= FrameView::blank(width as nat, height as nat).pixels[y] by {}
            assert(image@.pixels =~= FrameView::blank(width as nat, height as nat).pixels);
        }
        image
    }

    /// The frame that `bytes` hold in packed form, if `bytes` has the length
    /// of a packed frame of that size. Padding bits are taken as set, whatever
    /// `bytes` holds for them.
    pub fn from_packed(width: usize, height: usize, bytes: Vec<u8>) -> (image: Option<EpdImage>)
        ensures
            image.is_some() <==> bytes.len() == row_bytes(width as int) * height,
            image matches Some(frame) ==> {
                &&& frame.wf()
                &&& frame@.width == width
                &&& frame@.height == height
                &&& frame@.pixels == unpack(bytes@, width as int, height as int)
            },
    {
        let stride = packed_row_len(width);
        match stride.checked_mul(height) {
            Some(size) => {
                if bytes.len() != size {
                    return None;
                }
            },
            None => {
                return None;
            },
        }
        let mut data = bytes;
        let tail = width % 8;
        if tail != 0 {
            let mask: u8 = 0xFFu8 >> (tail as u8);
            let mut y: usize = 0;
            while y < height
                invariant
                    y <= height,
                    stride == row_bytes(width as int),
                    tail == width % 8,
                    tail != 0,
                    mask == 0xFFu8 >> (tail as u8),
                    data.len() == stride * height,
                    forall|x: int, r: int|
                        0 <= x < width && 0 <= r < height ==> #[trigger] packed_pixel(
                            data@,
                            width as int,
                            x,
                            r,
                        ) == packed_pixel(bytes@, width as int, x, r),
                    forall|x: int, r: int|
                        width <= x < 8 * stride && 0 <= r < y ==> #[trigger] packed_pixel(
                            data@,
                            width as int,
                            x,
                            r,
                        ) == PixelColor::White,
                decreases height - y,
            {
                proof {
                    lemma_byte_in_rows(stride as int, height as int, stride - 1, y as int);
                }
                let last = y * stride + (stride - 1);
                let ghost before = data@;
                let byte = data[last];
                data[last] = byte | mask;
                proof {
                    assert forall|x: int, r: int|
                        0 <= x < 8 * stride && 0 <= r < height implies #[trigger] packed_pixel(
                        data@,
                        width as int,
                        x,
                        r,
                    ) == (if r == y && width <= x {
                        PixelColor::White
                    } else {
                        packed_pixel(before, width as int, x, r)
                    }) by {
                        lemma_byte_in_rows(stride as int, height as int, x / 8, r);
                        if byte_index(width as int, x, r) == last {
                            lemma_byte_row_unique(stride as int, x / 8, r, stride - 1, y as int);
                            lemma_or_low_mask(byte, tail as u8, (7 - x % 8) as u8);
                        }
                    }
                }
                y += 1;
            }
        }
        let image = EpdImage { width, height, data };
        proof {
            assert forall|y: int| 0 <= y < height implies #[trigger] image@.pixels[y] =~= unpack(
                bytes@,
                width as int,
                height as int,
            )[y] by {}
            assert(image@.pixels =~= unpack(bytes@, width as int, height as int));
        }
        Some(image)
    }

    /// The width of the frame, in pixels.
    pub fn width(&self) -> (width: usize)
        ensures
            width == self@.width,
    {
        self.width
    }

    /// The height of the frame, in pixels.
    pub fn height(&self) -> (height: usize)
        ensures
            height == self@.height,
    {
        self.height
    }

    /// Sets pixel `(x, y)`. No other pixel changes.
    pub fn set_pixel(&mut self, x: usize, y: usize, color: PixelColor)
        requires
            old(self).wf(),
            old(self)@.contains(x as int, y as int),
        ensures
            final(self).wf(),
            final(self)@ == old(self)@.with_pixel(x as int, y as int, color),
    {
        pack_pixel(&mut self.data, self.width, self.height, x, y, color);
        proof {
            lemma_row_bytes(self.width as int);
            let target = old(self)@.with_pixel(x as int, y as int, color);
            assert forall|y2: int| 0 <= y2 < self.height implies #[trigger] self@.pixels[y2]
                =~= target.pixels[y2] by {}
            assert(self@.pixels =~= target.pixels);
        }
    }

    /// The colour of pixel `(x, y)`.
    pub fn get_pixel(&self, x: usize, y: usize) -> (color: PixelColor)
        requires
            self.wf(),
            self@.contains(x as int, y as int),
        ensures
            color == self@.pixels[y as int][x as int],
    {
        proof {
            lemma_byte_in_rows(
                row_bytes(self.width as int),
                self.height as int,
                x as int / 8,
                y as int,
            );
        }
        unpack_pixel(&self.data, self.width, x, y)
    }

    /// The frame in packed form.
    pub fn serialize_full(&self) -> (bytes: Vec<u8>)
        requires
            self.wf(),
        ensures
            is_packed(bytes@, self@.pixels, self@.width as int, self@.height as int),
    {
        let bytes = self.data.clone();
        assert(bytes@ =~= self.data@);
        bytes
    }

    /// The `width` by `height` pixels whose top left corner is `(x, y)`, in
    /// packed form. The rows of the result are as long as the rectangle is
    /// wide, not as the frame is: a row takes `(width + 7) / 8` bytes.
    ///
    /// A rectangle that does not lie in the frame is refused.
    pub fn serialize_region(&self, x: usize, y: usize, width: usize, height: usize) -> (result:
        Result<Vec<u8>, RenderError>)
        requires
            self.wf(),
        ensures
            result.is_ok() <==> x + width <= self@.width && y + height <= self@.height,
            result matches Ok(bytes) ==> is_packed(
                bytes@,
                grid_region(self@.pixels, x as int, y as int, width as int, height as int),
                width as int,
                height as int,
            ),
            result matches Err(e) ==> e == RenderError::BufferBounds,
    {
        if width > self.width || x > self.width - width || height > self.height || y > self.height
            - height {
            return Err(RenderError::BufferBounds);
        }
        let stride = packed_row_len(width);
        proof {
            assert(self.data@.len() == self.data.len());
            assert(stride * height <= row_bytes(self.width as int) * self.height)
                by (nonlinear_arith)
                requires
                    0 <= stride <= row_bytes(self.width as int),
                    0 <= height <= self.height,
            ;
        }
        let mut bytes = vec![0xFFu8; stride * height];
        let ghost region = grid_region(
            self@.pixels,
            x as int,
            y as int,
            width as int,
            height as int,
        );
        proof {
            assert forall|cx: int, cy: int|
                0 <= cx < 8 * stride && 0 <= cy < height implies #[trigger] packed_pixel(
                bytes@,
                width as int,
                cx,
                cy,
            ) == PixelColor::White by {
                lemma_byte_in_rows(stride as int, height as int, cx / 8, cy);
                lemma_all_bits_set((7 - cx % 8) as u8);
            }
        }
        let mut dy: usize = 0;
        while dy < height
            invariant
                self.wf(),
                dy <= height,
                x + width <= self.width,
                y + height <= self.height,
                stride == row_bytes(width as int),
                bytes.len() == stride * height,
                region == grid_region(
                    self@.pixels,
                    x as int,
                    y as int,
                    width as int,
                    height as int,
                ),
                forall|cx: int, cy: int|
                    0 <= cx < 8 * stride && 0 <= cy < height ==> #[trigger] packed_pixel(
                        bytes@,
                        width as int,
                        cx,
                        cy,
                    ) == (if cx < width && cy < dy {
                        region[cy][cx]
                    } else {
                        PixelColor::White
                    }),
            decreases height - dy,
        {
            let mut dx: usize = 0;
            while dx < width
                invariant
                    self.wf(),
                    dy < height,
                    dx <= width,
                    x + width <= self.width,
                    y + height <= self.height,
                    stride == row_bytes(width as int),
                    bytes.len() == stride * height,
                    region == grid_region(
                        self@.pixels,
                        x as int,
                        y as int,
                        width as int,
                        height as int,
                    ),
                    forall|cx: int, cy: int|
                        0 <= cx < 8 * stride && 0 <= cy < height ==> #[trigger] packed_pixel(
                            bytes@,
                            width as int,
                            cx,
                            cy,
                        ) == (if cx < width && (cy < dy || (cy == dy && cx < dx)) {
                            region[cy][cx]
                        } else {
                            PixelColor::White
                        }),
                decreases width - dx,
            {
                let color = self.get_pixel(x + dx, y + dy);
                pack_pixel(&mut bytes, width, height, dx, dy, color);
                dx += 1;
            }
            dy += 1;
        }
        Ok(bytes)
    }

    /// The frame as a grey raster for viewing: one byte per pixel, row after
    /// row, `0xFF` for a white pixel and `0x00` for a black one.
    pub fn to_raster(&self) -> (raster: Vec<u8>)
        requires
            self.wf(),
            self@.width * self@.height <= usize::MAX,
        ensures
            raster.len() == self@.width * self@.height,
            forall|x: int, y: int|
                self@.contains(x, y) ==> raster[#[trigger] raster_index(self@.width as int, x, y)]
                    == luma_of(self@.pixels[y][x]),
    {
        let width = self.width;
        let height = self.height;
        let mut raster: Vec<u8> = Vec::new();
        let mut y: usize = 0;
        while y < height
            invariant
                self.wf(),
                width == self.width,
                height == self.height,
                y <= height,
                raster.len() == y * width,
                forall|cx: int, cy: int|
                    0 <= cx < width && 0 <= cy < y ==> raster[#[trigger] raster_index(
                        width as int,
                        cx,
                        cy,
                    )] == luma_of(self@.pixels[cy][cx]),
            decreases height - y,
        {
            let mut x: usize = 0;
            while x < width
                invariant
                    self.wf(),
                    width == self.width,
                    height == self.height,
                    y < height,
                    x <= width,
                    raster.len() == y * width + x,
                    forall|cx: int, cy: int|
                        0 <= cx < width && (0 <= cy < y || (cy == y && cx < x)) ==> raster[
                            #[trigger] raster_index(width as int, cx, cy)
                        ] == luma_of(self@.pixels[cy][cx]),
                decreases width - x,
            {
                let luma: u8 = match self.get_pixel(x, y) {
                    PixelColor::White => 0xFF,
                    PixelColor::Black => 0x00,
                };
                let ghost before = raster@;
                raster.push(luma);
                proof {
                    assert forall|cx: int, cy: int|
                        0 <= cx < width && (0 <= cy < y || (cy == y && cx < x + 1)) implies raster[
                            #[trigger] raster_index(width as int, cx, cy)
                        ] == luma_of(self@.pixels[cy][cx]) by {
                        lemma_raster_index(width as int, cx, cy, x as int, y as int);
                    }
                }
                x += 1;
            }
            proof {
                assert((y + 1) * width == y * width + width) by (nonlinear_arith);
            }
            y += 1;
        }
        proof {
            assert(height * width == width * height) by (nonlinear_arith);
        }
        raster
    }
}

proof fn lemma_or_low_mask(byte: u8, tail: u8, j: u8)
    by (bit_vector)
    requires
        0 < tail < 8,
        j < 8,
    ensures
        ((byte | (0xFFu8 >> tail)) >> j) & 1 == 1 <==> (j < 8 - tail || (byte >> j) & 1 == 1),
{
}

proof fn lemma_set_bit(byte: u8, k: u8, j: u8)
    by (bit_vector)
    requires
        k < 8,
        j < 8,
    ensures
        ((byte | (1u8 << k)) >> j) & 1 == 1 <==> (j == k || (byte >> j) & 1 == 1),
{
}

proof fn lemma_clear_bit(byte: u8, k: u8, j: u8)
    by (bit_vector)
    requires
        k < 8,
        j < 8,
    ensures
        ((byte & !(1u8 << k)) >> j) & 1 == 1 <==> (j != k && (byte >> j) & 1 == 1),
{
}

proof fn lemma_all_bits_set(j: u8)
    by (bit_vector)
    requires
        j < 8,
    ensures
        (0xFFu8 >> j) & 1 == 1,
{
}

proof fn lemma_same_bits(a: u8, b: u8)
    by (bit_vector)
    requires
        ((a >> 0u8) & 1 == 1) <==> ((b >> 0u8) & 1 == 1),
        ((a >> 1u8) & 1 == 1) <==> ((b >> 1u8) & 1 == 1),
        ((a >> 2u8) & 1 == 1) <==> ((b >> 2u8) & 1 == 1),
        ((a >> 3u8) & 1 == 1) <==> ((b >> 3u8) & 1 == 1),
        ((a >> 4u8) & 1 == 1) <==> ((b >> 4u8) & 1 == 1),
        ((a >> 5u8) & 1 == 1) <==> ((b >> 5u8) & 1 == 1),
        ((a >> 6u8) & 1 == 1) <==> ((b >> 6u8) & 1 == 1),
        ((a >> 7u8) & 1 == 1) <==> ((b >> 7u8) & 1 == 1),
    ensures
        a == b,
{
}

proof fn lemma_row_bytes(width: int)
    requires
        0 <= width,
    ensures
        row_bytes(width) == width / 8 + (if width % 8 == 0 {
            0int
        } else {
            1int
        }),
        width <= 8 * row_bytes(width) < width + 8,
{
}

/// In a raster, pixels that come earlier in reading order have a smaller
/// index.
proof fn lemma_raster_index(width: int, x1: int, y1: int, x2: int, y2: int)
    requires
        0 <= x1 < width,
        0 <= x2 <= width,
        0 <= y1,
        0 <= y2,
    ensures
        y1 < y2 || (y1 == y2 && x1 < x2) ==> 0 <= raster_index(width, x1, y1) < raster_index(
            width,
            x2,
            y2,
        ),
        y1 == y2 && x1 == x2 ==> raster_index(width, x1, y1) == raster_index(width, x2, y2),
{
    if y1 < y2 {
        assert((y1 + 1) * width <= y2 * width) by (nonlinear_arith)
            requires
                y1 + 1 <= y2,
                0 <= width,
        ;
        assert((y1 + 1) * width == y1 * width + width) by (nonlinear_arith);
    }
    assert(0 <= y1 * width) by (nonlinear_arith)
        requires
            0 <= y1,
            0 <= width,
    ;
}

/// Byte `y * stride + a` lies in a buffer of `height` rows of `stride` bytes.
proof fn lemma_byte_in_rows(stride: int, height: int, a: int, y: int)
    requires
        0 <= a < stride,
        0 <= y < height,
    ensures
        0 <= y * stride + a < stride * height,
{
    assert(y * stride + a < (y + 1) * stride) by (nonlinear_arith)
        requires
            a < stride,
    ;
    assert((y + 1) * stride <= stride * height) by (nonlinear_arith)
        requires
            0 <= y + 1 <= height,
            0 <= stride,
    ;
    assert(0 <= y * stride) by (nonlinear_arith)
        requires
            0 <= y,
            0 <= stride,
    ;
}

/// A byte index tells its row and its place in the row.
proof fn lemma_byte_row_unique(stride: int, a1: int, y1: int, a2: int, y2: int)
    requires
        0 <= a1 < stride,
        0 <= a2 < stride,
        y1 * stride + a1 == y2 * stride + a2,
    ensures
        y1 == y2,
        a1 == a2,
{
    assert(y1 == y2) by (nonlinear_arith)
        requires
            0 <= a1 < stride,
            0 <= a2 < stride,
            y1 * stride + a1 == y2 * stride + a2,
    ;
}

/// Unpacking the packed form of a grid gives the grid back: every pixel
/// survives the round trip.
pub proof fn lemma_pack_unpack(bytes: Seq<u8>, grid: Grid, width: int, height: int)
    requires
        0 <= width,
        0 <= height,
        grid_has_size(grid, width, height),
        is_packed(bytes, grid, width, height),
    ensures
        unpack(bytes, width, height) == grid,
{
    assert forall|y: int| 0 <= y < height implies #[trigger] unpack(bytes, width, height)[y]
        =~= grid[y] by {}
    assert(unpack(bytes, width, height) =~= grid);
}

/// For a width that is a multiple of eight the rows are not padded: the byte
/// of a pixel is its running number divided by eight.
pub proof fn lemma_byte_index_unpadded(width: int, x: int, y: int)
    requires
        0 <= x < width,
        0 <= y,
        width % 8 == 0,
    ensures
        byte_index(width, x, y) == (y * width + x) / 8,
        row_bytes(width) * 8 == width,
{
    let stride = row_bytes(width);
    assert(stride * 8 == width);
    assert(y * width == (y * stride) * 8) by (nonlinear_arith)
        requires
            stride * 8 == width,
    ;
}

/// The packed form of a grid is unique.
pub proof fn lemma_packed_unique(a: Seq<u8>, b: Seq<u8>, grid: Grid, width: int, height: int)
    requires
        0 <= width,
        0 <= height,
        is_packed(a, grid, width, height),
        is_packed(b, grid, width, height),
    ensures
        a == b,
{
    let stride = row_bytes(width);
    assert forall|i: int| 0 <= i < a.len() implies a[i] == b[i] by {
        let y = i / stride;
        let col = i % stride;
        assert(stride > 0) by (nonlinear_arith)
            requires
                0 <= i < stride * height,
                0 <= stride,
        ;
        assert(i == y * stride + col && 0 <= col < stride) by (nonlinear_arith)
            requires
                y == i / stride,
                col == i % stride,
                stride > 0,
        ;
        assert(0 <= y < height) by (nonlinear_arith)
            requires
                0 <= i < stride * height,
                i == y * stride + col,
                0 <= col < stride,
        ;
        assert forall|j: u8| j < 8 implies (((a[i] >> j) & 1 == 1) <==> ((b[i] >> j) & 1 == 1)) by {
            let x = col * 8 + (7 - j);
            assert(byte_index(width, x, y) == i);
            assert(bit_index(x) == j);
            if x < width {
                assert(packed_pixel(a, width, x, y) == grid[y][x]);
                assert(packed_pixel(b, width, x, y) == grid[y][x]);
            } else {
                assert(packed_pixel(a, width, x, y) == PixelColor::White);
                assert(packed_pixel(b, width, x, y) == PixelColor::White);
            }
        }
        lemma_same_bits(a[i], b[i]);
    }
    assert(a =~= b);
}

} // verus!
