//! Images on an area.
//!
//! An image reaches an area decoded: a raster of red, green and blue values.
//! On the canvas each of its pixels becomes white or black, by the mean of
//! the three channels.

use vstd::prelude::*;
use crate::area::{Area, AreaView};
use crate::error::RenderError;
use crate::frame::raster_index;
use crate::graphics::{in_rect, lemma_grid_equal, PixelColor};

verus! {

/// One pixel of a decoded image.
#[derive(Copy, Clone, Debug, PartialEq, Eq, Structural)]
pub struct Rgb {
    pub red: u8,
    pub green: u8,
    pub blue: u8,
}

/// The pixel that stands for a colour: white where the mean of the three
/// channels, rounded down, is above 127, and black elsewhere.
pub open spec fn binarized(pixel: Rgb) -> PixelColor {
    if (pixel.red + pixel.green + pixel.blue) / 3 > 127 {
        PixelColor::White
    } else {
        PixelColor::Black
    }
}

impl Rgb {
    /// Computes [`binarized`].
    pub fn binarize(self) -> (color: PixelColor)
        ensures
            color == binarized(self),
    {
        let mean = (self.red as u32 + self.green as u32 + self.blue as u32) / 3;
        if mean > 127 {
            PixelColor::White
        } else {
            PixelColor::Black
        }
    }
}

/// What a raster is: its size and its pixels, row after row.
pub struct RasterView {
    pub width: nat,
    pub height: nat,
    pub pixels: Seq<Rgb>,
}

impl RasterView {
    /// There is one pixel for each place.
    pub open spec fn wf(self) -> bool {
        self.pixels.len() == self.width * self.height
    }

    /// Column `x` of row `y` lies in the raster.
    pub open spec fn contains(self, x: int, y: int) -> bool {
        0 <= x < self.width && 0 <= y < self.height
    }

    /// The pixel at column `x` of row `y`.
    pub open spec fn at(self, x: int, y: int) -> Rgb {
        self.pixels[raster_index(self.width as int, x, y)]
    }
}

/// A decoded image.
#[derive(Debug)]
pub struct Raster {
    width: usize,
    height: usize,
    pixels: Vec<Rgb>,
}

impl View for Raster {
    type V = RasterView;

    closed spec fn view(&self) -> RasterView {
        RasterView { width: self.width as nat, height: self.height as nat, pixels: self.pixels@ }
    }
}

impl Raster {
    /// The invariant of a raster; see [`RasterView::wf`].
    pub open spec fn wf(&self) -> bool {
        self@.wf()
    }

    /// The raster of `width` by `height` pixels that holds `pixels`, row
    /// after row, if there is one pixel for each place.
    pub fn new(width: usize, height: usize, pixels: Vec<Rgb>) -> (raster: Option<Raster>)
        ensures
            raster.is_some() <==> pixels.len() == width * height,
            raster matches Some(r) ==> r.wf() && r@ == (RasterView {
                width: width as nat,
                height: height as nat,
                pixels: pixels@,
            }),
    {
        match width.checked_mul(height) {
            Some(size) => {
                if pixels.len() == size {
                    Some(Raster { width, height, pixels })
                } else {
                    None
                }
            },
            None => None,
        }
    }

    /// The width of the raster, in pixels.
    pub fn width(&self) -> (width: usize)
        ensures
            width == self@.width,
    {
        self.width
    }

    /// The height of the raster, in pixels.
    pub fn height(&self) -> (height: usize)
        ensures
            height == self@.height,
    {
        self.height
    }

    /// The pixel at column `x` of row `y`.
    pub fn pixel(&self, x: usize, y: usize) -> (pixel: Rgb)
        requires
            self.wf(),
            self@.contains(x as int, y as int),
        ensures
            pixel == self@.at(x as int, y as int),
    {
        proof {
            lemma_raster_place(self.width as int, self.height as int, x as int, y as int);
            assert(self.pixels@.len() == self.pixels.len());
        }
        self.pixels[y * self.width + x]
    }
}

/// A place in a raster has an index in the raster.
proof fn lemma_raster_place(width: int, height: int, x: int, y: int)
    requires
        0 <= x < width,
        0 <= y < height,
    ensures
        0 <= y * width <= raster_index(width, x, y) < width * height,
{
    assert(0 <= y * width) by (nonlinear_arith)
        requires
            0 <= y,
            0 <= width,
    ;
    assert(y * width + width <= width * height) by (nonlinear_arith)
        requires
            0 <= y + 1 <= height,
            0 <= width,
    ;
}

impl AreaView {
    /// The raster, put at column `x`, row `y` of the canvas, stays on the
    /// canvas.
    pub open spec fn holds_image(self, x: int, y: int, raster: RasterView) -> bool {
        &&& x + raster.width <= self.canvas.width
        &&& y + raster.height <= self.canvas.height
    }

    /// This area with the first `rows` rows of the raster written to its
    /// canvas at column `x`, row `y`, and the first `columns` pixels of the
    /// row after them.
    pub open spec fn with_image_partly(
        self,
        x: int,
        y: int,
        raster: RasterView,
        rows: int,
        columns: int,
    ) -> AreaView {
        AreaView {
            pixels: Seq::new(
                self.space.height as nat,
                |r: int|
                    Seq::new(
                        self.space.width as nat,
                        |c: int|
                            {
                                let ix = c - self.canvas.x - x;
                                let iy = r - self.canvas.y - y;
                                if raster.contains(ix, iy) && (iy < rows || (iy == rows && ix
                                    < columns)) {
                                    binarized(raster.at(ix, iy))
                                } else {
                                    self.pixels[r][c]
                                }
                            },
                    ),
            ),
            ..self
        }
    }

    /// This area with the whole raster written to its canvas, the raster's
    /// top left corner at column `x`, row `y` of the canvas.
    pub open spec fn with_image(self, x: int, y: int, raster: RasterView) -> AreaView {
        self.with_image_partly(x, y, raster, raster.height as int, 0)
    }
}

/// An image is written to the canvas only: a pixel of the padding or of
/// the outline is after the writing what it was before.
pub proof fn lemma_image_stays_on_canvas(
    area: AreaView,
    x0: int,
    y0: int,
    raster: RasterView,
    x: int,
    y: int,
)
    requires
        area.wf(),
        0 <= x0,
        0 <= y0,
        area.holds_image(x0, y0, raster),
        0 <= x < area.space.width,
        0 <= y < area.space.height,
        !in_rect(area.canvas, x, y),
    ensures
        area.with_image(x0, y0, raster).pixels[y][x] == area.pixels[y][x],
{
}

impl Area {
    /// Writes `image` to the canvas, its top left corner at column `x`, row
    /// `y` of the canvas. Each of its pixels becomes white or black; see
    /// [`binarized`].
    ///
    /// An image that would leave the canvas is refused, and the area stays
    /// as it was.
    pub fn load_image(&mut self, x: usize, y: usize, image: &Raster) -> (result: Result<
        (),
        RenderError,
    >)
        requires
            old(self).wf(),
            image.wf(),
        ensures
            final(self).wf(),
            result.is_ok() <==> old(self)@.holds_image(x as int, y as int, image@),
            result.is_ok() ==> final(self)@ == old(self)@.with_image(x as int, y as int, image@),
            result matches Err(e) ==> e == RenderError::ImageOverflow && final(self)@ == old(self)@,
    {
        let width = image.width();
        let height = image.height();
        let room_x = self.get_available_hspace();
        let room_y = self.get_available_vspace();
        if width > room_x || x > room_x - width || height > room_y || y > room_y - height {
            return Err(RenderError::ImageOverflow);
        }
        let ghost before = self@;
        let ghost raster = image@;
        proof {
            lemma_grid_equal(
                self@.pixels,
                before.with_image_partly(x as int, y as int, raster, 0, 0).pixels,
                before.space.width as int,
                before.space.height as int,
            );
        }
        let mut iy: usize = 0;
        while iy < height
            invariant
                self.wf(),
                image.wf(),
                before.wf(),
                raster == image@,
                width == raster.width,
                height == raster.height,
                before.holds_image(x as int, y as int, raster),
                iy <= height,
                self@ == before.with_image_partly(x as int, y as int, raster, iy as int, 0),
            decreases height - iy,
        {
            let mut ix: usize = 0;
            while ix < width
                invariant
                    self.wf(),
                    image.wf(),
                    before.wf(),
                    raster == image@,
                    width == raster.width,
                    height == raster.height,
                    before.holds_image(x as int, y as int, raster),
                    iy < height,
                    ix <= width,
                    self@ == before.with_image_partly(
                        x as int,
                        y as int,
                        raster,
                        iy as int,
                        ix as int,
                    ),
                decreases width - ix,
            {
                let color = image.pixel(ix, iy).binarize();
                self.set_canvas_pixel(ix + x, iy + y, color);
                proof {
                    lemma_grid_equal(
                        self@.pixels,
                        before.with_image_partly(x as int, y as int, raster, iy as int, ix + 1).pixels,
                        before.space.width as int,
                        before.space.height as int,
                    );
                }
                ix += 1;
            }
            proof {
                lemma_grid_equal(
                    self@.pixels,
                    before.with_image_partly(x as int, y as int, raster, iy + 1, 0).pixels,
                    before.space.width as int,
                    before.space.height as int,
                );
            }
            iy += 1;
        }
        Ok(())
    }
}

} // verus!
