//! Pixel values, fill styles and rectangles.

use vstd::prelude::*;

verus! {

/// The value of one stored pixel. A buffer holds nothing else.
#[derive(Copy, Clone, Debug, PartialEq, Eq, Structural)]
pub enum PixelColor {
    White,
    Black,
}

/// How the canvas of an area is filled when the area is made.
///
/// `Gray` is a checkerboard of white and black pixels. It exists only as a
/// fill: there is no gray pixel, and no conversion from a fill to a pixel.
#[derive(Copy, Clone, Debug, PartialEq, Eq, Structural)]
pub enum Color {
    White,
    Black,
    Gray,
}

/// The rows of a pixel buffer, top row first.
pub type Grid = Seq<Seq<PixelColor>>;

/// `grid` has `height` rows of `width` pixels each.
pub open spec fn grid_has_size(grid: Grid, width: int, height: int) -> bool {
    &&& grid.len() == height
    &&& forall|y: int| 0 <= y < height ==> (#[trigger] grid[y]).len() == width
}

/// `grid` with the pixel in column `x` of row `y` replaced.
pub open spec fn grid_with(grid: Grid, x: int, y: int, color: PixelColor) -> Grid {
    grid.update(y, grid[y].update(x, color))
}

/// The rows of a buffer of vectors.
pub open spec fn grid_of(buf: Seq<Vec<PixelColor>>) -> Grid {
    Seq::new(buf.len(), |y: int| buf[y]@)
}

/// Column `x` of row `y` lies in `rect`.
pub open spec fn in_rect(rect: Rect, x: int, y: int) -> bool {
    &&& rect.x <= x < rect.x + rect.width
    &&& rect.y <= y < rect.y + rect.height
}

/// Two grids of one size that agree on every pixel are the same grid.
pub proof fn lemma_grid_equal(a: Grid, b: Grid, width: int, height: int)
    requires
        grid_has_size(a, width, height),
        grid_has_size(b, width, height),
        forall|x: int, y: int| 0 <= x < width && 0 <= y < height ==> a[y][x] == b[y][x],
    ensures
        a == b,
{
    assert forall|y: int| 0 <= y < height implies a[y] == b[y] by {
        assert(a[y].len() == width);
        assert(b[y].len() == width);
        assert forall|x: int| 0 <= x < width implies a[y][x] == b[y][x] by {}
        assert(a[y] =~= b[y]);
    }
    assert(a =~= b);
}

impl PixelColor {
    /// The fill that puts this colour on every pixel.
    pub fn as_fill(self) -> (fill: Color)
        ensures
            forall|x: int, y: int| #[trigger] fill.pixel_at(x, y) == self,
    {
        match self {
            PixelColor::White => Color::White,
            PixelColor::Black => Color::Black,
        }
    }
}

impl Color {
    /// The pixel that this fill puts at column `x`, row `y` of a canvas.
    /// The checkerboard is white where `x + y` is even.
    pub open spec fn pixel_at(self, x: int, y: int) -> PixelColor {
        match self {
            Color::White => PixelColor::White,
            Color::Black => PixelColor::Black,
            Color::Gray => if (x + y) % 2 == 0 {
                PixelColor::White
            } else {
                PixelColor::Black
            },
        }
    }

    /// Computes [`Color::pixel_at`].
    pub fn pixel(self, x: usize, y: usize) -> (color: PixelColor)
        ensures
            color == self.pixel_at(x as int, y as int),
    {
        match self {
            Color::White => PixelColor::White,
            Color::Black => PixelColor::Black,
            Color::Gray => {
                let even_row = y % 2 == 0;
                let even_column = x % 2 == 0;
                if even_row == even_column {
                    PixelColor::White
                } else {
                    PixelColor::Black
                }
            },
        }
    }
}

/// A rectangle. Which coordinate space it lives in (the local space of an
/// area, its canvas, or the frame) is a matter of the place where it is used.
#[derive(Copy, Clone, Debug, PartialEq, Eq, Structural)]
pub struct Rect {
    pub x: usize,
    pub y: usize,
    pub width: usize,
    pub height: usize,
}

impl Rect {
    /// The column `x` and row `y` of this rectangle lie inside `buf`.
    pub open spec fn holds(&self, buf: Seq<Vec<PixelColor>>, x: int, y: int) -> bool {
        &&& 0 <= x && 0 <= y
        &&& self.y + y < buf.len()
        &&& self.x + x < buf[self.y + y].len()
    }

    /// Writes the pixel at column `x`, row `y` of this rectangle, counted
    /// from the rectangle's origin. No other pixel changes.
    pub fn set_px(&self, buf: &mut Vec<Vec<PixelColor>>, x: usize, y: usize, color: PixelColor)
        requires
            self.holds(old(buf)@, x as int, y as int),
        ensures
            grid_of(final(buf)@) == grid_with(grid_of(old(buf)@), self.x + x, self.y + y, color),
    {
        assert(buf@.len() == buf.len());
        buf[self.y + y][self.x + x] = color;
        assert(grid_of(buf@) =~= grid_with(grid_of(old(buf)@), self.x + x, self.y + y, color)) by {
            assert forall|r: int| 0 <= r < buf@.len() implies (#[trigger] grid_of(buf@)[r]) =~= grid_with(
                grid_of(old(buf)@), self.x + x, self.y + y, color)[r] by {}
        }
    }

    /// Reads the pixel at column `x`, row `y` of this rectangle.
    pub fn get_px(&self, buf: &Vec<Vec<PixelColor>>, x: usize, y: usize) -> (color: PixelColor)
        requires
            self.holds(buf@, x as int, y as int),
        ensures
            color == grid_of(buf@)[self.y + y][self.x + x],
    {
        assert(buf@.len() == buf.len());
        buf[self.y + y][self.x + x]
    }
}

} // verus!
