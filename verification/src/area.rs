//! Areas: the rectangular nodes of a layout tree.
//!
//! An area has a rectangle of its own (its *space*), whose origin is always
//! `(0, 0)`, and inside it a *canvas*: what is left of the space once padding
//! and outline are taken off on every edge. The area keeps its own pixels,
//! painted when it is made: the outline bands, then the fill on the canvas.
//! Later draws go to the canvas only.
//!
//! Areas form a tree. Attaching a child moves the child, and everything
//! below it, by the parent's position and canvas origin, so that every area
//! in a tree knows where it lies on the frame. Children are drawn in the
//! order in which they were attached, each over what was drawn before.

use vstd::prelude::*;
use crate::error::RenderError;
use crate::frame::{EpdImage, FrameView};
use crate::graphics::{
    grid_has_size, grid_of, grid_with, in_rect, lemma_grid_equal, Color, Grid, PixelColor, Rect,
};

verus! {

/// Space kept free inside the edges of an area.
#[derive(Copy, Clone, Debug, PartialEq, Eq, Structural)]
pub struct Padding {
    pub top: usize,
    pub bottom: usize,
    pub left: usize,
    pub right: usize,
}

impl Padding {
    /// The same padding on every edge.
    pub fn full(pad: usize) -> (padding: Padding)
        ensures
            padding == (Padding { top: pad, bottom: pad, left: pad, right: pad }),
    {
        Padding { top: pad, bottom: pad, left: pad, right: pad }
    }

    /// A padding for each edge.
    pub fn new(top: usize, bottom: usize, left: usize, right: usize) -> (padding: Padding)
        ensures
            padding == (Padding { top, bottom, left, right }),
    {
        Padding { top, bottom, left, right }
    }
}

/// The position of an area on the frame.
#[derive(Copy, Clone, Debug, PartialEq, Eq, Structural)]
pub struct Offset {
    pub x: usize,
    pub y: usize,
}

/// The border of an area: a band along each edge, all of one colour.
#[derive(Copy, Clone, Debug, PartialEq, Eq, Structural)]
pub struct Outline {
    pub top: usize,
    pub bottom: usize,
    pub left: usize,
    pub right: usize,
    pub color: PixelColor,
}

impl Outline {
    /// No border at all.
    pub fn none() -> (outline: Outline)
        ensures
            outline == (Outline { top: 0, bottom: 0, left: 0, right: 0, color: PixelColor::White }),
    {
        Outline { top: 0, bottom: 0, left: 0, right: 0, color: PixelColor::White }
    }

    /// Column `x` of row `y` lies in one of the four bands of this outline
    /// round a space of `width` by `height` pixels.
    pub open spec fn covers(self, width: int, height: int, x: int, y: int) -> bool {
        ||| y < self.top
        ||| y >= height - self.bottom
        ||| x < self.left
        ||| x >= width - self.right
    }
}

impl Default for Outline {
    /// A black border, two pixels wide on every edge.
    fn default() -> (outline: Outline)
        ensures
            outline == (Outline { top: 2, bottom: 2, left: 2, right: 2, color: PixelColor::Black }),
    {
        Outline { top: 2, bottom: 2, left: 2, right: 2, color: PixelColor::Black }
    }
}

/// The width that padding and outline take off a space.
pub open spec fn used_width(padding: Padding, outline: Outline) -> int {
    padding.left + padding.right + outline.left + outline.right
}

/// The height that padding and outline take off a space.
pub open spec fn used_height(padding: Padding, outline: Outline) -> int {
    padding.top + padding.bottom + outline.top + outline.bottom
}

/// The canvas that padding and outline leave in a space of `width` by
/// `height` pixels.
pub open spec fn canvas_of(width: int, height: int, padding: Padding, outline: Outline) -> Rect {
    Rect {
        x: (padding.left + outline.left) as usize,
        y: (padding.top + outline.top) as usize,
        width: (width - used_width(padding, outline)) as usize,
        height: (height - used_height(padding, outline)) as usize,
    }
}

/// The pixel that a new area holds at column `x` of row `y`: the fill on the
/// canvas, the outline's colour in its bands, white in the padding.
pub open spec fn initial_pixel(
    width: int,
    height: int,
    fill: Color,
    padding: Padding,
    outline: Outline,
    x: int,
    y: int,
) -> PixelColor {
    let canvas = canvas_of(width, height, padding, outline);
    if in_rect(canvas, x, y) {
        fill.pixel_at(x - canvas.x, y - canvas.y)
    } else if outline.covers(width, height, x, y) {
        outline.color
    } else {
        PixelColor::White
    }
}

/// `grid`, of `width` by `height` pixels, with the pixels of `rect` set to
/// what `fill` gives for their place in `rect`.
pub open spec fn grid_filled(grid: Grid, width: int, height: int, rect: Rect, fill: Color) -> Grid {
    Seq::new(
        height as nat,
        |y: int|
            Seq::new(
                width as nat,
                |x: int|
                    if in_rect(rect, x, y) {
                        fill.pixel_at(x - rect.x, y - rect.y)
                    } else {
                        grid[y][x]
                    },
            ),
    )
}

/// What an area is: its geometry, its pixels and the areas attached to it.
pub struct AreaView {
    /// The whole rectangle of the area; its origin is `(0, 0)`.
    pub space: Rect,
    /// The part of the space that can be drawn on.
    pub canvas: Rect,
    /// Where the space lies on the frame.
    pub offset_x: int,
    pub offset_y: int,
    pub fill: Color,
    pub padding: Padding,
    pub outline: Outline,
    /// The pixels of the space, row by row.
    pub pixels: Grid,
    /// The attached areas, in the order in which they are drawn.
    pub children: Seq<AreaView>,
}

impl AreaView {
    /// The invariant of an area: the space starts at the origin, the canvas
    /// is what padding and outline leave of it, the pixels cover the space,
    /// and the same holds of every area below.
    pub open spec fn wf(self) -> bool
        decreases self,
    {
        &&& self.space.x == 0
        &&& self.space.y == 0
        &&& used_width(self.padding, self.outline) <= self.space.width
        &&& used_height(self.padding, self.outline) <= self.space.height
        &&& self.canvas == canvas_of(
            self.space.width as int,
            self.space.height as int,
            self.padding,
            self.outline,
        )
        &&& grid_has_size(self.pixels, self.space.width as int, self.space.height as int)
        &&& forall|i: int| 0 <= i < self.children.len() ==> (#[trigger] self.children[i]).wf()
    }

    /// The area that [`Area::new`] makes.
    pub open spec fn fresh(
        x: usize,
        y: usize,
        width: usize,
        height: usize,
        fill: Color,
        padding: Padding,
        outline: Outline,
    ) -> AreaView {
        AreaView {
            space: Rect { x: 0, y: 0, width, height },
            canvas: canvas_of(width as int, height as int, padding, outline),
            offset_x: x as int,
            offset_y: y as int,
            fill,
            padding,
            outline,
            pixels: Seq::new(
                height as nat,
                |r: int|
                    Seq::new(
                        width as nat,
                        |c: int|
                            initial_pixel(width as int, height as int, fill, padding, outline, c, r),
                    ),
            ),
            children: Seq::empty(),
        }
    }
}

impl AreaView {
    /// This area, and every area below it, moved by `(dx, dy)`.
    pub open spec fn shifted(self, dx: int, dy: int) -> AreaView
        decreases self,
    {
        AreaView {
            offset_x: self.offset_x + dx,
            offset_y: self.offset_y + dy,
            children: Seq::new(
                self.children.len(),
                |i: int|
                    if 0 <= i < self.children.len() {
                        self.children[i].shifted(dx, dy)
                    } else {
                        self
                    },
            ),
            ..self
        }
    }

    /// Moved by `(dx, dy)`, the position of this area and of every area
    /// below it can still be held in a `usize`.
    pub open spec fn can_shift(self, dx: int, dy: int) -> bool
        decreases self,
    {
        &&& self.offset_x + dx <= usize::MAX
        &&& self.offset_y + dy <= usize::MAX
        &&& forall|i: int|
            0 <= i < self.children.len() ==> (#[trigger] self.children[i]).can_shift(dx, dy)
    }

    /// The column of the frame at which the canvas of this area starts.
    pub open spec fn canvas_x(self) -> int {
        self.offset_x + self.canvas.x
    }

    /// The row of the frame at which the canvas of this area starts.
    pub open spec fn canvas_y(self) -> int {
        self.offset_y + self.canvas.y
    }

    /// `child` can be attached to this area: on the canvas of this area its
    /// positions can still be held in a `usize`.
    pub open spec fn can_attach(self, child: AreaView) -> bool {
        child.can_shift(self.canvas_x(), self.canvas_y())
    }

    /// This area with `child` attached: `child` and everything below it is
    /// moved to the canvas of this area and becomes its last child.
    pub open spec fn attach(self, child: AreaView) -> AreaView {
        AreaView {
            children: self.children.push(child.shifted(self.canvas_x(), self.canvas_y())),
            ..self
        }
    }

    /// This area with `grandchild` attached to its child number `index`.
    pub open spec fn attach_at(self, index: int, grandchild: AreaView) -> AreaView {
        AreaView {
            children: self.children.update(index, self.children[index].attach(grandchild)),
            ..self
        }
    }

    /// This area with the pixel at column `x`, row `y` of its canvas
    /// replaced.
    pub open spec fn with_canvas_pixel(self, x: int, y: int, color: PixelColor) -> AreaView {
        AreaView {
            pixels: grid_with(self.pixels, self.canvas.x + x, self.canvas.y + y, color),
            ..self
        }
    }

    /// Pixel `(x, y)` of the frame lies in the space of this area.
    pub open spec fn covers(self, x: int, y: int) -> bool {
        &&& self.offset_x <= x < self.offset_x + self.space.width
        &&& self.offset_y <= y < self.offset_y + self.space.height
    }

    /// The space of this area, and of every area below it, lies in a frame
    /// of `width` by `height` pixels.
    pub open spec fn fits(self, width: int, height: int) -> bool
        decreases self,
    {
        &&& self.offset_x + self.space.width <= width
        &&& self.offset_y + self.space.height <= height
        &&& forall|i: int|
            0 <= i < self.children.len() ==> (#[trigger] self.children[i]).fits(width, height)
    }

    /// `other` has the geometry of this area: space, canvas, position,
    /// padding, outline and fill.
    pub open spec fn same_geometry(self, other: AreaView) -> bool {
        &&& other.space == self.space
        &&& other.canvas == self.canvas
        &&& other.offset_x == self.offset_x
        &&& other.offset_y == self.offset_y
        &&& other.fill == self.fill
        &&& other.padding == self.padding
        &&& other.outline == self.outline
    }

    /// `other` is this area with other pixels of its own, and nothing else
    /// changed.
    pub open spec fn repainted(self, other: AreaView) -> bool {
        other == (AreaView { pixels: other.pixels, ..self })
    }

    /// This area lies at `(x, y)` on the frame and is `width` by `height`
    /// pixels large.
    pub open spec fn placed(self, x: int, y: int, width: int, height: int) -> bool {
        &&& self.offset_x == x
        &&& self.offset_y == y
        &&& self.space.width == width
        &&& self.space.height == height
    }

    /// `child` lies in the space of this area.
    pub open spec fn encloses(self, child: AreaView) -> bool {
        &&& self.offset_x <= child.offset_x
        &&& child.offset_x + child.space.width <= self.offset_x + self.space.width
        &&& self.offset_y <= child.offset_y
        &&& child.offset_y + child.space.height <= self.offset_y + self.space.height
    }

    /// Every area below this one lies in the space of the area that it is
    /// attached to.
    pub open spec fn nested(self) -> bool
        decreases self,
    {
        forall|i: int|
            0 <= i < self.children.len() ==> self.encloses(#[trigger] self.children[i])
                && self.children[i].nested()
    }

    /// Where it lies now, `child` would lie on the canvas of this area once
    /// it is attached.
    pub open spec fn has_room_for(self, child: AreaView) -> bool {
        &&& 0 <= child.offset_x
        &&& child.offset_x + child.space.width <= self.canvas.width
        &&& 0 <= child.offset_y
        &&& child.offset_y + child.space.height <= self.canvas.height
    }

    /// `frame` with the first `rows` rows of this area written to it, and
    /// the first `columns` pixels of the row after them.
    pub open spec fn rendered_partly(self, frame: FrameView, rows: int, columns: int) -> FrameView {
        FrameView {
            pixels: Seq::new(
                frame.height,
                |y: int|
                    Seq::new(
                        frame.width,
                        |x: int|
                            if self.covers(x, y) && (y - self.offset_y < rows || (y - self.offset_y
                                == rows && x - self.offset_x < columns)) {
                                self.pixels[y - self.offset_y][x - self.offset_x]
                            } else {
                                frame.pixels[y][x]
                            },
                    ),
            ),
            ..frame
        }
    }

    /// `frame` with the whole space of this area written to it, at the
    /// area's position. The areas below are left out.
    pub open spec fn rendered_onto(self, frame: FrameView) -> FrameView {
        self.rendered_partly(frame, self.space.height as int, 0)
    }

    /// `frame` with this area drawn on it: the area itself, then its
    /// children with all that is below them, in the order of attachment.
    pub open spec fn drawn_onto(self, frame: FrameView) -> FrameView
        decreases self,
    {
        Self::drawn_all(self.children, self.rendered_onto(frame))
    }

    /// `frame` with `areas` drawn on it one after the other.
    pub open spec fn drawn_all(areas: Seq<AreaView>, frame: FrameView) -> FrameView
        decreases areas,
    {
        if areas.len() == 0 {
            frame
        } else {
            areas.last().drawn_onto(Self::drawn_all(areas.drop_last(), frame))
        }
    }
}

/// Sets the pixels of `rect` to what `fill` gives for their place in `rect`.
fn fill_rect(buf: &mut Vec<Vec<PixelColor>>, width: usize, height: usize, rect: Rect, fill: Color)
    requires
        grid_has_size(grid_of(old(buf)@), width as int, height as int),
        rect.x + rect.width <= width,
        rect.y + rect.height <= height,
    ensures
        grid_of(final(buf)@) == grid_filled(
            grid_of(old(buf)@),
            width as int,
            height as int,
            rect,
            fill,
        ),
{
    let ghost before = grid_of(buf@);
    proof {
        lemma_grid_equal(
            grid_of(buf@),
            grid_filled(before, width as int, height as int, Rect { height: 0, ..rect }, fill),
            width as int,
            height as int,
        );
    }
    let mut dy: usize = 0;
    while dy < rect.height
        invariant
            dy <= rect.height,
            rect.x + rect.width <= width,
            rect.y + rect.height <= height,
            grid_has_size(before, width as int, height as int),
            grid_of(buf@) == grid_filled(
                before,
                width as int,
                height as int,
                Rect { height: dy, ..rect },
                fill,
            ),
        decreases rect.height - dy,
    {
        let mut dx: usize = 0;
        let ghost row_start = grid_of(buf@);
        let ghost row = Rect { x: rect.x, y: (rect.y + dy) as usize, width: 0, height: 1 };
        proof {
            lemma_grid_equal(
                grid_of(buf@),
                grid_row_filled(row_start, width as int, height as int, row, dy as int, fill),
                width as int,
                height as int,
            );
        }
        while dx < rect.width
            invariant
                dy < rect.height,
                dx <= rect.width,
                rect.x + rect.width <= width,
                rect.y + rect.height <= height,
                grid_has_size(row_start, width as int, height as int),
                row == (Rect { x: rect.x, y: (rect.y + dy) as usize, width: 0, height: 1 }),
                grid_of(buf@) == grid_row_filled(
                    row_start,
                    width as int,
                    height as int,
                    Rect { width: dx, ..row },
                    dy as int,
                    fill,
                ),
            decreases rect.width - dx,
        {
            assert(grid_of(buf@).len() == height);
            assert(grid_of(buf@)[rect.y + dy].len() == width);
            let color = fill.pixel(dx, dy);
            rect.set_px(buf, dx, dy, color);
            proof {
                lemma_grid_equal(
                    grid_of(buf@),
                    grid_row_filled(
                        row_start,
                        width as int,
                        height as int,
                        Rect { width: (dx + 1) as usize, ..row },
                        dy as int,
                        fill,
                    ),
                    width as int,
                    height as int,
                );
            }
            dx += 1;
        }
        proof {
            lemma_grid_equal(
                grid_of(buf@),
                grid_filled(
                    before,
                    width as int,
                    height as int,
                    Rect { height: (dy + 1) as usize, ..rect },
                    fill,
                ),
                width as int,
                height as int,
            );
        }
        dy += 1;
    }
}

/// `grid` with the pixels of the one-row rectangle `row` set to what `fill`
/// gives for row `dy` of the rectangle that `row` is cut from.
spec fn grid_row_filled(grid: Grid, width: int, height: int, row: Rect, dy: int, fill: Color) -> Grid {
    Seq::new(
        height as nat,
        |y: int|
            Seq::new(
                width as nat,
                |x: int|
                    if in_rect(row, x, y) {
                        fill.pixel_at(x - row.x, dy)
                    } else {
                        grid[y][x]
                    },
            ),
    )
}

/// A rectangular node of a layout tree.
#[derive(Debug)]
pub struct Area {
    // the whole rectangle, in the area's own coordinates
    space: Rect,
    // the part that can be drawn on, in the area's own coordinates
    canvas: Rect,
    // where the space lies on the frame
    offset: Offset,
    fill: Color,
    padding: Padding,
    outline: Outline,
    buf: Vec<Vec<PixelColor>>,
    children: Vec<Area>,
}

impl Area {
    /// What this area is.
    pub closed spec fn model(self) -> AreaView
        decreases self,
    {
        AreaView {
            space: self.space,
            canvas: self.canvas,
            offset_x: self.offset.x as int,
            offset_y: self.offset.y as int,
            fill: self.fill,
            padding: self.padding,
            outline: self.outline,
            pixels: grid_of(self.buf@),
            children: Seq::new(
                self.children.len() as nat,
                |i: int|
                    if 0 <= i < self.children.len() {
                        self.children[i].model()
                    } else {
                        arbitrary()
                    },
            ),
        }
    }
}

impl View for Area {
    type V = AreaView;

    open spec fn view(&self) -> AreaView {
        self.model()
    }
}

impl Area {
    /// The invariant of an area; see [`AreaView::wf`]. Every area that this
    /// module hands out has it, and every operation keeps it.
    pub open spec fn wf(&self) -> bool {
        self@.wf()
    }

    /// Makes an area of `width` by `height` pixels that lies at `(x, y)`.
    ///
    /// The outline bands and the fill are painted at once. Padding and
    /// outline that together exceed the width or the height are refused; a
    /// canvas without a pixel is accepted.
    pub fn new(
        x: usize,
        y: usize,
        width: usize,
        height: usize,
        fill: Color,
        padding: Padding,
        outline: Outline,
    ) -> (result: Result<Area, RenderError>)
        ensures
            result.is_ok() <==> used_width(padding, outline) <= width && used_height(
                padding,
                outline,
            ) <= height,
            result matches Ok(area) ==> {
                &&& area.wf()
                &&& area@ == AreaView::fresh(x, y, width, height, fill, padding, outline)
                &&& area@.canvas.width == width - padding.left - padding.right - outline.left
                    - outline.right
                &&& area@.canvas.height == height - padding.top - padding.bottom - outline.top
                    - outline.bottom
            },
            result matches Err(e) ==> e == RenderError::Layout,
    {
        let canvas_width = match remaining(width, padding.left, padding.right, outline.left, outline.right) {
            Some(w) => w,
            None => {
                return Err(RenderError::Layout);
            },
        };
        let canvas_height = match remaining(height, padding.top, padding.bottom, outline.top, outline.bottom) {
            Some(h) => h,
            None => {
                return Err(RenderError::Layout);
            },
        };
        let space = Rect { x: 0, y: 0, width, height };
        let canvas = Rect {
            x: padding.left + outline.left,
            y: padding.top + outline.top,
            width: canvas_width,
            height: canvas_height,
        };
        let mut buf: Vec<Vec<PixelColor>> = Vec::new();
        let mut row: usize = 0;
        while row < height
            invariant
                row <= height,
                buf.len() == row,
                forall|r: int| 0 <= r < row ==> (#[trigger] buf[r])@ == Seq::new(
                    width as nat,
                    |c: int| PixelColor::White,
                ),
            decreases height - row,
        {
            let line = vec![PixelColor::White; width];
            assert(line@ =~= Seq::new(width as nat, |c: int| PixelColor::White));
            buf.push(line);
            row += 1;
        }
        let ghost blank = grid_of(buf@);
        let band = outline.color.as_fill();
        let top = Rect { x: 0, y: 0, width, height: outline.top };
        let bottom = Rect { x: 0, y: height - outline.bottom, width, height: outline.bottom };
        let left = Rect { x: 0, y: 0, width: outline.left, height };
        let right = Rect { x: width - outline.right, y: 0, width: outline.right, height };
        fill_rect(&mut buf, width, height, top, band);
        fill_rect(&mut buf, width, height, bottom, band);
        fill_rect(&mut buf, width, height, left, band);
        fill_rect(&mut buf, width, height, right, band);
        fill_rect(&mut buf, width, height, canvas, fill);
        let area = Area {
            space,
            canvas,
            offset: Offset { x, y },
            fill,
            padding,
            outline,
            buf,
            children: Vec::new(),
        };
        proof {
            let target = AreaView::fresh(x, y, width, height, fill, padding, outline);
            lemma_grid_equal(area@.pixels, target.pixels, width as int, height as int);
            assert(area@.children =~= target.children);
        }
        Ok(area)
    }
}

impl Area {
    /// The whole rectangle of the area, in its own coordinates.
    pub fn space(&self) -> (space: Rect)
        ensures
            space == self@.space,
    {
        self.space
    }

    /// The part of the space that can be drawn on.
    pub fn canvas(&self) -> (canvas: Rect)
        ensures
            canvas == self@.canvas,
    {
        self.canvas
    }

    /// Where the area lies on the frame.
    pub fn offset(&self) -> (offset: Offset)
        ensures
            offset.x == self@.offset_x,
            offset.y == self@.offset_y,
    {
        self.offset
    }

    /// The column at which the canvas starts.
    pub fn get_hstart(&self) -> (x: usize)
        ensures
            x == self@.canvas.x,
    {
        self.canvas.x
    }

    /// The row at which the canvas starts.
    pub fn get_vstart(&self) -> (y: usize)
        ensures
            y == self@.canvas.y,
    {
        self.canvas.y
    }

    /// The height of the canvas.
    pub fn get_available_vspace(&self) -> (height: usize)
        ensures
            height == self@.canvas.height,
    {
        self.canvas.height
    }

    /// The width of the canvas.
    pub fn get_available_hspace(&self) -> (width: usize)
        ensures
            width == self@.canvas.width,
    {
        self.canvas.width
    }

    /// The number of areas attached to this one.
    pub fn sub_area_count(&self) -> (count: usize)
        ensures
            count == self@.children.len(),
    {
        self.children.len()
    }

    /// The attached area number `index`.
    pub fn sub_area(&self, index: usize) -> (child: &Area)
        requires
            index < self@.children.len(),
        ensures
            child@ == self@.children[index as int],
            self.wf() ==> child.wf(),
    {
        &self.children[index]
    }

    /// The pixel at column `x`, row `y` of the space.
    pub fn pixel(&self, x: usize, y: usize) -> (color: PixelColor)
        requires
            self.wf(),
            x < self@.space.width,
            y < self@.space.height,
        ensures
            color == self@.pixels[y as int][x as int],
    {
        assert(self@.pixels[y as int].len() == self@.space.width);
        self.space.get_px(&self.buf, x, y)
    }

    /// Sets the pixel at column `x`, row `y` of the canvas. Nothing outside
    /// the canvas can be reached this way.
    pub(crate) fn set_canvas_pixel(&mut self, x: usize, y: usize, color: PixelColor)
        requires
            old(self).wf(),
            x < old(self)@.canvas.width,
            y < old(self)@.canvas.height,
        ensures
            final(self).wf(),
            final(self)@ == old(self)@.with_canvas_pixel(x as int, y as int, color),
    {
        assert(self@.pixels.len() == self@.space.height);
        assert(self@.pixels[self.canvas.y + y].len() == self@.space.width);
        self.canvas.set_px(&mut self.buf, x, y, color);
        proof {
            let target = old(self)@.with_canvas_pixel(x as int, y as int, color);
            assert(self@.children =~= target.children);
        }
    }

    /// Moves this area and every area below it by `(dx, dy)`. When a
    /// position cannot be held any more, the move is given up half way.
    fn shift(&mut self, dx: usize, dy: usize) -> (done: bool)
        ensures
            done <==> old(self)@.can_shift(dx as int, dy as int),
            done ==> final(self)@ == old(self)@.shifted(dx as int, dy as int),
        decreases *old(self),
    {
        let x = match self.offset.x.checked_add(dx) {
            Some(x) => x,
            None => {
                return false;
            },
        };
        let y = match self.offset.y.checked_add(dy) {
            Some(y) => y,
            None => {
                return false;
            },
        };
        self.offset = Offset { x, y };
        let count = self.children.len();
        let mut i: usize = 0;
        while i < count
            invariant
                i <= count,
                count == self.children.len(),
                count == old(self).children.len(),
                self.offset.x == old(self).offset.x + dx,
                self.offset.y == old(self).offset.y + dy,
                self.space == old(self).space,
                self.canvas == old(self).canvas,
                self.fill == old(self).fill,
                self.padding == old(self).padding,
                self.outline == old(self).outline,
                self.buf == old(self).buf,
                forall|j: int|
                    0 <= j < i ==> (#[trigger] self.children[j])@ == old(self).children[j]@.shifted(
                        dx as int,
                        dy as int,
                    ),
                forall|j: int|
                    0 <= j < i ==> (#[trigger] old(self).children[j])@.can_shift(dx as int, dy as int),
                forall|j: int| i <= j < count ==> self.children[j] == old(self).children[j],
            decreases count - i,
        {
            let done = self.children[i].shift(dx, dy);
            if !done {
                assert(old(self)@.children[i as int] == old(self).children[i as int]@);
                return false;
            }
            i += 1;
        }
        proof {
            let target = old(self)@.shifted(dx as int, dy as int);
            assert forall|j: int| 0 <= j < count implies self@.children[j] == target.children[j] by {
                assert(self@.children[j] == self.children[j]@);
                assert(old(self)@.children[j] == old(self).children[j]@);
            }
            assert(self@.children =~= target.children);
            assert forall|j: int| 0 <= j < count implies (#[trigger] old(self)@.children[j]).can_shift(
                dx as int,
                dy as int,
            ) by {
                assert(old(self)@.children[j] == old(self).children[j]@);
            }
        }
        true
    }

    /// Attaches `area` as the last child of this area. `area`, and every
    /// area below it, is moved by this area's position and canvas origin.
    ///
    /// An area whose position would no longer fit in a `usize` is refused,
    /// and nothing changes.
    pub fn add_sub_area(&mut self, area: Area) -> (result: Result<(), RenderError>)
        requires
            old(self).wf(),
            area.wf(),
        ensures
            final(self).wf(),
            result.is_ok() <==> old(self)@.can_attach(area@),
            result.is_ok() ==> final(self)@ == old(self)@.attach(area@),
            result matches Err(e) ==> e == RenderError::BufferBounds && final(self)@ == old(self)@,
    {
        let mut area = area;
        let ghost child = area@;
        let dx = match self.offset.x.checked_add(self.canvas.x) {
            Some(dx) => dx,
            None => {
                return Err(RenderError::BufferBounds);
            },
        };
        let dy = match self.offset.y.checked_add(self.canvas.y) {
            Some(dy) => dy,
            None => {
                return Err(RenderError::BufferBounds);
            },
        };
        if !area.shift(dx, dy) {
            return Err(RenderError::BufferBounds);
        }
        self.children.push(area);
        proof {
            let target = old(self)@.attach(child);
            lemma_shifted_wf(child, dx as int, dy as int);
            assert forall|j: int| 0 <= j < self.children.len() implies self@.children[j]
                == target.children[j] by {
                if j < old(self).children.len() {
                    assert(self.children[j] == old(self).children[j]);
                    assert(old(self)@.children[j] == old(self).children[j]@);
                }
            }
            assert(self@.children =~= target.children);
        }
        Ok(())
    }

    /// Attaches `area` to the child number `index` of this area, as
    /// [`Area::add_sub_area`] attaches to the area itself.
    pub fn add_sub_area_at(&mut self, index: usize, area: Area) -> (result: Result<(), RenderError>)
        requires
            old(self).wf(),
            area.wf(),
            index < old(self)@.children.len(),
        ensures
            final(self).wf(),
            result.is_ok() <==> old(self)@.children[index as int].can_attach(area@),
            result.is_ok() ==> final(self)@ == old(self)@.attach_at(index as int, area@),
            result matches Err(e) ==> e == RenderError::BufferBounds && final(self)@ == old(self)@,
    {
        assert(old(self)@.children[index as int] == old(self).children[index as int]@);
        let result = self.children[index].add_sub_area(area);
        proof {
            let target = if result.is_ok() {
                old(self)@.attach_at(index as int, area@)
            } else {
                old(self)@
            };
            assert forall|j: int| 0 <= j < self.children.len() implies self@.children[j]
                == target.children[j] by {
                assert(self@.children[j] == self.children[j]@);
                assert(old(self)@.children[j] == old(self).children[j]@);
            }
            assert(self@.children =~= target.children);
        }
        result
    }

    /// Whether the space of this area, and of every area below it, lies in
    /// a frame of `width` by `height` pixels.
    pub fn fits(&self, width: usize, height: usize) -> (fits: bool)
        ensures
            fits == self@.fits(width as int, height as int),
        decreases self,
    {
        if self.space.width > width || self.offset.x > width - self.space.width {
            return false;
        }
        if self.space.height > height || self.offset.y > height - self.space.height {
            return false;
        }
        let count = self.children.len();
        let mut i: usize = 0;
        while i < count
            invariant
                i <= count,
                count == self.children.len(),
                forall|j: int|
                    0 <= j < i ==> (#[trigger] self@.children[j]).fits(width as int, height as int),
            decreases count - i,
        {
            assert(self@.children[i as int] == self.children[i as int]@);
            if !self.children[i].fits(width, height) {
                return false;
            }
            i += 1;
        }
        true
    }

    /// Writes the space of this area to `image`, at the area's position.
    fn render(&self, image: &mut EpdImage)
        requires
            self.wf(),
            old(image).wf(),
            self@.offset_x + self@.space.width <= old(image)@.width,
            self@.offset_y + self@.space.height <= old(image)@.height,
        ensures
            final(image).wf(),
            final(image)@ == self@.rendered_onto(old(image)@),
    {
        let ghost frame = image@;
        let ghost me = self@;
        let width = self.space.width;
        let height = self.space.height;
        let frame_width = image.width();
        let frame_height = image.height();
        proof {
            lemma_grid_equal(
                image@.pixels,
                me.rendered_partly(frame, 0, 0).pixels,
                frame.width as int,
                frame.height as int,
            );
        }
        let mut y: usize = 0;
        while y < height
            invariant
                self.wf(),
                image.wf(),
                frame.wf(),
                me == self@,
                width == me.space.width,
                height == me.space.height,
                me.offset_x + width <= frame.width,
                me.offset_y + height <= frame.height,
                frame_width == frame.width,
                frame_height == frame.height,
                y <= height,
                image@ == me.rendered_partly(frame, y as int, 0),
            decreases height - y,
        {
            let mut x: usize = 0;
            while x < width
                invariant
                    self.wf(),
                    image.wf(),
                    frame.wf(),
                    me == self@,
                    width == me.space.width,
                    height == me.space.height,
                    me.offset_x + width <= frame.width,
                    me.offset_y + height <= frame.height,
                    frame_width == frame.width,
                    frame_height == frame.height,
                    y < height,
                    x <= width,
                    image@ == me.rendered_partly(frame, y as int, x as int),
                decreases width - x,
            {
                let color = self.pixel(x, y);
                image.set_pixel(x + self.offset.x, y + self.offset.y, color);
                proof {
                    lemma_grid_equal(
                        image@.pixels,
                        me.rendered_partly(frame, y as int, x + 1).pixels,
                        frame.width as int,
                        frame.height as int,
                    );
                }
                x += 1;
            }
            proof {
                lemma_grid_equal(
                    image@.pixels,
                    me.rendered_partly(frame, y + 1, 0).pixels,
                    frame.width as int,
                    frame.height as int,
                );
            }
            y += 1;
        }
    }

    /// Draws this area, then every area below it, on `image`.
    fn draw_tree(&self, image: &mut EpdImage)
        requires
            self.wf(),
            old(image).wf(),
            self@.fits(old(image)@.width as int, old(image)@.height as int),
        ensures
            final(image).wf(),
            final(image)@ == self@.drawn_onto(old(image)@),
            final(image)@.width == old(image)@.width,
            final(image)@.height == old(image)@.height,
        decreases self,
    {
        let ghost frame = image@;
        self.render(image);
        let ghost rendered = image@;
        let count = self.children.len();
        let mut i: usize = 0;
        assert(self@.children.take(0) =~= Seq::empty());
        while i < count
            invariant
                self.wf(),
                image.wf(),
                i <= count,
                count == self.children.len(),
                self@.fits(frame.width as int, frame.height as int),
                image@.width == frame.width,
                image@.height == frame.height,
                image@ == AreaView::drawn_all(self@.children.take(i as int), rendered),
            decreases count - i,
        {
            assert(self@.children[i as int] == self.children[i as int]@);
            assert(self@.children[i as int].fits(frame.width as int, frame.height as int));
            assert(self@.children[i as int].wf());
            self.children[i].draw_tree(image);
            proof {
                let more = self@.children.take(i + 1);
                assert(more.drop_last() =~= self@.children.take(i as int));
                assert(more.last() == self@.children[i as int]);
            }
            i += 1;
        }
        assert(self@.children.take(count as int) =~= self@.children);
    }

    /// Draws the tree below this area on `image`: the area itself, then each
    /// child with all that is below it, in the order of attachment. What is
    /// drawn later covers what was drawn before.
    ///
    /// A tree of which some area does not lie in the frame is refused, and
    /// `image` stays as it was.
    pub fn draw(&self, image: &mut EpdImage) -> (result: Result<(), RenderError>)
        requires
            self.wf(),
            old(image).wf(),
        ensures
            final(image).wf(),
            final(image)@.width == old(image)@.width,
            final(image)@.height == old(image)@.height,
            result.is_ok() <==> self@.fits(old(image)@.width as int, old(image)@.height as int),
            result.is_ok() ==> final(image)@ == self@.drawn_onto(old(image)@),
            result matches Err(e) ==> e == RenderError::BufferBounds && final(image)@ == old(image)@,
    {
        if !self.fits(image.width(), image.height()) {
            return Err(RenderError::BufferBounds);
        }
        self.draw_tree(image);
        Ok(())
    }
}

/// A moved area keeps its invariant.
pub proof fn lemma_shifted_wf(area: AreaView, dx: int, dy: int)
    requires
        area.wf(),
    ensures
        area.shifted(dx, dy).wf(),
    decreases area,
{
    let moved = area.shifted(dx, dy);
    assert forall|i: int| 0 <= i < moved.children.len() implies (#[trigger] moved.children[i]).wf() by {
        lemma_shifted_wf(area.children[i], dx, dy);
    }
}

/// A move by nothing changes nothing.
pub proof fn lemma_shift_zero(area: AreaView)
    ensures
        area.shifted(0, 0) == area,
    decreases area,
{
    let moved = area.shifted(0, 0);
    assert forall|i: int| 0 <= i < area.children.len() implies moved.children[i]
        == area.children[i] by {
        lemma_shift_zero(area.children[i]);
    }
    assert(moved.children =~= area.children);
}

/// Two moves, one after the other, are one move by the sum.
pub proof fn lemma_shift_twice(area: AreaView, dx1: int, dy1: int, dx2: int, dy2: int)
    ensures
        area.shifted(dx1, dy1).shifted(dx2, dy2) == area.shifted(dx1 + dx2, dy1 + dy2),
    decreases area,
{
    let twice = area.shifted(dx1, dy1).shifted(dx2, dy2);
    let once = area.shifted(dx1 + dx2, dy1 + dy2);
    assert forall|i: int| 0 <= i < area.children.len() implies twice.children[i]
        == once.children[i] by {
        lemma_shift_twice(area.children[i], dx1, dy1, dx2, dy2);
    }
    assert(twice.children =~= once.children);
}

/// Moving an area after a child was attached to it gives what attaching the
/// child to the moved area gives.
pub proof fn lemma_shift_attach(area: AreaView, child: AreaView, dx: int, dy: int)
    ensures
        area.attach(child).shifted(dx, dy) == area.shifted(dx, dy).attach(child),
{
    let before = area.attach(child).shifted(dx, dy);
    let after = area.shifted(dx, dy).attach(child);
    lemma_shift_twice(child, area.canvas_x(), area.canvas_y(), dx, dy);
    assert(before.children =~= after.children);
}

/// The order of attachment does not matter for where areas end up. Let a
/// grandchild be attached to a child and the child then to a root; or let
/// the child be attached to the root first and the grandchild then to the
/// child in its place below the root. Both ways give the same tree: the
/// three areas have the same positions, whichever way was taken.
pub proof fn lemma_attach_order(root: AreaView, child: AreaView, grandchild: AreaView)
    ensures
        root.attach(child.attach(grandchild)) == root.attach(child).attach_at(
            root.children.len() as int,
            grandchild,
        ),
{
    let early = root.attach(child.attach(grandchild));
    let late = root.attach(child).attach_at(root.children.len() as int, grandchild);
    lemma_shift_attach(child, grandchild, root.canvas_x(), root.canvas_y());
    assert(early.children =~= late.children);
}

/// Moving a tree keeps every area in the space of the area above it.
pub proof fn lemma_shifted_nested(area: AreaView, dx: int, dy: int)
    requires
        area.nested(),
    ensures
        area.shifted(dx, dy).nested(),
    decreases area,
{
    let moved = area.shifted(dx, dy);
    assert forall|i: int| 0 <= i < moved.children.len() implies moved.encloses(
        #[trigger] moved.children[i],
    ) && moved.children[i].nested() by {
        assert(area.encloses(area.children[i]));
        lemma_shifted_nested(area.children[i], dx, dy);
    }
}

/// A nested tree reaches no further than its root: where the root can be
/// moved, the whole tree can.
pub proof fn lemma_nested_can_shift(area: AreaView, dx: int, dy: int)
    requires
        area.nested(),
        area.offset_x + area.space.width + dx <= usize::MAX,
        area.offset_y + area.space.height + dy <= usize::MAX,
    ensures
        area.can_shift(dx, dy),
    decreases area,
{
    assert forall|i: int| 0 <= i < area.children.len() implies (#[trigger] area.children[i]).can_shift(
        dx,
        dy,
    ) by {
        assert(area.encloses(area.children[i]));
        lemma_nested_can_shift(area.children[i], dx, dy);
    }
}

/// A nested tree whose root lies in a frame lies in the frame as a whole,
/// so that it can be drawn.
pub proof fn lemma_nested_fits(area: AreaView, width: int, height: int)
    requires
        area.nested(),
        area.offset_x + area.space.width <= width,
        area.offset_y + area.space.height <= height,
    ensures
        area.fits(width, height),
    decreases area,
{
    assert forall|i: int| 0 <= i < area.children.len() implies (#[trigger] area.children[i]).fits(
        width,
        height,
    ) by {
        assert(area.encloses(area.children[i]));
        lemma_nested_fits(area.children[i], width, height);
    }
}

/// Attaching a nested tree that has room on the canvas of a nested tree
/// gives a nested tree.
pub proof fn lemma_attach_nested(parent: AreaView, child: AreaView)
    requires
        parent.wf(),
        parent.nested(),
        child.nested(),
        parent.has_room_for(child),
    ensures
        parent.attach(child).nested(),
{
    let joined = parent.attach(child);
    lemma_shifted_nested(child, parent.canvas_x(), parent.canvas_y());
    assert forall|i: int| 0 <= i < joined.children.len() implies joined.encloses(
        #[trigger] joined.children[i],
    ) && joined.children[i].nested() by {
        if i < parent.children.len() {
            assert(parent.encloses(parent.children[i]));
        }
    }
}

/// What is left of `total` when the four parts are taken off, if they fit.
fn remaining(total: usize, a: usize, b: usize, c: usize, d: usize) -> (rest: Option<usize>)
    ensures
        rest.is_some() <==> a + b + c + d <= total,
        rest matches Some(r) ==> r == total - a - b - c - d,
{
    if a > total {
        return None;
    }
    let rest = total - a;
    if b > rest {
        return None;
    }
    let rest = rest - b;
    if c > rest {
        return None;
    }
    let rest = rest - c;
    if d > rest {
        return None;
    }
    Some(rest - d)
}

} // verus!
