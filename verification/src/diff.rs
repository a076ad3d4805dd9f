//! Change detection between two frames.
//!
//! The display can refresh a part of itself. [`diff`] finds the part that
//! has to be refreshed: the smallest rectangle that holds every pixel in
//! which two frames differ.
//!
//! The rectangle is given by its corners. Its `width` is the distance from
//! its first column to its last one, and its `height` that from its first
//! row to its last one: a change of a single pixel has width 0 and height 0.

use vstd::prelude::*;
use crate::frame::{EpdImage, FrameView};
use crate::graphics::{lemma_grid_equal, Rect};

verus! {

/// The two frames differ in pixel `(x, y)`.
pub open spec fn differs_at(a: FrameView, b: FrameView, x: int, y: int) -> bool {
    a.contains(x, y) && a.pixels[y][x] != b.pixels[y][x]
}

/// `rect` is the bounding rectangle of the pixels in which `a` and `b`
/// differ: every such pixel lies between its corners, and on each of its
/// four edges lies such a pixel. There is at most one such rectangle (see
/// [`lemma_change_box_unique`]).
pub open spec fn is_change_box(a: FrameView, b: FrameView, rect: Rect) -> bool {
    &&& forall|x: int, y: int| #[trigger]
        differs_at(a, b, x, y) ==> rect.x <= x <= rect.x + rect.width && rect.y <= y <= rect.y
            + rect.height
    &&& exists|y: int| #[trigger] differs_at(a, b, rect.x as int, y)
    &&& exists|y: int| #[trigger] differs_at(a, b, rect.x + rect.width, y)
    &&& exists|x: int| #[trigger] differs_at(a, b, x, rect.y as int)
    &&& exists|x: int| #[trigger] differs_at(a, b, x, rect.y + rect.height)
}

/// Compares two frames of one size. The result is `None` where they are
/// the same, and else the bounding rectangle of the pixels that differ.
pub fn diff(current: &EpdImage, previous: &EpdImage) -> (change: Option<Rect>)
    requires
        current.wf(),
        previous.wf(),
        current@.width == previous@.width,
        current@.height == previous@.height,
    ensures
        change is None <==> current@ == previous@,
        change matches Some(rect) ==> is_change_box(current@, previous@, rect),
{
    let width = current.width();
    let height = current.height();
    let ghost a = current@;
    let ghost b = previous@;
    let mut xmin = width;
    let mut ymin = height;
    let mut xmax: usize = 0;
    let mut ymax: usize = 0;
    let mut change = false;
    // where a differing pixel was seen on each edge of the rectangle
    let ghost mut at_left: int = 0;
    let ghost mut at_right: int = 0;
    let ghost mut at_top: int = 0;
    let ghost mut at_bottom: int = 0;
    let mut y: usize = 0;
    while y < height
        invariant
            current.wf(),
            previous.wf(),
            a == current@,
            b == previous@,
            a.width == b.width == width,
            a.height == b.height == height,
            y <= height,
            forall|cx: int, cy: int| #[trigger]
                differs_at(a, b, cx, cy) && cy < y ==> change && xmin <= cx <= xmax && ymin <= cy
                    <= ymax,
            change ==> {
                &&& differs_at(a, b, xmin as int, at_left)
                &&& differs_at(a, b, xmax as int, at_right)
                &&& differs_at(a, b, at_top, ymin as int)
                &&& differs_at(a, b, at_bottom, ymax as int)
            },
        decreases height - y,
    {
        let mut x: usize = 0;
        while x < width
            invariant
                current.wf(),
                previous.wf(),
                a == current@,
                b == previous@,
                a.width == b.width == width,
                a.height == b.height == height,
                y < height,
                x <= width,
                forall|cx: int, cy: int| #[trigger]
                    differs_at(a, b, cx, cy) && (cy < y || (cy == y && cx < x)) ==> change && xmin
                        <= cx <= xmax && ymin <= cy <= ymax,
                change ==> {
                    &&& differs_at(a, b, xmin as int, at_left)
                    &&& differs_at(a, b, xmax as int, at_right)
                    &&& differs_at(a, b, at_top, ymin as int)
                    &&& differs_at(a, b, at_bottom, ymax as int)
                },
            decreases width - x,
        {
            if current.get_pixel(x, y) != previous.get_pixel(x, y) {
                if !change || x < xmin {
                    xmin = x;
                    proof {
                        at_left = y as int;
                    }
                }
                if !change || x > xmax {
                    xmax = x;
                    proof {
                        at_right = y as int;
                    }
                }
                if !change || y < ymin {
                    ymin = y;
                    proof {
                        at_top = x as int;
                    }
                }
                if !change || y > ymax {
                    ymax = y;
                    proof {
                        at_bottom = x as int;
                    }
                }
                change = true;
            }
            x += 1;
        }
        y += 1;
    }
    if !change {
        proof {
            assert forall|cx: int, cy: int| 0 <= cx < width && 0 <= cy < height implies a.pixels[cy][cx]
                == b.pixels[cy][cx] by {
                if a.pixels[cy][cx] != b.pixels[cy][cx] {
                    assert(differs_at(a, b, cx, cy));
                }
            }
            lemma_grid_equal(a.pixels, b.pixels, width as int, height as int);
        }
        return None;
    }
    assert(xmin <= xmax && ymin <= ymax);
    let rect = Rect { x: xmin, y: ymin, width: xmax - xmin, height: ymax - ymin };
    proof {
        assert(differs_at(a, b, rect.x as int, at_left));
        assert(differs_at(a, b, rect.x + rect.width, at_right));
        assert(differs_at(a, b, at_top, rect.y as int));
        assert(differs_at(a, b, at_bottom, rect.y + rect.height));
    }
    Some(rect)
}

/// Two frames have at most one bounding rectangle of change.
pub proof fn lemma_change_box_unique(a: FrameView, b: FrameView, first: Rect, second: Rect)
    requires
        is_change_box(a, b, first),
        is_change_box(a, b, second),
    ensures
        first == second,
{
}

/// Where two frames differ in one pixel only, the bounding rectangle of
/// change is that pixel: it has width 0 and height 0.
pub proof fn lemma_single_pixel_change(a: FrameView, b: FrameView, x: int, y: int, rect: Rect)
    requires
        differs_at(a, b, x, y),
        forall|cx: int, cy: int| #[trigger] differs_at(a, b, cx, cy) ==> cx == x && cy == y,
        is_change_box(a, b, rect),
    ensures
        rect.x == x,
        rect.y == y,
        rect.width == 0,
        rect.height == 0,
{
}

} // verus!
