//! The dashboard.
//!
//! A dashboard makes one frame for the display after the other. It
//! remembers the frame that it made last, so that the display can be asked
//! to refresh no more than the part of itself that has changed.

use vstd::prelude::*;
use crate::area::{lemma_nested_fits, Area, AreaView, Outline, Padding};
use crate::diff::{diff, differs_at, is_change_box};
use crate::error::RenderError;
use crate::frame::{grid_region, is_packed, EpdImage, FrameView, EPD_HEIGHT, EPD_WIDTH};
use crate::graphics::{in_rect, Color, Rect};
use crate::layout::{
    consistent, dashboard_tree, image_has_room, layout_dashboard, no_outline, no_padding,
    rasterizes_all, text_overflows, DashboardData, Outcomes,
};
use crate::payload::RenderAction;
use crate::raster::{Raster, RasterView};
use crate::text::{GlyphSample, TextRequest};

verus! {

/// The width of a frame of a video, in pixels.
pub const VIDEO_WIDTH: usize = 240;

/// The height of a frame of a video, in pixels.
pub const VIDEO_HEIGHT: usize = 180;

/// The display with nothing on it.
pub open spec fn blank_display() -> FrameView {
    FrameView::blank(EPD_WIDTH as nat, EPD_HEIGHT as nat)
}

/// The area that covers the display, without padding or outline, with
/// `image` in its top left corner.
pub open spec fn video_panel(image: RasterView) -> AreaView {
    AreaView::fresh(
        0,
        0,
        EPD_WIDTH,
        EPD_HEIGHT,
        Color::White,
        no_padding(),
        no_outline(),
    ).with_image(0, 0, image)
}

/// The frame of the dashboard that shows `data`, where the collaborators
/// rasterised `texts`: the tree of its areas, drawn on a white display.
pub open spec fn dashboard_frame(data: &DashboardData, texts: Outcomes) -> FrameView {
    dashboard_tree(data.events@, data.image@, texts).drawn_onto(blank_display())
}

/// The rectangle of pixels between the corners of a bounding rectangle of
/// change, the corners included: it is one pixel wider and one higher than
/// the corners are apart.
pub open spec fn change_block(change: Rect) -> Rect {
    Rect {
        x: change.x,
        y: change.y,
        width: (change.width + 1) as usize,
        height: (change.height + 1) as usize,
    }
}

/// The block of a change holds every pixel in which the two frames
/// differ.
pub proof fn lemma_change_block_covers(
    current: FrameView,
    previous: FrameView,
    change: Rect,
    x: int,
    y: int,
)
    requires
        is_change_box(current, previous, change),
        change.x + change.width < usize::MAX,
        change.y + change.height < usize::MAX,
        differs_at(current, previous, x, y),
    ensures
        in_rect(change_block(change), x, y),
{
}

/// `data` is the packed form of the pixels of `block` in `frame`.
pub open spec fn holds_block(data: Seq<u8>, frame: FrameView, block: Rect) -> bool {
    is_packed(
        data,
        grid_region(
            frame.pixels,
            block.x as int,
            block.y as int,
            block.width as int,
            block.height as int,
        ),
        block.width as int,
        block.height as int,
    )
}

/// `action` is what the display is asked to do when `current` follows
/// `previous`: to show the whole frame where there is no frame before it or
/// nothing has changed, and else to replace the block of pixels in which the
/// two frames differ.
pub open spec fn is_action_for(
    action: RenderAction,
    previous: Option<FrameView>,
    current: FrameView,
) -> bool {
    if previous is None || previous == Some(current) {
        action matches RenderAction::Full(data) && is_packed(
            data@,
            current.pixels,
            current.width as int,
            current.height as int,
        )
    } else {
        action matches RenderAction::Partial(block, data) && holds_block(data@, current, block)
            && exists|change: Rect| #[trigger]
            is_change_box(current, previous.unwrap(), change) && block == change_block(change)
    }
}

/// The dashboard: it makes frames and remembers the last one, so that the
/// display need not be refreshed as a whole each time.
#[derive(Debug)]
pub struct Dash {
    previous_frame: Option<EpdImage>,
}

impl Dash {
    /// The frame that was made last, if one was made.
    pub closed spec fn previous(&self) -> Option<FrameView> {
        match self.previous_frame {
            Some(frame) => Some(frame@),
            None => None,
        }
    }

    /// The invariant of a dashboard: the frame that it remembers is a frame
    /// for the display.
    pub closed spec fn wf(&self) -> bool {
        self.previous_frame matches Some(frame) ==> frame.wf() && frame@.width == EPD_WIDTH
            && frame@.height == EPD_HEIGHT
    }

    /// A dashboard that has not made a frame yet.
    pub fn new() -> (dash: Dash)
        ensures
            dash.wf(),
            dash.previous() is None,
    {
        Dash { previous_frame: None }
    }

    /// The frame that was made last, if one was made.
    pub fn last_frame(&self) -> (frame: Option<&EpdImage>)
        requires
            self.wf(),
        ensures
            frame.is_some() == self.previous().is_some(),
            frame matches Some(last) ==> {
                &&& self.previous() == Some(last@)
                &&& last.wf()
                &&& last@.width == EPD_WIDTH
                &&& last@.height == EPD_HEIGHT
            },
    {
        self.previous_frame.as_ref()
    }

    /// Makes the frame that shows `data`: lays out the dashboard and draws
    /// it on a white frame for the display.
    pub fn create_dashboard<F: Fn(TextRequest) -> Vec<GlyphSample>>(
        data: &DashboardData,
        rasterize: &F,
    ) -> (result: Result<EpdImage, RenderError>)
        requires
            data.wf(),
            rasterizes_all(rasterize),
        ensures
            result matches Ok(frame) ==> frame.wf() && frame@.width == EPD_WIDTH && frame@.height
                == EPD_HEIGHT,
            result matches Ok(frame) ==> exists|texts: Outcomes| #[trigger]
                consistent(rasterize, data, texts) && frame@ == dashboard_frame(data, texts),
            result matches Err(e) ==> e == RenderError::ImageOverflow || e
                == RenderError::TextOverflow,
            result == Err::<EpdImage, RenderError>(RenderError::ImageOverflow) <==> !image_has_room(
                data.image@,
            ),
            result == Err::<EpdImage, RenderError>(RenderError::TextOverflow) ==> text_overflows(
                rasterize,
                data,
            ),
    {
        let mut image = EpdImage::new(EPD_WIDTH, EPD_HEIGHT);
        let total = match layout_dashboard(data, rasterize) {
            Ok(tree) => tree,
            Err(error) => {
                return Err(error);
            },
        };
        proof {
            lemma_nested_fits(total@, EPD_WIDTH as int, EPD_HEIGHT as int);
        }
        let drawn = total.draw(&mut image);
        assert(drawn.is_ok());
        proof {
            let texts = choose|texts: Outcomes| #[trigger]
                consistent(rasterize, data, texts) && total@ == dashboard_tree(
                    data.events@,
                    data.image@,
                    texts,
                );
            assert(image@ == dashboard_frame(data, texts));
        }
        Ok(image)
    }

    /// Where `current` differs from the frame that was made last: the
    /// bounding rectangle of the pixels that differ, or `None` where no frame
    /// was made before or nothing differs.
    pub fn get_change_bbox(&self, current: &EpdImage) -> (change: Option<Rect>)
        requires
            self.wf(),
            current.wf(),
            current@.width == EPD_WIDTH,
            current@.height == EPD_HEIGHT,
        ensures
            change is None <==> self.previous() is None || self.previous() == Some(current@),
            change matches Some(rect) ==> is_change_box(current@, self.previous().unwrap(), rect),
    {
        match &self.previous_frame {
            Some(previous) => diff(current, previous),
            None => None,
        }
    }

    /// Takes `current` as the frame that follows the one made last, and
    /// says what the display has to do to show it.
    pub fn render(&mut self, current: EpdImage) -> (action: RenderAction)
        requires
            old(self).wf(),
            current.wf(),
            current@.width == EPD_WIDTH,
            current@.height == EPD_HEIGHT,
        ensures
            final(self).wf(),
            final(self).previous() == Some(current@),
            is_action_for(action, old(self).previous(), current@),
    {
        let action = match self.get_change_bbox(&current) {
            None => RenderAction::Full(current.serialize_full()),
            Some(change) => {
                let ghost previous = self.previous().unwrap();
                proof {
                    let x = choose|x: int| #[trigger]
                        differs_at(current@, previous, x, change.y + change.height);
                    let y = choose|y: int| #[trigger]
                        differs_at(current@, previous, change.x + change.width, y);
                }
                let block = Rect {
                    x: change.x,
                    y: change.y,
                    width: change.width + 1,
                    height: change.height + 1,
                };
                match current.serialize_region(block.x, block.y, block.width, block.height) {
                    Ok(data) => RenderAction::Partial(block, data),
                    Err(_) => RenderAction::Full(current.serialize_full()),
                }
            },
        };
        self.previous_frame = Some(current);
        action
    }

    /// Makes the frame that shows `data`, and says what the display has to
    /// do to show it after the frame made last. The new frame is remembered
    /// in place of the last one. A render that fails changes nothing: the
    /// last frame stays.
    pub fn draw<F: Fn(TextRequest) -> Vec<GlyphSample>>(
        &mut self,
        data: &DashboardData,
        rasterize: &F,
    ) -> (result: Result<RenderAction, RenderError>)
        requires
            old(self).wf(),
            data.wf(),
            rasterizes_all(rasterize),
        ensures
            final(self).wf(),
            result matches Ok(action) ==> exists|texts: Outcomes| #[trigger]
                consistent(rasterize, data, texts) && final(self).previous() == Some(
                    dashboard_frame(data, texts),
                ) && is_action_for(action, old(self).previous(), dashboard_frame(data, texts)),
            result matches Err(e) ==> {
                &&& e == RenderError::ImageOverflow || e == RenderError::TextOverflow
                &&& final(self).previous() == old(self).previous()
            },
            result == Err::<RenderAction, RenderError>(RenderError::ImageOverflow)
                <==> !image_has_room(data.image@),
            result == Err::<RenderAction, RenderError>(RenderError::TextOverflow)
                ==> text_overflows(rasterize, data),
    {
        let frame = match Dash::create_dashboard(data, rasterize) {
            Ok(frame) => frame,
            Err(error) => {
                return Err(error);
            },
        };
        proof {
            let texts = choose|texts: Outcomes| #[trigger]
                consistent(rasterize, data, texts) && frame@ == dashboard_frame(data, texts);
        }
        Ok(self.render(frame))
    }

    /// Makes the payload for one frame of a video: draws `image` in the top
    /// left corner of a white display and packs the block of
    /// [`VIDEO_WIDTH`] by [`VIDEO_HEIGHT`] pixels in that corner. An image
    /// larger than the display is refused.
    pub fn video_frame(image: &Raster) -> (result: Result<Vec<u8>, RenderError>)
        requires
            image.wf(),
        ensures
            result.is_ok() <==> image@.width <= EPD_WIDTH && image@.height <= EPD_HEIGHT,
            result matches Ok(data) ==> holds_block(
                data@,
                video_panel(image@).drawn_onto(blank_display()),
                (Rect { x: 0, y: 0, width: VIDEO_WIDTH, height: VIDEO_HEIGHT }),
            ),
            result matches Err(e) ==> e == RenderError::ImageOverflow,
    {
        let made = Area::new(
            0,
            0,
            EPD_WIDTH,
            EPD_HEIGHT,
            Color::White,
            Padding::full(0),
            Outline::none(),
        );
        assert(made.is_ok());
        let mut whole = match made {
            Ok(area) => area,
            Err(error) => {
                return Err(error);
            },
        };
        whole.load_image(0, 0, image)?;
        let mut frame = EpdImage::new(EPD_WIDTH, EPD_HEIGHT);
        let drawn = whole.draw(&mut frame);
        assert(drawn.is_ok());
        let packed = frame.serialize_region(0, 0, VIDEO_WIDTH, VIDEO_HEIGHT);
        assert(packed.is_ok());
        packed
    }
}

} // verus!
