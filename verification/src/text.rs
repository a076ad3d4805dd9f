//! Text on an area.
//!
//! Fonts are not this module's business. Text reaches an area as a stream of
//! samples, one for each pixel of each glyph: a place on the canvas and how
//! much of that pixel the glyph covers. A sample becomes a black pixel where
//! the coverage is above a threshold and a white one elsewhere. Text that
//! would leave the canvas is never clipped: it is refused as a whole.

use vstd::prelude::*;
use crate::area::{Area, AreaView};
use crate::error::RenderError;
use crate::fonts::Font;
use crate::graphics::{in_rect, PixelColor};

verus! {

/// One pixel of a rasterised glyph: column and row on the canvas, counted
/// from the canvas origin, and the coverage of the pixel, 0 to 255.
#[derive(Copy, Clone, Debug, PartialEq, Eq, Structural)]
pub struct GlyphSample {
    pub x: usize,
    pub y: usize,
    pub coverage: u8,
}

/// Where the lines of a text start in the box that the text is laid out in.
#[derive(Copy, Clone, Debug, PartialEq, Eq, Structural)]
pub enum HorizontalAlign {
    Left,
    Center,
    Right,
}

/// Where a text stands in the height of the box that it is laid out in.
#[derive(Copy, Clone, Debug, PartialEq, Eq, Structural)]
pub enum VerticalAlign {
    Top,
    Middle,
    Bottom,
}

/// The box that a text is laid out in, in pixels of the canvas, and how
/// the text is aligned in it. A box without a width is not wrapped, and one
/// without a height has nothing to align to.
#[derive(Copy, Clone, Debug, PartialEq, Eq, Structural)]
pub struct LayoutSettings {
    pub x: usize,
    pub y: usize,
    pub max_width: Option<usize>,
    pub max_height: Option<usize>,
    pub horizontal_align: HorizontalAlign,
    pub vertical_align: VerticalAlign,
}

impl Default for LayoutSettings {
    /// A box at the origin, without width or height, aligned left and top.
    fn default() -> (settings: LayoutSettings)
        ensures
            settings == (LayoutSettings {
                x: 0,
                y: 0,
                max_width: None,
                max_height: None,
                horizontal_align: HorizontalAlign::Left,
                vertical_align: VerticalAlign::Top,
            }),
    {
        LayoutSettings {
            x: 0,
            y: 0,
            max_width: None,
            max_height: None,
            horizontal_align: HorizontalAlign::Left,
            vertical_align: VerticalAlign::Top,
        }
    }
}

/// A text to rasterise: what it says, in which font and size, and where it
/// goes.
#[derive(Clone, Debug)]
pub struct TextRequest {
    pub font: Font,
    pub settings: LayoutSettings,
    pub text: String,
    /// The size of the font, in pixels.
    pub size: u32,
}

/// What a request asks for.
pub struct TextAsk {
    pub font: Font,
    pub settings: LayoutSettings,
    pub text: Seq<char>,
    pub size: u32,
}

impl TextAsk {
    /// The same text, asked for at another size.
    pub open spec fn at(self, size: u32) -> TextAsk {
        TextAsk { size, ..self }
    }
}

impl View for TextRequest {
    type V = TextAsk;

    open spec fn view(&self) -> TextAsk {
        TextAsk { font: self.font, settings: self.settings, text: self.text@, size: self.size }
    }
}

/// The pixel that a coverage gives: black above the threshold, else white.
pub open spec fn ink(coverage: u8, threshold: u8) -> PixelColor {
    if coverage > threshold {
        PixelColor::Black
    } else {
        PixelColor::White
    }
}

impl AreaView {
    /// The sample lies on the canvas.
    pub open spec fn holds_sample(self, sample: GlyphSample) -> bool {
        sample.x < self.canvas.width && sample.y < self.canvas.height
    }

    /// Every sample lies on the canvas.
    pub open spec fn holds_text(self, samples: Seq<GlyphSample>) -> bool {
        forall|i: int| 0 <= i < samples.len() ==> self.holds_sample(#[trigger] samples[i])
    }

    /// This area with the samples written to its canvas, one after the
    /// other; of two samples for one pixel the later one stays.
    pub open spec fn with_text(self, samples: Seq<GlyphSample>, threshold: u8) -> AreaView
        decreases samples.len(),
    {
        if samples.len() == 0 {
            self
        } else {
            let last = samples.last();
            self.with_text(samples.drop_last(), threshold).with_canvas_pixel(
                last.x as int,
                last.y as int,
                ink(last.coverage, threshold),
            )
        }
    }
}

/// Rasterised at `size`, the text may fit the canvas of `area`: of what
/// `rasterize` can return for `size`, something lies on the canvas.
pub open spec fn may_fit<F: Fn(u32) -> Vec<GlyphSample>>(
    area: AreaView,
    rasterize: F,
    size: u32,
) -> bool {
    exists|text: Vec<GlyphSample>| #[trigger]
        call_ensures(rasterize, (size,), text) && area.holds_text(text@)
}

/// Rasterised at `size`, the text may overflow the canvas of `area`: of what
/// `rasterize` can return for `size`, something leaves the canvas.
pub open spec fn may_overflow<F: Fn(u32) -> Vec<GlyphSample>>(
    area: AreaView,
    rasterize: F,
    size: u32,
) -> bool {
    exists|text: Vec<GlyphSample>| #[trigger]
        call_ensures(rasterize, (size,), text) && !area.holds_text(text@)
}

/// `after` is `before` with the text written to it that `rasterize` gave
/// for `size`, all of it on the canvas.
pub open spec fn written_at<F: Fn(u32) -> Vec<GlyphSample>>(
    before: AreaView,
    after: AreaView,
    rasterize: F,
    size: u32,
    threshold: u8,
) -> bool {
    exists|text: Vec<GlyphSample>| #[trigger]
        call_ensures(rasterize, (size,), text) && before.holds_text(text@) && after
            == before.with_text(text@, threshold)
}

/// `samples` is what `rasterize` gives, or one of the things that it may
/// give, when it is asked for `ask`.
pub open spec fn rasterized<F: Fn(TextRequest) -> Vec<GlyphSample>>(
    rasterize: &F,
    ask: TextAsk,
    samples: Seq<GlyphSample>,
) -> bool {
    exists|request: TextRequest, given: Vec<GlyphSample>| #[trigger]
        call_ensures(rasterize, (request,), given) && request@ == ask && given@ == samples
}

/// Asked for `ask`, `rasterize` may give text that leaves the canvas of
/// `area`.
pub open spec fn overflows<F: Fn(TextRequest) -> Vec<GlyphSample>>(
    rasterize: &F,
    area: AreaView,
    ask: TextAsk,
) -> bool {
    exists|samples: Seq<GlyphSample>| #[trigger]
        rasterized(rasterize, ask, samples) && !area.holds_text(samples)
}

/// Asked for `ask` at `size`, `rasterize` may give text that lies on the
/// canvas of `area`.
pub open spec fn fits_at<F: Fn(TextRequest) -> Vec<GlyphSample>>(
    rasterize: &F,
    area: AreaView,
    ask: TextAsk,
    size: u32,
) -> bool {
    exists|samples: Seq<GlyphSample>| #[trigger]
        rasterized(rasterize, ask.at(size), samples) && area.holds_text(samples)
}

/// Asked for `ask` at `size`, `rasterize` may give text that leaves the
/// canvas of `area`.
pub open spec fn overflows_at<F: Fn(TextRequest) -> Vec<GlyphSample>>(
    rasterize: &F,
    area: AreaView,
    ask: TextAsk,
    size: u32,
) -> bool {
    exists|samples: Seq<GlyphSample>| #[trigger]
        rasterized(rasterize, ask.at(size), samples) && !area.holds_text(samples)
}

/// `written` is what a search for the largest size that fits ends with,
/// where `rasterize` is asked for `ask` at the sizes from 1 to `max_size`:
/// nothing, where `max_size` is 0 or the text left the canvas of `area` at
/// size 1; and else the text of a size up to which every size fitted, and
/// after which the next size left the canvas or would be larger than
/// `max_size`.
pub open spec fn fitted<F: Fn(TextRequest) -> Vec<GlyphSample>>(
    rasterize: &F,
    area: AreaView,
    ask: TextAsk,
    max_size: u32,
    written: Option<Seq<GlyphSample>>,
) -> bool {
    match written {
        None => max_size == 0 || overflows_at(rasterize, area, ask, 1),
        Some(samples) => exists|size: u32|
            {
                &&& 1 <= size <= max_size
                &&& #[trigger] rasterized(rasterize, ask.at(size), samples)
                &&& area.holds_text(samples)
                &&& forall|smaller: u32|
                    1 <= smaller <= size ==> #[trigger] fits_at(rasterize, area, ask, smaller)
                &&& size == max_size || overflows_at(rasterize, area, ask, (size + 1) as u32)
            },
    }
}

impl AreaView {
    /// This area with `samples` written to its canvas, where there are any.
    pub open spec fn with_written(self, samples: Option<Seq<GlyphSample>>, threshold: u8) -> AreaView {
        match samples {
            Some(text) => self.with_text(text, threshold),
            None => self,
        }
    }
}

/// Writing text changes pixels only: geometry and children stay.
pub proof fn lemma_with_text_keeps_geometry(area: AreaView, samples: Seq<GlyphSample>, threshold: u8)
    ensures
        area.with_text(samples, threshold) == (AreaView {
            pixels: area.with_text(samples, threshold).pixels,
            ..area
        }),
    decreases samples.len(),
{
    if samples.len() > 0 {
        lemma_with_text_keeps_geometry(area, samples.drop_last(), threshold);
    }
}

/// Text is written to the canvas only: a pixel of the padding or of the
/// outline is after the writing what it was before. And the area keeps its
/// invariant.
pub proof fn lemma_text_stays_on_canvas(
    area: AreaView,
    samples: Seq<GlyphSample>,
    threshold: u8,
    x: int,
    y: int,
)
    requires
        area.wf(),
        area.holds_text(samples),
        0 <= x < area.space.width,
        0 <= y < area.space.height,
        !in_rect(area.canvas, x, y),
    ensures
        area.with_text(samples, threshold).wf(),
        area.with_text(samples, threshold).pixels[y][x] == area.pixels[y][x],
    decreases samples.len(),
{
    if samples.len() > 0 {
        let before = samples.drop_last();
        assert(area.holds_text(before)) by {
            assert forall|i: int| 0 <= i < before.len() implies area.holds_sample(
                #[trigger] before[i],
            ) by {
                assert(before[i] == samples[i]);
            }
        }
        lemma_text_stays_on_canvas(area, before, threshold, x, y);
        lemma_with_text_keeps_geometry(area, before, threshold);
        assert(area.holds_sample(samples[samples.len() - 1]));
    }
}

impl Area {
    /// Whether every sample lies on the canvas of this area.
    pub fn is_layout_possible(&self, samples: &Vec<GlyphSample>) -> (possible: bool)
        ensures
            possible == self@.holds_text(samples@),
    {
        let width = self.get_available_hspace();
        let height = self.get_available_vspace();
        let mut i: usize = 0;
        while i < samples.len()
            invariant
                i <= samples.len(),
                width == self@.canvas.width,
                height == self@.canvas.height,
                forall|j: int| 0 <= j < i ==> self@.holds_sample(#[trigger] samples@[j]),
            decreases samples.len() - i,
        {
            let sample = samples[i];
            if sample.x >= width || sample.y >= height {
                return false;
            }
            i += 1;
        }
        true
    }

    /// Writes text to the canvas: each sample becomes a black pixel where
    /// its coverage is above `coverage_threshold`, and a white one elsewhere.
    ///
    /// Text of which a sample lies off the canvas is refused, and the area
    /// stays as it was.
    pub fn put_text(&mut self, samples: &Vec<GlyphSample>, coverage_threshold: u8) -> (result:
        Result<(), RenderError>)
        requires
            old(self).wf(),
        ensures
            final(self).wf(),
            result.is_ok() <==> old(self)@.holds_text(samples@),
            result.is_ok() ==> final(self)@ == old(self)@.with_text(samples@, coverage_threshold),
            result matches Err(e) ==> e == RenderError::TextOverflow && final(self)@ == old(self)@,
    {
        if !self.is_layout_possible(samples) {
            return Err(RenderError::TextOverflow);
        }
        let mut i: usize = 0;
        assert(samples@.take(0) =~= Seq::empty());
        while i < samples.len()
            invariant
                i <= samples.len(),
                self.wf(),
                old(self)@.holds_text(samples@),
                self@ == old(self)@.with_text(samples@.take(i as int), coverage_threshold),
            decreases samples.len() - i,
        {
            let sample = samples[i];
            let color = if sample.coverage > coverage_threshold {
                PixelColor::Black
            } else {
                PixelColor::White
            };
            proof {
                lemma_with_text_keeps_geometry(
                    old(self)@,
                    samples@.take(i as int),
                    coverage_threshold,
                );
                assert(old(self)@.holds_sample(samples@[i as int]));
            }
            self.set_canvas_pixel(sample.x, sample.y, color);
            proof {
                let more = samples@.take(i + 1);
                assert(more.drop_last() =~= samples@.take(i as int));
                assert(more.last() == samples@[i as int]);
            }
            i += 1;
        }
        assert(samples@.take(samples.len() as int) =~= samples@);
        Ok(())
    }

    /// Writes text at the largest size that fits.
    ///
    /// `rasterize` gives the samples of the text at a size. Sizes are tried
    /// one by one, from 1 upwards: the search ends at the first size at which
    /// the text leaves the canvas, or with `max_size`. The text is then
    /// written at the last size that fitted, and that size is returned.
    /// Where not even size 1 fits, or `max_size` is 0, nothing is written and
    /// the result is `None`.
    ///
    /// The search is linear on purpose. That text which fits at one size fits
    /// at every smaller one is likely, but nothing here relies on it.
    pub fn auto_layout_text_size<F: Fn(u32) -> Vec<GlyphSample>>(
        &mut self,
        rasterize: F,
        coverage_threshold: u8,
        max_size: u32,
    ) -> (best: Option<u32>)
        requires
            old(self).wf(),
            forall|size: u32| 1 <= size <= max_size ==> call_requires(rasterize, (size,)),
        ensures
            final(self).wf(),
            best is None ==> final(self)@ == old(self)@,
            best is None ==> max_size == 0 || may_overflow(old(self)@, rasterize, 1),
            best matches Some(size) ==> {
                &&& 1 <= size <= max_size
                &&& written_at(old(self)@, final(self)@, rasterize, size, coverage_threshold)
                &&& forall|smaller: u32|
                    1 <= smaller <= size ==> #[trigger] may_fit(old(self)@, rasterize, smaller)
                &&& size == max_size || may_overflow(old(self)@, rasterize, (size + 1) as u32)
            },
    {
        let mut size: u32 = 0;
        let mut text: Vec<GlyphSample> = Vec::new();
        let mut searching = true;
        while searching && size < max_size
            invariant
                size <= max_size,
                self == old(self),
                forall|size: u32| 1 <= size <= max_size ==> call_requires(rasterize, (size,)),
                forall|smaller: u32|
                    1 <= smaller <= size ==> #[trigger] may_fit(old(self)@, rasterize, smaller),
                size > 0 ==> call_ensures(rasterize, (size,), text) && old(self)@.holds_text(text@),
                !searching ==> size < max_size && may_overflow(
                    old(self)@,
                    rasterize,
                    (size + 1) as u32,
                ),
            decreases (if searching { 1int } else { 0int }), max_size - size,
        {
            let next = rasterize(size + 1);
            if self.is_layout_possible(&next) {
                size = size + 1;
                text = next;
            } else {
                searching = false;
            }
        }
        if size == 0 {
            return None;
        }
        let written = self.put_text(&text, coverage_threshold);
        assert(written.is_ok());
        Some(size)
    }
}

} // verus!
