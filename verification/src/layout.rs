//! The layout of the dashboard.
//!
//! The left column of the display holds the calendar and, below it, the
//! weather; the rest holds an image, a quote under it, and the time of day
//! in a corner. The areas are made from what the collaborators of this
//! library have fetched, and from text that they rasterise on request.
//!
//! What the collaborators answer is not known here. The tree of areas is
//! therefore described for every answer: [`dashboard_tree`] says which tree
//! the answers give, and [`consistent`] says which requests they answer.

use vstd::prelude::*;
use vstd::string::StringExecFns;
use crate::agenda::{
    agenda, day_heading, day_label_text, event_line, fitted_title, heading_from, line_from,
    plan_agenda, row_fits, row_height, row_of, start_clock, AgendaRow, PlacedRow, DATE_HEIGHT,
    EVENT_HEIGHT,
};
use crate::area::{
    lemma_attach_nested, lemma_nested_can_shift, lemma_shift_zero, Area, AreaView, Outline,
    Padding,
};
use crate::calendar::Event;
use crate::error::RenderError;
use crate::fonts::Font;
use crate::frame::{EPD_HEIGHT, EPD_WIDTH};
use crate::graphics::{Color, PixelColor, Rect};
use crate::quote::Quote;
use crate::raster::{Raster, RasterView};
use crate::text::{
    fits_at, fitted, lemma_with_text_keeps_geometry, may_fit, may_overflow, overflows,
    overflows_at, rasterized, GlyphSample, HorizontalAlign, LayoutSettings, TextAsk, TextRequest, VerticalAlign,
};
use crate::weather::{description_of, is_weather_code, wmo_weather_code_to_str};

verus! {

/// The width of the column that holds calendar and weather.
pub const LEFT_COLUMN_WIDTH: usize = 200;

/// The height of the calendar, and of the weather under it.
pub const CALENDAR_HEIGHT: usize = 240;

/// The height of the area that holds the quote.
pub const QUOTE_HEIGHT: usize = 140;

/// The width of the area that holds the time of day.
pub const CLOCK_WIDTH: usize = 100;

/// The height of the area that holds the time of day.
pub const CLOCK_HEIGHT: usize = 40;

/// The width of the room for the image.
pub const IMAGE_WIDTH: usize = 600;

/// The height of the room for the image.
pub const IMAGE_HEIGHT: usize = 340;

/// The largest size at which a quote is set.
pub const QUOTE_MAX_SIZE: u32 = 30;

/// The height that the name of a day takes in the weather column.
pub const DAY_NAME_HEIGHT: usize = 28;

/// The height of the area that holds the weather of one day.
pub const DAY_WEATHER_HEIGHT: usize = 50;

/// The weather of one day: what kind it is, as a weather code, and what
/// was measured or is forecast, in words.
#[derive(Clone, Debug)]
pub struct WeatherLine {
    pub weather_code: usize,
    pub reading: String,
}

/// The weather now and on the two days to come.
#[derive(Clone, Debug)]
pub struct WeatherReport {
    pub now: WeatherLine,
    pub tomorrow: WeatherLine,
    pub day_after: WeatherLine,
}

impl WeatherReport {
    /// Every weather code of the report has a description.
    pub open spec fn wf(&self) -> bool {
        &&& is_weather_code(self.now.weather_code)
        &&& is_weather_code(self.tomorrow.weather_code)
        &&& is_weather_code(self.day_after.weather_code)
    }
}

/// What a dashboard shows, as the collaborators of this library hand it
/// in: the events to come, the weather, a quote, an image that has been
/// decoded and brought to a size of at most [`IMAGE_WIDTH`] by
/// [`IMAGE_HEIGHT`] pixels, and the time of day in words.
#[derive(Debug)]
pub struct DashboardData {
    pub events: Vec<Event>,
    pub weather: WeatherReport,
    pub quote: Quote,
    pub image: Raster,
    pub clock: String,
}

impl DashboardData {
    /// The data is sound: the weather codes have descriptions and the image
    /// has a pixel for each place.
    pub open spec fn wf(&self) -> bool {
        &&& self.weather.wf()
        &&& self.image.wf()
    }
}

/// `rasterize` can be asked for any text.
pub open spec fn rasterizes_all<F: Fn(TextRequest) -> Vec<GlyphSample>>(rasterize: &F) -> bool {
    forall|request: TextRequest| call_requires(rasterize, (request,))
}

/// No padding.
pub open spec fn no_padding() -> Padding {
    Padding { top: 0, bottom: 0, left: 0, right: 0 }
}

/// No outline.
pub open spec fn no_outline() -> Outline {
    Outline { top: 0, bottom: 0, left: 0, right: 0, color: PixelColor::White }
}

/// The box for a text on the canvas of `area`: it starts at `(x, y)` and
/// is as wide and as high as the canvas.
pub open spec fn boxed(
    area: AreaView,
    x: usize,
    y: usize,
    horizontal_align: HorizontalAlign,
    vertical_align: VerticalAlign,
) -> LayoutSettings {
    LayoutSettings {
        x,
        y,
        max_width: Some(area.canvas.width),
        max_height: Some(area.canvas.height),
        horizontal_align,
        vertical_align,
    }
}

/// Computes [`boxed`].
fn text_box(
    area: &Area,
    x: usize,
    y: usize,
    horizontal_align: HorizontalAlign,
    vertical_align: VerticalAlign,
) -> (settings: LayoutSettings)
    ensures
        settings == boxed(area@, x, y, horizontal_align, vertical_align),
{
    LayoutSettings {
        x,
        y,
        max_width: Some(area.get_available_hspace()),
        max_height: Some(area.get_available_vspace()),
        horizontal_align,
        vertical_align,
    }
}

/// Asks `rasterize` for the text of `request` and writes it to the canvas
/// of `area`. The second part of the result is the text that was given.
fn write_text<F: Fn(TextRequest) -> Vec<GlyphSample>>(
    area: &mut Area,
    rasterize: &F,
    request: TextRequest,
    coverage_threshold: u8,
) -> (done: (Result<(), RenderError>, Ghost<Seq<GlyphSample>>))
    requires
        old(area).wf(),
        rasterizes_all(rasterize),
    ensures
        final(area).wf(),
        old(area)@.repainted(final(area)@),
        rasterized(rasterize, request@, done.1@),
        done.0.is_ok() <==> old(area)@.holds_text(done.1@),
        done.0.is_ok() ==> final(area)@ == old(area)@.with_text(done.1@, coverage_threshold),
        done.0 matches Err(e) ==> e == RenderError::TextOverflow && final(area)@ == old(area)@,
        done.0.is_err() ==> overflows(rasterize, old(area)@, request@),
{
    let samples = rasterize(request);
    proof {
        lemma_with_text_keeps_geometry(area@, samples@, coverage_threshold);
    }
    let result = area.put_text(&samples, coverage_threshold);
    (result, Ghost(samples@))
}

/// Asks `rasterize` for the text of `request` at growing sizes and writes
/// it to the canvas of `area` at the largest size that fits, up to
/// `max_size`. The result is the text that was written, if any was.
fn write_fitted_text<F: Fn(TextRequest) -> Vec<GlyphSample>>(
    area: &mut Area,
    rasterize: &F,
    request: TextRequest,
    coverage_threshold: u8,
    max_size: u32,
) -> (written: Ghost<Option<Seq<GlyphSample>>>)
    requires
        old(area).wf(),
        rasterizes_all(rasterize),
    ensures
        final(area).wf(),
        old(area)@.repainted(final(area)@),
        fitted(rasterize, old(area)@, request@, max_size, written@),
        final(area)@ == old(area)@.with_written(written@, coverage_threshold),
{
    let ghost ask = request@;
    let at_size = |size: u32| -> (samples: Vec<GlyphSample>)
        ensures
            rasterized(rasterize, request@.at(size), samples@),
        {
            let sized = TextRequest {
                font: request.font,
                settings: request.settings,
                text: request.text.clone(),
                size,
            };
            rasterize(sized)
        };
    let ghost before = area@;
    let best = area.auto_layout_text_size(at_size, coverage_threshold, max_size);
    let ghost mut written: Option<Seq<GlyphSample>> = None;
    proof {
        assert forall|size: u32| #[trigger] may_fit(before, at_size, size) implies fits_at(
            rasterize,
            before,
            ask,
            size,
        ) by {
            let text = choose|text: Vec<GlyphSample>| #[trigger]
                call_ensures(at_size, (size,), text) && before.holds_text(text@);
            assert(rasterized(rasterize, ask.at(size), text@));
        }
        assert forall|size: u32| #[trigger] may_overflow(before, at_size, size) implies overflows_at(
            rasterize,
            before,
            ask,
            size,
        ) by {
            let text = choose|text: Vec<GlyphSample>| #[trigger]
                call_ensures(at_size, (size,), text) && !before.holds_text(text@);
            assert(rasterized(rasterize, ask.at(size), text@));
        }
        match best {
            Some(size) => {
                let samples = choose|samples: Vec<GlyphSample>| #[trigger]
                    call_ensures(at_size, (size,), samples) && before.holds_text(samples@)
                        && area@ == before.with_text(samples@, coverage_threshold);
                lemma_with_text_keeps_geometry(before, samples@, coverage_threshold);
                written = Some(samples@);
                assert(rasterized(rasterize, ask.at(size), samples@));
                assert forall|smaller: u32| 1 <= smaller <= size implies #[trigger] fits_at(
                    rasterize,
                    before,
                    ask,
                    smaller,
                ) by {
                    assert(may_fit(before, at_size, smaller));
                }
                if size < max_size {
                    assert(may_overflow(before, at_size, (size + 1) as u32));
                }
            },
            None => {
                if max_size > 0 {
                    assert(may_overflow(before, at_size, 1));
                }
            },
        }
    }
    Ghost(written)
}

/// Attaches `child` to `parent`, on whose canvas it has room.
fn attach(parent: &mut Area, child: Area)
    requires
        old(parent).wf(),
        child.wf(),
        old(parent)@.nested(),
        child@.nested(),
        old(parent)@.has_room_for(child@),
        old(parent)@.offset_x + old(parent)@.space.width <= EPD_WIDTH,
        old(parent)@.offset_y + old(parent)@.space.height <= EPD_HEIGHT,
    ensures
        final(parent).wf(),
        final(parent)@ == old(parent)@.attach(child@),
        final(parent)@.nested(),
        final(parent)@.children.len() == old(parent)@.children.len() + 1,
        final(parent)@.children.drop_last() == old(parent)@.children,
        final(parent)@.children.last() == child@.shifted(
            old(parent)@.canvas_x(),
            old(parent)@.canvas_y(),
        ),
{
    proof {
        lemma_nested_can_shift(child@, parent@.canvas_x(), parent@.canvas_y());
        lemma_attach_nested(parent@, child@);
    }
    let attached = parent.add_sub_area(child);
    assert(attached.is_ok());
    assert(parent@.children.drop_last() =~= old(parent)@.children);
}

/// Makes an area that is known to have room for its padding and outline.
fn make(
    x: usize,
    y: usize,
    width: usize,
    height: usize,
    fill: Color,
    padding: Padding,
    outline: Outline,
) -> (area: Area)
    requires
        padding.left + padding.right + outline.left + outline.right <= width,
        padding.top + padding.bottom + outline.top + outline.bottom <= height,
    ensures
        area.wf(),
        area@ == AreaView::fresh(x, y, width, height, fill, padding, outline),
        area@.nested(),
{
    match Area::new(x, y, width, height, fill, padding, outline) {
        Ok(area) => area,
        Err(_) => vstd::pervasive::unreached(),
    }
}

/// The area of the quote before anything is written to it.
pub open spec fn quote_blank() -> AreaView {
    AreaView::fresh(
        0,
        IMAGE_HEIGHT,
        IMAGE_WIDTH,
        QUOTE_HEIGHT,
        Color::White,
        (Padding { top: 2, bottom: 2, left: 2, right: 2 }),
        (Outline { top: 1, bottom: 0, left: 0, right: 0, color: PixelColor::Black }),
    )
}

/// What is asked for to show a quote; the size is left open.
pub open spec fn quote_ask(content: Seq<char>) -> TextAsk {
    let blank = quote_blank();
    TextAsk {
        font: Font::Wellfleet,
        settings: boxed(
            blank,
            blank.canvas.x,
            blank.canvas.y,
            HorizontalAlign::Left,
            VerticalAlign::Top,
        ),
        text: content,
        size: 0,
    }
}

/// The area of the quote with the quote written to it.
pub open spec fn quote_panel(written: Option<Seq<GlyphSample>>) -> AreaView {
    quote_blank().with_written(written, 100)
}

/// Makes the area of the quote, with the quote as large as it fits. A
/// quote that does not fit at any size is left out.
fn create_quote<F: Fn(TextRequest) -> Vec<GlyphSample>>(quote: &Quote, rasterize: &F) -> (made: (
    Area,
    Ghost<Option<Seq<GlyphSample>>>,
))
    requires
        rasterizes_all(rasterize),
    ensures
        made.0.wf(),
        made.0@ == quote_panel(made.1@),
        fitted(rasterize, quote_blank(), quote_ask(quote.content@), QUOTE_MAX_SIZE, made.1@),
{
    let mut quote_area = make(
        0,
        IMAGE_HEIGHT,
        IMAGE_WIDTH,
        QUOTE_HEIGHT,
        Color::White,
        Padding::full(2),
        Outline { top: 1, bottom: 0, left: 0, right: 0, color: PixelColor::Black },
    );
    let settings = text_box(
        &quote_area,
        quote_area.get_hstart(),
        quote_area.get_vstart(),
        HorizontalAlign::Left,
        VerticalAlign::Top,
    );
    let request = TextRequest {
        font: Font::Wellfleet,
        settings,
        text: quote.content.clone(),
        size: 0,
    };
    let written = write_fitted_text(&mut quote_area, rasterize, request, 100, QUOTE_MAX_SIZE);
    (quote_area, written)
}

/// The area of the time of day before anything is written to it.
pub open spec fn clock_blank() -> AreaView {
    AreaView::fresh(
        (IMAGE_WIDTH - CLOCK_WIDTH) as usize,
        0,
        CLOCK_WIDTH,
        CLOCK_HEIGHT,
        Color::White,
        no_padding(),
        (Outline { top: 0, bottom: 1, left: 1, right: 0, color: PixelColor::Black }),
    )
}

/// What is asked for to show the time of day.
pub open spec fn clock_ask(clock: Seq<char>) -> TextAsk {
    TextAsk {
        font: Font::Wellfleet,
        settings: boxed(clock_blank(), 0, 0, HorizontalAlign::Center, VerticalAlign::Top),
        text: clock,
        size: 32,
    }
}

/// The area of the time of day with the time written to it.
pub open spec fn clock_panel(samples: Seq<GlyphSample>) -> AreaView {
    clock_blank().with_text(samples, 110)
}

/// Makes the area of the time of day.
fn create_clock<F: Fn(TextRequest) -> Vec<GlyphSample>>(clock: &String, rasterize: &F) -> (made: (
    Result<Area, RenderError>,
    Ghost<Seq<GlyphSample>>,
))
    requires
        rasterizes_all(rasterize),
    ensures
        rasterized(rasterize, clock_ask(clock@), made.1@),
        made.0.is_ok() <==> clock_blank().holds_text(made.1@),
        made.0 matches Ok(area) ==> area.wf() && area@ == clock_panel(made.1@),
        made.0 matches Err(e) ==> e == RenderError::TextOverflow,
        made.0.is_err() ==> overflows(rasterize, clock_blank(), clock_ask(clock@)),
{
    let mut clock_area = make(
        IMAGE_WIDTH - CLOCK_WIDTH,
        0,
        CLOCK_WIDTH,
        CLOCK_HEIGHT,
        Color::White,
        Padding::full(0),
        Outline { top: 0, bottom: 1, left: 1, right: 0, color: PixelColor::Black },
    );
    let settings = text_box(&clock_area, 0, 0, HorizontalAlign::Center, VerticalAlign::Top);
    let request = TextRequest { font: Font::Wellfleet, settings, text: clock.clone(), size: 32 };
    let (written, samples) = write_text(&mut clock_area, rasterize, request, 110);
    match written {
        Ok(()) => (Ok(clock_area), samples),
        Err(error) => (Err(error), samples),
    }
}

/// The image has room in the area that is kept for it.
pub open spec fn image_has_room(image: RasterView) -> bool {
    image.width <= IMAGE_WIDTH && image.height <= IMAGE_HEIGHT
}

/// Where an image of `size` pixels starts on a canvas of `room` pixels when
/// it is centred.
pub open spec fn centered(room: int, size: int) -> int {
    (room - size) / 2
}

/// The area of the image, with the image in its middle.
pub open spec fn image_panel(image: RasterView) -> AreaView {
    AreaView::fresh(
        0,
        0,
        IMAGE_WIDTH,
        IMAGE_HEIGHT,
        Color::White,
        no_padding(),
        no_outline(),
    ).with_image(
        centered(IMAGE_WIDTH as int, image.width as int),
        centered(IMAGE_HEIGHT as int, image.height as int),
        image,
    )
}

/// Makes the area of the image, with `image` in its middle. An image that
/// is larger than the area is refused.
fn create_image(image: &Raster) -> (made: Result<Area, RenderError>)
    requires
        image.wf(),
    ensures
        made.is_ok() <==> image_has_room(image@),
        made matches Ok(area) ==> area.wf() && area@ == image_panel(image@),
        made matches Err(e) ==> e == RenderError::ImageOverflow,
{
    let mut image_area = make(
        0,
        0,
        IMAGE_WIDTH,
        IMAGE_HEIGHT,
        Color::White,
        Padding::full(0),
        Outline::none(),
    );
    let room_x = image_area.get_available_hspace();
    let room_y = image_area.get_available_vspace();
    if image.width() > room_x || image.height() > room_y {
        return Err(RenderError::ImageOverflow);
    }
    let x = (room_x - image.width()) / 2;
    let y = (room_y - image.height()) / 2;
    match image_area.load_image(x, y, image) {
        Ok(()) => Ok(image_area),
        Err(error) => Err(error),
    }
}

/// The area of a row of the calendar before the text of the row is
/// written to it: `width` pixels wide, at its row of the canvas. The heading
/// of a day has a border, the line of an event has none.
pub open spec fn row_blank(row: PlacedRow, width: usize) -> AreaView {
    match row.row {
        AgendaRow::Heading(_) => AreaView::fresh(
            0,
            row.y,
            width,
            DATE_HEIGHT,
            Color::White,
            no_padding(),
            (Outline { top: 2, bottom: 2, left: 2, right: 2, color: PixelColor::Black }),
        ),
        AgendaRow::Entry(_) => AreaView::fresh(
            0,
            row.y,
            width,
            EVENT_HEIGHT,
            Color::White,
            no_padding(),
            no_outline(),
        ),
    }
}

/// What a row of the calendar says: the heading of its day, or the line of
/// its event.
pub open spec fn row_text(events: Seq<Event>, row: AgendaRow) -> Seq<char> {
    match row {
        AgendaRow::Heading(day) => heading_from(day_label_text(day)),
        AgendaRow::Entry(event) => fitted_title(
            line_from(events[event as int].time, start_clock(events[event as int].time), events[event as int].title@),
        ),
    }
}

/// The coverage above which the text of a row is black.
pub open spec fn row_threshold(row: AgendaRow) -> u8 {
    match row {
        AgendaRow::Heading(_) => 50,
        AgendaRow::Entry(_) => 20,
    }
}

/// What is asked for to show a row of the calendar.
pub open spec fn row_ask(events: Seq<Event>, row: PlacedRow, width: usize) -> TextAsk {
    let blank = row_blank(row, width);
    match row.row {
        AgendaRow::Heading(_) => TextAsk {
            font: Font::Wellfleet,
            settings: boxed(
                blank,
                blank.canvas.x,
                blank.canvas.y,
                HorizontalAlign::Center,
                VerticalAlign::Middle,
            ),
            text: row_text(events, row.row),
            size: 23,
        },
        AgendaRow::Entry(_) => TextAsk {
            font: Font::Dina,
            settings: boxed(
                blank,
                blank.canvas.x,
                blank.canvas.y,
                HorizontalAlign::Left,
                VerticalAlign::Middle,
            ),
            text: row_text(events, row.row),
            size: 22,
        },
    }
}

/// The area of a row of the calendar with its text written to it.
pub open spec fn row_panel(row: PlacedRow, width: usize, samples: Seq<GlyphSample>) -> AreaView {
    row_blank(row, width).with_text(samples, row_threshold(row.row))
}

/// `base` with an area attached for each of `rows`, in their order, each
/// with its text of `texts`.
pub open spec fn with_rows(
    base: AreaView,
    rows: Seq<PlacedRow>,
    texts: Seq<Seq<GlyphSample>>,
) -> AreaView
    decreases rows.len(),
{
    if rows.len() == 0 {
        base
    } else {
        with_rows(base, rows.drop_last(), texts.drop_last()).attach(
            row_panel(rows.last(), base.canvas.width, texts.last()),
        )
    }
}

/// `texts` are texts for `rows`, one for each: what `rasterize` gave when
/// it was asked for the text of the row, all of it on the canvas of the row.
pub open spec fn rows_rasterized<F: Fn(TextRequest) -> Vec<GlyphSample>>(
    rasterize: &F,
    events: Seq<Event>,
    rows: Seq<PlacedRow>,
    width: usize,
    texts: Seq<Seq<GlyphSample>>,
) -> bool {
    &&& texts.len() == rows.len()
    &&& forall|k: int|
        0 <= k < rows.len() ==> rasterized(
            rasterize,
            row_ask(events, rows[k], width),
            #[trigger] texts[k],
        ) && row_blank(rows[k], width).holds_text(texts[k])
}

/// The text of one of `rows` may leave the canvas of its row: of what
/// `rasterize` may give when it is asked for it, something does.
pub open spec fn row_overflows<F: Fn(TextRequest) -> Vec<GlyphSample>>(
    rasterize: &F,
    events: Seq<Event>,
    rows: Seq<PlacedRow>,
    width: usize,
) -> bool {
    exists|k: int|
        0 <= k < rows.len() && overflows(
            rasterize,
            row_blank(#[trigger] rows[k], width),
            row_ask(events, rows[k], width),
        )
}

/// The area of the calendar before anything is attached to it.
pub open spec fn calendar_blank() -> AreaView {
    AreaView::fresh(
        0,
        0,
        LEFT_COLUMN_WIDTH,
        CALENDAR_HEIGHT,
        Color::White,
        (Padding { top: 2, bottom: 2, left: 2, right: 2 }),
        (Outline { top: 0, bottom: 1, left: 0, right: 1, color: PixelColor::Black }),
    )
}

/// The rows that the calendar shows of `events`. They start at the row of
/// the canvas whose number is the row at which the canvas starts in the area.
pub open spec fn calendar_rows(events: Seq<Event>) -> Seq<PlacedRow> {
    agenda(events, calendar_blank().canvas.y as int, calendar_blank().canvas.height as int)
}

/// The area of the calendar with an area attached for each row that it
/// shows of `events`.
pub open spec fn calendar_panel(events: Seq<Event>, texts: Seq<Seq<GlyphSample>>) -> AreaView {
    with_rows(calendar_blank(), calendar_rows(events), texts)
}

/// `after` is `before` with one more area attached for each of `rows`, in
/// their order: each at the row of the canvas that the row is placed at, as
/// wide as the canvas and as high as a row of its kind.
pub open spec fn shows_rows(before: AreaView, after: AreaView, rows: Seq<PlacedRow>) -> bool {
    let first = before.children.len() as int;
    &&& after.children.len() == first + rows.len()
    &&& forall|k: int|
        0 <= k < rows.len() ==> (#[trigger] after.children[first + k]).placed(
            before.canvas_x(),
            before.canvas_y() + rows[k].y,
            before.canvas.width as int,
            row_height(rows[k].row),
        )
}

/// Shows a row of the calendar in an area of its own, at its row of the
/// canvas of `cal`. The second part of the result is the text of the row,
/// as it was rasterised.
fn show_row<F: Fn(TextRequest) -> Vec<GlyphSample>>(
    cal: &mut Area,
    rasterize: &F,
    events: &Vec<Event>,
    row: PlacedRow,
) -> (done: (Result<(), RenderError>, Ghost<Seq<GlyphSample>>))
    requires
        old(cal).wf(),
        old(cal)@.nested(),
        old(cal)@.offset_x + old(cal)@.space.width <= EPD_WIDTH,
        old(cal)@.offset_y + old(cal)@.space.height <= EPD_HEIGHT,
        row_of(events@, row.row),
        row.y + row_height(row.row) <= old(cal)@.canvas.height,
        4 <= old(cal)@.canvas.width,
        rasterizes_all(rasterize),
    ensures
        final(cal).wf(),
        final(cal)@.nested(),
        old(cal)@.same_geometry(final(cal)@),
        rasterized(rasterize, row_ask(events@, row, old(cal)@.canvas.width), done.1@),
        done.0.is_ok() <==> row_blank(row, old(cal)@.canvas.width).holds_text(done.1@),
        done.0.is_ok() ==> final(cal)@ == old(cal)@.attach(
            row_panel(row, old(cal)@.canvas.width, done.1@),
        ),
        done.0.is_ok() ==> shows_rows(old(cal)@, final(cal)@, seq![row]),
        done.0 matches Err(e) ==> e == RenderError::TextOverflow && final(cal)@ == old(cal)@,
        done.0.is_err() ==> overflows(
            rasterize,
            row_blank(row, old(cal)@.canvas.width),
            row_ask(events@, row, old(cal)@.canvas.width),
        ),
{
    let width = cal.get_available_hspace();
    let (mut row_area, request, threshold) = match row.row {
        AgendaRow::Heading(day) => {
            let area = make(0, row.y, width, DATE_HEIGHT, Color::White, Padding::full(0), Outline::default());
            let settings = text_box(
                &area,
                area.get_hstart(),
                area.get_vstart(),
                HorizontalAlign::Center,
                VerticalAlign::Middle,
            );
            let request = TextRequest {
                font: Font::Wellfleet,
                settings,
                text: day_heading(day),
                size: 23,
            };
            (area, request, 50u8)
        },
        AgendaRow::Entry(event) => {
            let area = make(0, row.y, width, EVENT_HEIGHT, Color::White, Padding::full(0), Outline::none());
            let settings = text_box(
                &area,
                area.get_hstart(),
                area.get_vstart(),
                HorizontalAlign::Left,
                VerticalAlign::Middle,
            );
            let request = TextRequest {
                font: Font::Dina,
                settings,
                text: event_line(&events[event]),
                size: 22,
            };
            (area, request, 20u8)
        },
    };
    let (written, samples) = write_text(&mut row_area, rasterize, request, threshold);
    match written {
        Ok(()) => {
            attach(cal, row_area);
            (Ok(()), samples)
        },
        Err(error) => (Err(error), samples),
    }
}

/// Makes the area of the calendar. It shows the events grouped by day: the
/// days from the earliest on, each with a heading and, under it, its events
/// in the order in which they were given, up to the first row that does not
/// find room; see [`agenda`]. The second part of the result are the texts of
/// the rows, as they were rasterised.
fn create_calendar_day_grouped<F: Fn(TextRequest) -> Vec<GlyphSample>>(
    events: &Vec<Event>,
    rasterize: &F,
) -> (made: (Result<Area, RenderError>, Ghost<Seq<Seq<GlyphSample>>>))
    requires
        rasterizes_all(rasterize),
    ensures
        made.0 matches Ok(area) ==> {
            &&& area.wf()
            &&& area@.nested()
            &&& area@ == calendar_panel(events@, made.1@)
            &&& rows_rasterized(
                rasterize,
                events@,
                calendar_rows(events@),
                calendar_blank().canvas.width,
                made.1@,
            )
            &&& calendar_blank().same_geometry(area@)
            &&& shows_rows(calendar_blank(), area@, calendar_rows(events@))
        },
        made.0 matches Err(e) ==> e == RenderError::TextOverflow,
        made.0.is_err() ==> row_overflows(
            rasterize,
            events@,
            calendar_rows(events@),
            calendar_blank().canvas.width,
        ),
{
    let mut cal = make(
        0,
        0,
        LEFT_COLUMN_WIDTH,
        CALENDAR_HEIGHT,
        Color::White,
        Padding::full(2),
        Outline { top: 0, bottom: 1, left: 0, right: 1, color: PixelColor::Black },
    );
    let ghost blank = cal@;
    let ghost width = blank.canvas.width;
    let rows = plan_agenda(events, cal.get_vstart(), cal.get_available_vspace());
    let ghost mut texts: Seq<Seq<GlyphSample>> = Seq::empty();
    let mut k: usize = 0;
    assert(rows@.take(0) =~= Seq::empty());
    while k < rows.len()
        invariant
            k <= rows.len(),
            cal.wf(),
            cal@.nested(),
            blank == calendar_blank(),
            width == blank.canvas.width,
            blank.same_geometry(cal@),
            rasterizes_all(rasterize),
            rows@ == calendar_rows(events@),
            forall|i: int|
                0 <= i < rows.len() ==> row_of(events@, (#[trigger] rows[i]).row) && row_fits(
                    rows[i].row,
                    rows[i].y as int,
                    blank.canvas.height as int,
                ),
            cal@ == with_rows(blank, rows@.take(k as int), texts),
            rows_rasterized(rasterize, events@, rows@.take(k as int), width, texts),
            shows_rows(blank, cal@, rows@.take(k as int)),
        decreases rows.len() - k,
    {
        let ghost before = cal@;
        let (shown, text) = show_row(&mut cal, rasterize, events, rows[k]);
        match shown {
            Ok(()) => {},
            Err(error) => {
                assert(overflows(
                    rasterize,
                    row_blank(rows@[k as int], width),
                    row_ask(events@, rows@[k as int], width),
                ));
                return (Err(error), Ghost(texts));
            },
        }
        proof {
            let fewer = rows@.take(k as int);
            let more = rows@.take(k + 1);
            let old_texts = texts;
            texts = texts.push(text@);
            assert(more.drop_last() =~= fewer);
            assert(more.last() == rows@[k as int]);
            assert(texts.drop_last() =~= old_texts);
            assert(texts.last() == text@);
            assert forall|i: int| 0 <= i < more.len() implies rasterized(
                rasterize,
                row_ask(events@, more[i], width),
                #[trigger] texts[i],
            ) && row_blank(more[i], width).holds_text(texts[i]) by {
                if i < k {
                    assert(more[i] == fewer[i]);
                    assert(texts[i] == old_texts[i]);
                }
            }
            let first = blank.children.len() as int;
            assert forall|i: int| 0 <= i < more.len() implies (#[trigger] cal@.children[first + i]).placed(
                blank.canvas_x(),
                blank.canvas_y() + more[i].y,
                blank.canvas.width as int,
                row_height(more[i].row),
            ) by {
                if i < k {
                    assert(cal@.children[first + i] == before.children[first + i]);
                    assert(more[i] == fewer[i]);
                } else {
                    assert(cal@.children[first + i] == cal@.children[before.children.len() as int + 0]);
                    assert(seq![rows@[k as int]][0] == more[i]);
                }
            }
        }
        k += 1;
    }
    assert(rows@.take(rows.len() as int) =~= rows@);
    (Ok(cal), Ghost(texts))
}

/// What was rasterised to show the weather of one day: the name of the
/// day, the description of the weather, if it was written, and what was
/// measured or is forecast.
pub struct DayTexts {
    pub name: Seq<GlyphSample>,
    pub description: Option<Seq<GlyphSample>>,
    pub reading: Seq<GlyphSample>,
}

/// The area of the weather before anything is written or attached to it.
pub open spec fn weather_blank() -> AreaView {
    AreaView::fresh(
        0,
        CALENDAR_HEIGHT,
        LEFT_COLUMN_WIDTH,
        CALENDAR_HEIGHT,
        Color::White,
        (Padding { top: 2, bottom: 2, left: 2, right: 2 }),
        (Outline { top: 1, bottom: 0, left: 0, right: 1, color: PixelColor::Black }),
    )
}

/// The row of the canvas of the weather at which day number `k` starts;
/// now is day 0.
pub open spec fn day_top(k: int) -> int {
    k * (DAY_NAME_HEIGHT + DAY_WEATHER_HEIGHT)
}

/// The name of day number `k`.
pub open spec fn day_name(k: int) -> Seq<char> {
    if k == 0 {
        "Now"@
    } else if k == 1 {
        "Tomorrow"@
    } else {
        "Tomorrow++"@
    }
}

/// What is asked for to show the name of day number `k`.
pub open spec fn name_ask(k: int) -> TextAsk {
    let blank = weather_blank();
    TextAsk {
        font: Font::Wellfleet,
        settings: boxed(
            blank,
            blank.canvas.x,
            day_top(k) as usize,
            HorizontalAlign::Center,
            VerticalAlign::Top,
        ),
        text: day_name(k),
        size: 23,
    }
}

/// The area of the weather of day number `k` before anything is written
/// to it.
pub open spec fn day_blank(k: int) -> AreaView {
    AreaView::fresh(
        0,
        (day_top(k) + DAY_NAME_HEIGHT) as usize,
        weather_blank().canvas.width,
        DAY_WEATHER_HEIGHT,
        Color::White,
        no_padding(),
        (Outline { top: 1, bottom: 1, left: 0, right: 0, color: PixelColor::Black }),
    )
}

/// The description of the weather of a day.
pub open spec fn description_text(line: WeatherLine) -> Seq<char> {
    description_of(line.weather_code).unwrap()
}

/// What is asked for to show the description of the weather of day number
/// `k`; the size is left open. For the days to come the box is 18 rows high.
pub open spec fn description_ask(k: int, line: WeatherLine) -> TextAsk {
    let blank = day_blank(k);
    TextAsk {
        font: Font::Dina,
        settings: LayoutSettings {
            x: blank.canvas.x,
            y: 0,
            max_width: Some(blank.canvas.width),
            max_height: Some(
                if k == 0 {
                    blank.canvas.height
                } else {
                    18
                },
            ),
            horizontal_align: HorizontalAlign::Center,
            vertical_align: VerticalAlign::Top,
        },
        text: description_text(line),
        size: 0,
    }
}

/// The largest size at which the description of the weather of day number
/// `k` is set: 24, and 20 for a description of 19 characters or more of a
/// day to come.
pub open spec fn description_max_size(k: int, line: WeatherLine) -> u32 {
    if k != 0 && description_text(line).len() >= 19 {
        20
    } else {
        24
    }
}

/// What is asked for to show what was measured, or is forecast, for day
/// number `k`.
pub open spec fn reading_ask(k: int, line: WeatherLine) -> TextAsk {
    let blank = day_blank(k);
    TextAsk {
        font: Font::Dina,
        settings: boxed(blank, blank.canvas.x, 28, HorizontalAlign::Center, VerticalAlign::Top),
        text: line.reading@,
        size: 20,
    }
}

/// The area of the weather of day number `k` with its texts written to it.
pub open spec fn day_panel(k: int, texts: DayTexts) -> AreaView {
    day_blank(k).with_written(texts.description, 40).with_text(texts.reading, 40)
}

/// `base` with the name of day number `k` written to it and the area of
/// the weather of that day attached.
pub open spec fn with_day(base: AreaView, k: int, texts: DayTexts) -> AreaView {
    base.with_text(texts.name, 100).attach(day_panel(k, texts))
}

/// `texts` are the texts for the weather `line` of day number `k`: what
/// `rasterize` gave when it was asked for them. Name and reading lie on their
/// canvas; the description is what the search for its largest size ended
/// with.
pub open spec fn day_rasterized<F: Fn(TextRequest) -> Vec<GlyphSample>>(
    rasterize: &F,
    k: int,
    line: WeatherLine,
    texts: DayTexts,
) -> bool {
    &&& rasterized(rasterize, name_ask(k), texts.name)
    &&& weather_blank().holds_text(texts.name)
    &&& fitted(
        rasterize,
        day_blank(k),
        description_ask(k, line),
        description_max_size(k, line),
        texts.description,
    )
    &&& rasterized(rasterize, reading_ask(k, line), texts.reading)
    &&& day_blank(k).holds_text(texts.reading)
}

/// A text of the weather `line` of day number `k` that has a fixed size
/// may leave its canvas: of what `rasterize` may give when it is asked for
/// the name of the day, or for the reading, something does.
pub open spec fn day_overflows<F: Fn(TextRequest) -> Vec<GlyphSample>>(
    rasterize: &F,
    k: int,
    line: WeatherLine,
) -> bool {
    ||| overflows(rasterize, weather_blank(), name_ask(k))
    ||| overflows(rasterize, day_blank(k), reading_ask(k, line))
}

/// The area of the weather with the weather of three days.
pub open spec fn weather_panel(days: Seq<DayTexts>) -> AreaView {
    with_day(with_day(with_day(weather_blank(), 0, days[0]), 1, days[1]), 2, days[2])
}

/// `after` is `before` with one more area attached, which lies at row `y`
/// of the canvas, is as wide as the canvas and `height` pixels high.
pub open spec fn has_new_row(before: AreaView, after: AreaView, y: int, height: int) -> bool {
    &&& after.children.len() == before.children.len() + 1
    &&& after.children.drop_last() == before.children
    &&& after.children.last().placed(
        before.canvas_x(),
        before.canvas_y() + y,
        before.canvas.width as int,
        height,
    )
}

/// Shows the weather of day number `k` in an area of its own, under the
/// name of the day. The second part of the result are the texts that were
/// rasterised; after a failure they mean nothing.
fn show_weather_for_day<F: Fn(TextRequest) -> Vec<GlyphSample>>(
    weather_area: &mut Area,
    rasterize: &F,
    k: usize,
    line: &WeatherLine,
) -> (done: (Result<(), RenderError>, Ghost<DayTexts>))
    requires
        old(weather_area).wf(),
        old(weather_area)@.nested(),
        weather_blank().same_geometry(old(weather_area)@),
        k < 3,
        rasterizes_all(rasterize),
        is_weather_code(line.weather_code),
    ensures
        final(weather_area).wf(),
        final(weather_area)@.nested(),
        old(weather_area)@.same_geometry(final(weather_area)@),
        done.0.is_ok() ==> {
            &&& day_rasterized(rasterize, k as int, *line, done.1@)
            &&& final(weather_area)@ == with_day(old(weather_area)@, k as int, done.1@)
            &&& has_new_row(
                old(weather_area)@,
                final(weather_area)@,
                day_top(k as int) + DAY_NAME_HEIGHT,
                DAY_WEATHER_HEIGHT as int,
            )
        },
        done.0 matches Err(e) ==> e == RenderError::TextOverflow,
        done.0.is_err() ==> day_overflows(rasterize, k as int, *line),
{
    let ghost mut texts = DayTexts { name: Seq::empty(), description: None, reading: Seq::empty() };
    let top = k * (DAY_NAME_HEIGHT + DAY_WEATHER_HEIGHT);
    let name = if k == 0 {
        "Now"
    } else if k == 1 {
        "Tomorrow"
    } else {
        "Tomorrow++"
    };
    let name_settings = text_box(
        weather_area,
        weather_area.get_hstart(),
        top,
        HorizontalAlign::Center,
        VerticalAlign::Top,
    );
    let request = TextRequest {
        font: Font::Wellfleet,
        settings: name_settings,
        text: String::from_str(name),
        size: 23,
    };
    let ghost before = weather_area@;
    let (written, samples) = write_text(weather_area, rasterize, request, 100);
    match written {
        Ok(()) => {},
        Err(error) => {
            return (Err(error), Ghost(texts));
        },
    }
    let mut day_area = make(
        0,
        top + DAY_NAME_HEIGHT,
        weather_area.get_available_hspace(),
        DAY_WEATHER_HEIGHT,
        Color::White,
        Padding::full(0),
        Outline { top: 1, bottom: 1, left: 0, right: 0, color: PixelColor::Black },
    );
    let description = wmo_weather_code_to_str(line.weather_code);
    let max_size: u32 = if k != 0 && description.unicode_len() >= 19 {
        20
    } else {
        24
    };
    let max_height = if k == 0 {
        day_area.get_available_vspace()
    } else {
        18
    };
    let description_settings = LayoutSettings {
        x: day_area.get_hstart(),
        y: 0,
        max_width: Some(day_area.get_available_hspace()),
        max_height: Some(max_height),
        horizontal_align: HorizontalAlign::Center,
        vertical_align: VerticalAlign::Top,
    };
    let request = TextRequest {
        font: Font::Dina,
        settings: description_settings,
        text: String::from_str(description),
        size: 0,
    };
    let fitted_text = write_fitted_text(&mut day_area, rasterize, request, 40, max_size);
    let reading_settings = text_box(
        &day_area,
        day_area.get_hstart(),
        28,
        HorizontalAlign::Center,
        VerticalAlign::Top,
    );
    let request = TextRequest {
        font: Font::Dina,
        settings: reading_settings,
        text: line.reading.clone(),
        size: 20,
    };
    let (written, reading) = write_text(&mut day_area, rasterize, request, 40);
    match written {
        Ok(()) => {},
        Err(error) => {
            return (Err(error), Ghost(texts));
        },
    }
    proof {
        texts = DayTexts { name: samples@, description: fitted_text@, reading: reading@ };
    }
    attach(weather_area, day_area);
    (Ok(()), Ghost(texts))
}

/// A text of the weather that has a fixed size may leave its canvas.
pub open spec fn weather_overflows<F: Fn(TextRequest) -> Vec<GlyphSample>>(
    rasterize: &F,
    weather: WeatherReport,
) -> bool {
    ||| day_overflows(rasterize, 0, weather.now)
    ||| day_overflows(rasterize, 1, weather.tomorrow)
    ||| day_overflows(rasterize, 2, weather.day_after)
}

/// Makes the area of the weather: the weather of now, of tomorrow and of
/// the day after, one under the other. The second part of the result are
/// the texts that were rasterised, day by day.
fn create_weather<F: Fn(TextRequest) -> Vec<GlyphSample>>(weather: &WeatherReport, rasterize: &F) -> (made: (
    Result<Area, RenderError>,
    Ghost<Seq<DayTexts>>,
))
    requires
        rasterizes_all(rasterize),
        weather.wf(),
    ensures
        made.0 matches Ok(area) ==> {
            &&& area.wf()
            &&& area@.nested()
            &&& area@ == weather_panel(made.1@)
            &&& made.1@.len() == 3
            &&& day_rasterized(rasterize, 0, weather.now, made.1@[0])
            &&& day_rasterized(rasterize, 1, weather.tomorrow, made.1@[1])
            &&& day_rasterized(rasterize, 2, weather.day_after, made.1@[2])
            &&& weather_blank().same_geometry(area@)
            &&& is_weather(area@)
        },
        made.0 matches Err(e) ==> e == RenderError::TextOverflow,
        made.0.is_err() ==> weather_overflows(rasterize, *weather),
{
    let mut weather_area = make(
        0,
        CALENDAR_HEIGHT,
        LEFT_COLUMN_WIDTH,
        CALENDAR_HEIGHT,
        Color::White,
        Padding::full(2),
        Outline { top: 1, bottom: 0, left: 0, right: 1, color: PixelColor::Black },
    );
    let (shown, now) = show_weather_for_day(&mut weather_area, rasterize, 0, &weather.now);
    match shown {
        Ok(()) => {},
        Err(error) => {
            return (Err(error), Ghost(Seq::empty()));
        },
    }
    let (shown, tomorrow) = show_weather_for_day(&mut weather_area, rasterize, 1, &weather.tomorrow);
    match shown {
        Ok(()) => {},
        Err(error) => {
            return (Err(error), Ghost(Seq::empty()));
        },
    }
    let (shown, day_after) = show_weather_for_day(
        &mut weather_area,
        rasterize,
        2,
        &weather.day_after,
    );
    match shown {
        Ok(()) => {},
        Err(error) => {
            return (Err(error), Ghost(Seq::empty()));
        },
    }
    proof {
        let areas = weather_area@.children;
        assert(areas.drop_last().drop_last()[0] == areas[0]);
        assert(areas.drop_last()[1] == areas[1]);
    }
    let ghost days = Seq::empty().push(now@).push(tomorrow@).push(day_after@);
    (Ok(weather_area), Ghost(days))
}

/// The canvas of the calendar, in the area of the calendar.
pub open spec fn calendar_canvas() -> Rect {
    Rect { x: 2, y: 2, width: 195, height: 235 }
}

/// The canvas of the weather, in the area of the weather.
pub open spec fn weather_canvas() -> Rect {
    Rect { x: 2, y: 3, width: 195, height: 235 }
}

/// `calendar` is the calendar of a dashboard that shows `events`: it has
/// one area for each row of the [`agenda`], in their order, each at its row
/// of the canvas, as wide as the canvas and as high as a row of its kind.
pub open spec fn is_calendar(calendar: AreaView, events: Seq<Event>) -> bool {
    let canvas = calendar_canvas();
    let rows = agenda(events, canvas.y as int, canvas.height as int);
    &&& calendar.canvas == canvas
    &&& calendar.children.len() == rows.len()
    &&& forall|k: int|
        0 <= k < rows.len() ==> (#[trigger] calendar.children[k]).placed(
            canvas.x as int,
            canvas.y + rows[k].y,
            canvas.width as int,
            row_height(rows[k].row),
        )
}

/// `weather` is the weather of a dashboard: it has three areas, for now,
/// tomorrow and the day after, one under the other, each under the name of
/// its day.
pub open spec fn is_weather(weather: AreaView) -> bool {
    let canvas = weather_canvas();
    let step = DAY_NAME_HEIGHT + DAY_WEATHER_HEIGHT;
    &&& weather.canvas == canvas
    &&& weather.children.len() == 3
    &&& weather.children[0].placed(
        canvas.x as int,
        CALENDAR_HEIGHT + canvas.y + DAY_NAME_HEIGHT,
        canvas.width as int,
        DAY_WEATHER_HEIGHT as int,
    )
    &&& weather.children[1].placed(
        canvas.x as int,
        CALENDAR_HEIGHT + canvas.y + step + DAY_NAME_HEIGHT,
        canvas.width as int,
        DAY_WEATHER_HEIGHT as int,
    )
    &&& weather.children[2].placed(
        canvas.x as int,
        CALENDAR_HEIGHT + canvas.y + 2 * step + DAY_NAME_HEIGHT,
        canvas.width as int,
        DAY_WEATHER_HEIGHT as int,
    )
}

/// What the collaborators rasterised for a dashboard.
pub struct Outcomes {
    /// The quote, if it was written.
    pub quote: Option<Seq<GlyphSample>>,
    /// The time of day.
    pub clock: Seq<GlyphSample>,
    /// The rows of the calendar, row by row.
    pub rows: Seq<Seq<GlyphSample>>,
    /// The weather, day by day.
    pub days: Seq<DayTexts>,
}

/// The left column before anything is attached to it.
pub open spec fn left_blank() -> AreaView {
    AreaView::fresh(
        0,
        0,
        LEFT_COLUMN_WIDTH,
        EPD_HEIGHT,
        Color::Black,
        no_padding(),
        no_outline(),
    )
}

/// The right column before anything is attached to it.
pub open spec fn right_blank() -> AreaView {
    AreaView::fresh(
        LEFT_COLUMN_WIDTH,
        0,
        (EPD_WIDTH - LEFT_COLUMN_WIDTH) as usize,
        EPD_HEIGHT,
        Color::White,
        no_padding(),
        no_outline(),
    )
}

/// The area that covers the display, before anything is attached to it.
pub open spec fn total_blank() -> AreaView {
    AreaView::fresh(0, 0, EPD_WIDTH, EPD_HEIGHT, Color::White, no_padding(), no_outline())
}

/// The left column of a dashboard: the calendar, and the weather under it.
pub open spec fn left_column(events: Seq<Event>, texts: Outcomes) -> AreaView {
    left_blank().attach(calendar_panel(events, texts.rows)).attach(weather_panel(texts.days))
}

/// The right column of a dashboard: the image, the quote under it, and the
/// time of day in the top right corner, over the image.
pub open spec fn right_column(image: RasterView, texts: Outcomes) -> AreaView {
    right_blank().attach(image_panel(image)).attach(quote_panel(texts.quote)).attach(
        clock_panel(texts.clock),
    )
}

/// The tree of areas of the dashboard that shows `events` and `image`,
/// where the collaborators rasterised `texts`.
pub open spec fn dashboard_tree(events: Seq<Event>, image: RasterView, texts: Outcomes) -> AreaView {
    total_blank().attach(left_column(events, texts)).attach(right_column(image, texts))
}

/// `texts` are texts for the dashboard that shows `data`: each is what
/// `rasterize` gave when it was asked for that text, and each stays on the
/// canvas that it is written to.
pub open spec fn consistent<F: Fn(TextRequest) -> Vec<GlyphSample>>(
    rasterize: &F,
    data: &DashboardData,
    texts: Outcomes,
) -> bool {
    &&& fitted(
        rasterize,
        quote_blank(),
        quote_ask(data.quote.content@),
        QUOTE_MAX_SIZE,
        texts.quote,
    )
    &&& rasterized(rasterize, clock_ask(data.clock@), texts.clock)
    &&& clock_blank().holds_text(texts.clock)
    &&& rows_rasterized(
        rasterize,
        data.events@,
        calendar_rows(data.events@),
        calendar_blank().canvas.width,
        texts.rows,
    )
    &&& texts.days.len() == 3
    &&& day_rasterized(rasterize, 0, data.weather.now, texts.days[0])
    &&& day_rasterized(rasterize, 1, data.weather.tomorrow, texts.days[1])
    &&& day_rasterized(rasterize, 2, data.weather.day_after, texts.days[2])
}

/// A text of the dashboard that has a fixed size may leave its canvas: of
/// what `rasterize` may give when it is asked for the time of day, for a row
/// of the calendar, for the name of a day or for its reading, something does.
/// The quote and the descriptions of the weather are fitted to their canvas,
/// and play no part in this.
pub open spec fn text_overflows<F: Fn(TextRequest) -> Vec<GlyphSample>>(
    rasterize: &F,
    data: &DashboardData,
) -> bool {
    ||| overflows(rasterize, clock_blank(), clock_ask(data.clock@))
    ||| row_overflows(
        rasterize,
        data.events@,
        calendar_rows(data.events@),
        calendar_blank().canvas.width,
    )
    ||| weather_overflows(rasterize, data.weather)
}

/// `tree` is laid out as a dashboard that shows `events`.
///
/// The root covers the display. Its first child is the left column, 200
/// pixels wide, with the calendar in its upper and the weather in its lower
/// half. Its second child is the rest of the display, with three children:
/// the image, the quote under the image, and the time of day in the top
/// right corner. Every area lies in the area above it.
pub open spec fn is_dashboard(tree: AreaView, events: Seq<Event>) -> bool {
    let left = tree.children[0];
    let right = tree.children[1];
    &&& tree.wf()
    &&& tree.nested()
    &&& tree.placed(0, 0, EPD_WIDTH as int, EPD_HEIGHT as int)
    &&& tree.children.len() == 2
    &&& left.placed(0, 0, LEFT_COLUMN_WIDTH as int, EPD_HEIGHT as int)
    &&& left.children.len() == 2
    &&& left.children[0].placed(0, 0, LEFT_COLUMN_WIDTH as int, CALENDAR_HEIGHT as int)
    &&& is_calendar(left.children[0], events)
    &&& left.children[1].placed(
        0,
        CALENDAR_HEIGHT as int,
        LEFT_COLUMN_WIDTH as int,
        CALENDAR_HEIGHT as int,
    )
    &&& is_weather(left.children[1])
    &&& right.placed(LEFT_COLUMN_WIDTH as int, 0, IMAGE_WIDTH as int, EPD_HEIGHT as int)
    &&& right.children.len() == 3
    &&& right.children[0].placed(
        LEFT_COLUMN_WIDTH as int,
        0,
        IMAGE_WIDTH as int,
        IMAGE_HEIGHT as int,
    )
    &&& right.children[1].placed(
        LEFT_COLUMN_WIDTH as int,
        IMAGE_HEIGHT as int,
        IMAGE_WIDTH as int,
        QUOTE_HEIGHT as int,
    )
    &&& right.children[2].placed(
        EPD_WIDTH - CLOCK_WIDTH,
        0,
        CLOCK_WIDTH as int,
        CLOCK_HEIGHT as int,
    )
}

/// Lays out a dashboard: makes the areas, writes text and image to them
/// and joins them to a tree that covers the display.
///
/// The layout itself cannot fail. An image without room in its area is
/// refused, and so is text that has a fixed size and leaves its area. Text
/// that is fitted to its area is left out where it does not fit at all.
pub fn layout_dashboard<F: Fn(TextRequest) -> Vec<GlyphSample>>(
    data: &DashboardData,
    rasterize: &F,
) -> (result: Result<Area, RenderError>)
    requires
        data.wf(),
        rasterizes_all(rasterize),
    ensures
        result matches Ok(tree) ==> tree.wf() && is_dashboard(tree@, data.events@),
        result matches Ok(tree) ==> exists|texts: Outcomes| #[trigger]
            consistent(rasterize, data, texts) && tree@ == dashboard_tree(
                data.events@,
                data.image@,
                texts,
            ),
        result matches Err(e) ==> e == RenderError::ImageOverflow || e == RenderError::TextOverflow,
        result == Err::<Area, RenderError>(RenderError::ImageOverflow) <==> !image_has_room(
            data.image@,
        ),
        result == Err::<Area, RenderError>(RenderError::TextOverflow) ==> text_overflows(
            rasterize,
            data,
        ),
{
    let mut total = make(
        0,
        0,
        EPD_WIDTH,
        EPD_HEIGHT,
        Color::White,
        Padding::full(0),
        Outline::none(),
    );
    let mut left = make(
        0,
        0,
        LEFT_COLUMN_WIDTH,
        total.get_available_vspace(),
        Color::Black,
        Padding::full(0),
        Outline::none(),
    );
    let mut right = make(
        left.offset().x + left.space().width,
        0,
        total.get_available_hspace() - left.space().width,
        total.get_available_vspace(),
        Color::White,
        Padding::full(0),
        Outline::none(),
    );
    let (quote_area, quote) = create_quote(&data.quote, rasterize);
    let image_area = create_image(&data.image)?;
    attach(&mut right, image_area);
    let (made, clock) = create_clock(&data.clock, rasterize);
    let clock_area = made?;
    proof {
        lemma_with_text_keeps_geometry(clock_blank(), clock@, 110);
        if quote@ is Some {
            lemma_with_text_keeps_geometry(quote_blank(), quote@.unwrap(), 100);
        }
    }
    attach(&mut right, quote_area);
    attach(&mut right, clock_area);
    let (made, rows) = create_calendar_day_grouped(&data.events, rasterize);
    let calendar_area = made?;
    let (made, days) = create_weather(&data.weather, rasterize);
    let weather_area = made?;
    let ghost calendar = calendar_area@;
    let ghost weather = weather_area@;
    proof {
        let canvas = calendar_canvas();
        let rows = agenda(data.events@, canvas.y as int, canvas.height as int);
        assert forall|k: int| 0 <= k < rows.len() implies (#[trigger] calendar.children[k]).placed(
            canvas.x as int,
            canvas.y + rows[k].y,
            canvas.width as int,
            row_height(rows[k].row),
        ) by {
            assert(calendar.children[0 + k] == calendar.children[k]);
        }
        assert(is_calendar(calendar, data.events@));
    }
    attach(&mut left, calendar_area);
    attach(&mut left, weather_area);
    proof {
        lemma_shift_zero(calendar);
        lemma_shift_zero(weather);
        assert(left@.children[0] == left@.children.drop_last()[0]);
        assert(left@.children[0] == calendar);
        assert(left@.children[1] == weather);
    }
    let ghost left_view = left@;
    let ghost right_view = right@;
    attach(&mut total, left);
    attach(&mut total, right);
    proof {
        lemma_shift_zero(left_view);
        lemma_shift_zero(right_view);
        assert(total@.children[0] == total@.children.drop_last()[0]);
        assert(total@.children[0] == left_view);
        assert(total@.children[1] == right_view);
        assert(right_view.children[0] == right_view.children.drop_last().drop_last()[0]);
        assert(right_view.children[1] == right_view.children.drop_last()[1]);
        let texts = Outcomes { quote: quote@, clock: clock@, rows: rows@, days: days@ };
        assert(consistent(rasterize, data, texts));
        assert(total@ == dashboard_tree(data.events@, data.image@, texts));
    }
    Ok(total)
}

} // verus!
