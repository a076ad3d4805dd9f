use std::cell::RefCell;

use chrono::{Datelike, NaiveDate};
use igen::area::{Area, Offset};
use igen::calendar::{Event, Moment, Span, Time};
use igen::dash::{Dash, VIDEO_HEIGHT, VIDEO_WIDTH};
use igen::error::RenderError;
use igen::fonts::Font;
use igen::frame::{unpack_pixel, EpdImage, EPD_HEIGHT, EPD_WIDTH};
use igen::graphics::{PixelColor, Rect};
use igen::layout::{
    layout_dashboard, DashboardData, WeatherLine, WeatherReport, CALENDAR_HEIGHT, CLOCK_HEIGHT,
    CLOCK_WIDTH, IMAGE_HEIGHT, IMAGE_WIDTH, LEFT_COLUMN_WIDTH, QUOTE_HEIGHT,
};
use igen::payload::RenderAction;
use igen::quote::Quote;
use igen::raster::{Raster, Rgb};
use igen::text::{GlyphSample, HorizontalAlign, TextRequest, VerticalAlign};

fn gray(value: u8) -> Rgb {
    Rgb { red: value, green: value, blue: value }
}

fn line(code: usize, reading: &str) -> WeatherLine {
    WeatherLine { weather_code: code, reading: reading.to_string() }
}

fn day_number(year: i32, month: u32, day: u32) -> i32 {
    NaiveDate::from_ymd_opt(year, month, day).unwrap().num_days_from_ce()
}

fn all_day(day: i32, title: &str) -> Event {
    Event { time: Time::AllDay(day), title: title.to_string() }
}

fn timed(day: i32, second: u32, title: &str) -> Event {
    let start = Moment { day, second_of_day: second, timestamp: day as i64 * 86400 + second as i64, nanos: 0 };
    Event { time: Time::Timed(start, Span { seconds: 1800, nanos: 0 }), title: title.to_string() }
}

fn data(clock: &str) -> DashboardData {
    let monday = day_number(2025, 2, 3);
    DashboardData {
        events: vec![
            all_day(monday, "Holiday"),
            timed(monday, 9 * 3600, "Dentist"),
            timed(monday + 1, 17 * 3600 + 30 * 60, "Parents' evening"),
        ],
        weather: WeatherReport {
            now: line(0, "21°C 40%"),
            tomorrow: line(95, "11.50°C-19.25°C 07h"),
            day_after: line(3, "09.00°C-12.00°C 01h"),
        },
        quote: Quote {
            content: "Now put the foundations under them.".to_string(),
            author: "Thoreau".to_string(),
            tags: vec![],
        },
        image: Raster::new(4, 2, vec![gray(0); 8]).unwrap(),
        clock: clock.to_string(),
    }
}

// one black pixel, whose column tells the length of the text and whose row
// tells the size
fn one_pixel(request: TextRequest) -> Vec<GlyphSample> {
    let x = request.text.chars().count() % 50;
    let y = request.size as usize % 20;
    vec![GlyphSample { x, y, coverage: 255 }]
}

fn nothing(_: TextRequest) -> Vec<GlyphSample> {
    vec![]
}

fn place(area: &Area) -> (usize, usize, usize, usize) {
    let Offset { x, y } = area.offset();
    (x, y, area.space().width, area.space().height)
}

#[test]
fn dashboard_is_laid_out_in_two_columns() {
    let tree = layout_dashboard(&data("12:34"), &nothing).unwrap();
    assert_eq!(place(&tree), (0, 0, 800, 480));
    assert_eq!(tree.sub_area_count(), 2);
    let left = tree.sub_area(0);
    let right = tree.sub_area(1);
    assert_eq!(place(left), (0, 0, LEFT_COLUMN_WIDTH, EPD_HEIGHT));
    assert_eq!(place(right), (200, 0, 600, 480));
    assert_eq!(left.sub_area_count(), 2);
    assert_eq!(place(left.sub_area(0)), (0, 0, 200, CALENDAR_HEIGHT));
    assert_eq!(place(left.sub_area(1)), (0, 240, 200, 240));
    assert_eq!(left.sub_area(0).canvas(), Rect { x: 2, y: 2, width: 195, height: 235 });
    assert_eq!(left.sub_area(1).canvas(), Rect { x: 2, y: 3, width: 195, height: 235 });
    assert_eq!(right.sub_area_count(), 3);
    assert_eq!(place(right.sub_area(0)), (200, 0, IMAGE_WIDTH, IMAGE_HEIGHT));
    assert_eq!(place(right.sub_area(1)), (200, 340, 600, QUOTE_HEIGHT));
    assert_eq!(right.sub_area(1).canvas(), Rect { x: 2, y: 3, width: 596, height: 135 });
    assert_eq!(place(right.sub_area(2)), (700, 0, CLOCK_WIDTH, CLOCK_HEIGHT));
    assert_eq!(right.sub_area(2).canvas(), Rect { x: 1, y: 0, width: 99, height: 39 });
    assert!(tree.fits(EPD_WIDTH, EPD_HEIGHT));
}

#[test]
fn calendar_shows_days_with_their_events() {
    let tree = layout_dashboard(&data("12:34"), &nothing).unwrap();
    let calendar = tree.sub_area(0).sub_area(0);
    // two headings and three events
    assert_eq!(calendar.sub_area_count(), 5);
    let rows: Vec<_> = (0..5).map(|i| place(calendar.sub_area(i))).collect();
    assert_eq!(
        rows,
        vec![
            (2, 4, 195, 32),
            (2, 38, 195, 24),
            (2, 64, 195, 24),
            (2, 90, 195, 32),
            (2, 124, 195, 24),
        ]
    );
    // a heading has a border, an event has none
    assert_eq!(calendar.sub_area(0).canvas(), Rect { x: 2, y: 2, width: 191, height: 28 });
    assert_eq!(calendar.sub_area(1).canvas(), Rect { x: 0, y: 0, width: 195, height: 24 });
}

#[test]
fn calendar_ends_where_the_room_ends() {
    let mut full = data("12:34");
    full.events = (0..20).map(|i| timed(100, i * 60, "Meeting")).collect();
    full.events.push(all_day(101, "Tomorrow"));
    let tree = layout_dashboard(&full, &nothing).unwrap();
    let calendar = tree.sub_area(0).sub_area(0);
    // the heading, and seven events from row 36 of the canvas on, 26 rows each
    assert_eq!(calendar.sub_area_count(), 8);
    assert_eq!(place(calendar.sub_area(7)), (2, 2 + 36 + 6 * 26, 195, 24));

    let mut days = data("12:34");
    days.events = (0..10).map(|i| all_day(100 + i, "Day")).collect();
    let tree = layout_dashboard(&days, &nothing).unwrap();
    let calendar = tree.sub_area(0).sub_area(0);
    // a heading with one event takes 60 rows: three pairs leave row 182,
    // and a fourth pair would reach the end of the 235 rows
    assert_eq!(calendar.sub_area_count(), 6);
    assert_eq!(place(calendar.sub_area(4)), (2, 2 + 2 + 120, 195, 32));
}

#[test]
fn calendar_without_events_is_empty() {
    let mut empty = data("12:34");
    empty.events = vec![];
    let tree = layout_dashboard(&empty, &nothing).unwrap();
    assert_eq!(tree.sub_area(0).sub_area(0).sub_area_count(), 0);
}

#[test]
fn weather_shows_three_days() {
    let tree = layout_dashboard(&data("12:34"), &nothing).unwrap();
    let weather = tree.sub_area(0).sub_area(1);
    assert_eq!(weather.sub_area_count(), 3);
    assert_eq!(place(weather.sub_area(0)), (2, 240 + 3 + 28, 195, 50));
    assert_eq!(place(weather.sub_area(1)), (2, 240 + 3 + 106, 195, 50));
    assert_eq!(place(weather.sub_area(2)), (2, 240 + 3 + 184, 195, 50));
    assert_eq!(weather.sub_area(0).canvas(), Rect { x: 0, y: 1, width: 195, height: 48 });
}

#[test]
fn texts_are_requested_with_font_size_and_box() {
    let seen = RefCell::new(Vec::new());
    let record = |request: TextRequest| {
        seen.borrow_mut().push(request);
        vec![]
    };
    layout_dashboard(&data("12:34"), &record).unwrap();
    let seen = seen.into_inner();
    let find = |text: &str| -> Vec<&TextRequest> {
        seen.iter().filter(|request| request.text == text).collect()
    };

    // the quote is tried at every size from 1 to 30, since nothing overflows
    let quote = find("Now put the foundations under them.");
    assert_eq!(quote.iter().map(|r| r.size).collect::<Vec<_>>(), (1..=30).collect::<Vec<_>>());
    assert_eq!(quote[0].font, Font::Wellfleet);
    assert_eq!((quote[0].settings.x, quote[0].settings.y), (2, 3));
    assert_eq!(quote[0].settings.max_width, Some(596));
    assert_eq!(quote[0].settings.max_height, Some(135));

    let clock = find("12:34");
    assert_eq!(clock.len(), 1);
    assert_eq!((clock[0].font, clock[0].size), (Font::Wellfleet, 32));
    assert_eq!(clock[0].settings.max_width, Some(99));
    assert_eq!(clock[0].settings.max_height, Some(39));
    assert_eq!(clock[0].settings.horizontal_align, HorizontalAlign::Center);

    let heading = find("Mon, 3. Feb");
    assert_eq!(heading.len(), 1);
    assert_eq!((heading[0].font, heading[0].size), (Font::Wellfleet, 23));
    assert_eq!((heading[0].settings.x, heading[0].settings.y), (2, 2));
    assert_eq!(heading[0].settings.max_width, Some(191));
    assert_eq!(heading[0].settings.vertical_align, VerticalAlign::Middle);
    assert_eq!(find("Tue, 4. Feb").len(), 1);

    let dentist = find("09:00 Dentist");
    assert_eq!(dentist.len(), 1);
    assert_eq!((dentist[0].font, dentist[0].size), (Font::Dina, 22));
    assert_eq!(dentist[0].settings.horizontal_align, HorizontalAlign::Left);
    assert_eq!(find("Holiday").len(), 1);
    assert_eq!(find("17:30 Parents' e>").len(), 1);

    let now = find("Now");
    assert_eq!(now.len(), 1);
    assert_eq!((now[0].font, now[0].size, now[0].settings.y), (Font::Wellfleet, 23, 0));
    assert_eq!(find("Tomorrow")[0].settings.y, 78);
    assert_eq!(find("Tomorrow++")[0].settings.y, 156);

    // descriptions of the weather: short ones up to size 24, long ones up to 20
    let clear = find("Clear sky");
    assert_eq!(clear.iter().map(|r| r.size).collect::<Vec<_>>(), (1..=24).collect::<Vec<_>>());
    assert_eq!(clear[0].settings.max_height, Some(48));
    let storm = find("Slight or moderate thunderstorm");
    assert_eq!(storm.iter().map(|r| r.size).collect::<Vec<_>>(), (1..=20).collect::<Vec<_>>());
    assert_eq!(storm[0].settings.max_height, Some(18));
    assert_eq!(find("Overcast").len(), 24);

    let reading = find("21°C 40%");
    assert_eq!(reading.len(), 1);
    assert_eq!((reading[0].font, reading[0].size, reading[0].settings.y), (Font::Dina, 20, 28));
}

#[test]
fn image_is_centred_in_its_area() {
    let tree = layout_dashboard(&data("12:34"), &nothing).unwrap();
    let image = tree.sub_area(1).sub_area(0);
    // 4 by 2 black pixels in the middle of 600 by 340 white ones
    for y in 0..340 {
        for x in 0..600 {
            let expected = if (298..302).contains(&x) && (169..171).contains(&y) {
                PixelColor::Black
            } else {
                PixelColor::White
            };
            assert_eq!(image.pixel(x, y), expected, "at ({x}, {y})");
        }
    }
}

#[test]
fn image_without_room_is_refused() {
    let mut wide = data("12:34");
    wide.image = Raster::new(601, 1, vec![gray(0); 601]).unwrap();
    assert_eq!(layout_dashboard(&wide, &nothing).err(), Some(RenderError::ImageOverflow));
    assert_eq!(Dash::create_dashboard(&wide, &nothing).err(), Some(RenderError::ImageOverflow));
    let mut high = data("12:34");
    high.image = Raster::new(1, 341, vec![gray(0); 341]).unwrap();
    assert_eq!(layout_dashboard(&high, &nothing).err(), Some(RenderError::ImageOverflow));
    let mut exact = data("12:34");
    exact.image = Raster::new(600, 340, vec![gray(255); 600 * 340]).unwrap();
    assert!(layout_dashboard(&exact, &nothing).is_ok());
}

#[test]
fn text_of_a_fixed_size_that_overflows_is_refused() {
    let clock_only = |request: TextRequest| {
        if request.text == "12:34" {
            vec![GlyphSample { x: 99, y: 0, coverage: 1 }]
        } else {
            vec![]
        }
    };
    assert_eq!(layout_dashboard(&data("12:34"), &clock_only).err(), Some(RenderError::TextOverflow));
    let fits = |request: TextRequest| {
        if request.text == "12:34" {
            vec![GlyphSample { x: 98, y: 38, coverage: 255 }]
        } else {
            vec![]
        }
    };
    let tree = layout_dashboard(&data("12:34"), &fits).unwrap();
    assert_eq!(tree.sub_area(1).sub_area(2).pixel(99, 38), PixelColor::Black);
}

#[test]
fn text_that_is_fitted_never_fails() {
    // every text overflows at every size: the fitted ones are left out,
    // and the first of a fixed size ends the render
    let overflow = |request: TextRequest| {
        let fixed = [20, 22, 23, 32].contains(&request.size);
        if fixed { vec![] } else { vec![GlyphSample { x: 10000, y: 0, coverage: 255 }] }
    };
    assert!(layout_dashboard(&data("12:34"), &overflow).is_ok());
}

#[test]
fn frame_shows_the_borders_of_the_areas() {
    let frame = Dash::create_dashboard(&data("12:34"), &nothing).unwrap();
    assert_eq!((frame.width(), frame.height()), (EPD_WIDTH, EPD_HEIGHT));
    let black = |x: usize, y: usize| frame.get_pixel(x, y) == PixelColor::Black;
    // right and bottom border of the calendar
    assert!(black(199, 0) && black(199, 120) && black(0, 239) && black(100, 239));
    assert!(!black(198, 1));
    // top and right border of the weather
    assert!(black(0, 240) && black(199, 479));
    assert!(!black(0, 479));
    // top border of the quote, left and bottom border of the clock
    assert!(black(200, 340) && black(799, 340) && !black(200, 341));
    assert!(black(700, 0) && black(700, 38) && black(799, 39) && !black(699, 0));
    // the border of the heading of the first day, two pixels wide
    assert!(black(2, 4) && black(3, 5) && !black(4, 6));
    assert!(black(196, 35) && !black(197, 4));
    // the image in the middle of its area
    assert!(black(200 + 298, 169) && black(200 + 301, 170));
    assert!(!black(200 + 297, 169) && !black(200 + 302, 170));
}

#[test]
fn frame_is_the_tree_drawn_on_white() {
    let tree = layout_dashboard(&data("12:34"), &one_pixel).unwrap();
    let mut expected = EpdImage::new(EPD_WIDTH, EPD_HEIGHT);
    tree.draw(&mut expected).unwrap();
    let frame = Dash::create_dashboard(&data("12:34"), &one_pixel).unwrap();
    assert_eq!(frame.serialize_full(), expected.serialize_full());
}

#[test]
fn first_frame_is_sent_whole() {
    let mut dash = Dash::new();
    assert!(dash.last_frame().is_none());
    let frame = Dash::create_dashboard(&data("12:34"), &one_pixel).unwrap();
    assert_eq!(dash.get_change_bbox(&frame), None);
    let action = dash.draw(&data("12:34"), &one_pixel).unwrap();
    assert_eq!(action, RenderAction::Full(frame.serialize_full()));
    assert_eq!(dash.last_frame().unwrap().serialize_full(), frame.serialize_full());
    assert_eq!(action.to_payload().unwrap().len(), 4 + 48000);
}

#[test]
fn unchanged_frame_is_sent_whole() {
    let mut dash = Dash::new();
    dash.draw(&data("12:34"), &one_pixel).unwrap();
    let frame = Dash::create_dashboard(&data("12:34"), &one_pixel).unwrap();
    assert_eq!(dash.get_change_bbox(&frame), None);
    let action = dash.draw(&data("12:34"), &one_pixel).unwrap();
    assert_eq!(action, RenderAction::Full(frame.serialize_full()));
}

#[test]
fn changed_frame_is_sent_as_the_block_that_changed() {
    let mut dash = Dash::new();
    dash.draw(&data("12:34"), &one_pixel).unwrap();
    // the clock's pixel moves from column 5 to column 7 of the clock's
    // canvas, which starts at column 701; its row is 32 % 20 = 12
    let next = Dash::create_dashboard(&data("12:34pm"), &one_pixel).unwrap();
    assert_eq!(dash.get_change_bbox(&next), Some(Rect { x: 706, y: 12, width: 2, height: 0 }));
    let action = dash.draw(&data("12:34pm"), &one_pixel).unwrap();
    let block = Rect { x: 706, y: 12, width: 3, height: 1 };
    // white, white, black, and five padding bits
    assert_eq!(action, RenderAction::Partial(block, vec![0b1101_1111]));
    assert_eq!(
        action.to_payload().unwrap(),
        vec![1, 0, 0, 0, 0xC2, 0x02, 0, 0, 12, 0, 0, 0, 3, 0, 0, 0, 1, 0, 0, 0, 0xDF]
    );
    assert_eq!(dash.last_frame().unwrap().serialize_full(), next.serialize_full());
}

#[test]
fn render_takes_the_frame_as_the_last_one() {
    let mut dash = Dash::new();
    let white = EpdImage::new(EPD_WIDTH, EPD_HEIGHT);
    assert_eq!(dash.render(white), RenderAction::Full(vec![0xFF; 48000]));
    let mut dotted = EpdImage::new(EPD_WIDTH, EPD_HEIGHT);
    dotted.set_pixel(3, 3, PixelColor::Black);
    dotted.set_pixel(12, 5, PixelColor::Black);
    let block = Rect { x: 3, y: 3, width: 10, height: 3 };
    let expected = vec![0x7F, 0xFF, 0xFF, 0xFF, 0xFF, 0xBF];
    assert_eq!(dash.render(dotted), RenderAction::Partial(block, expected));
    assert_eq!(dash.last_frame().unwrap().get_pixel(12, 5), PixelColor::Black);
}

#[test]
fn failed_render_keeps_the_last_frame() {
    let mut dash = Dash::new();
    dash.draw(&data("12:34"), &one_pixel).unwrap();
    let before = dash.last_frame().unwrap().serialize_full();
    let mut broken = data("12:34pm");
    broken.image = Raster::new(601, 1, vec![gray(0); 601]).unwrap();
    assert_eq!(dash.draw(&broken, &one_pixel), Err(RenderError::ImageOverflow));
    assert_eq!(dash.last_frame().unwrap().serialize_full(), before);
    let overflow = |_: TextRequest| vec![GlyphSample { x: 10000, y: 0, coverage: 255 }];
    assert_eq!(dash.draw(&data("12:34pm"), &overflow), Err(RenderError::TextOverflow));
    assert_eq!(dash.last_frame().unwrap().serialize_full(), before);
    // the next frame is compared with the frame before the failures
    let action = dash.draw(&data("12:34pm"), &one_pixel).unwrap();
    assert!(matches!(action, RenderAction::Partial(Rect { x: 706, y: 12, width: 3, height: 1 }, _)));
}

#[test]
fn video_frame_packs_the_corner_of_the_display() {
    let mut pixels = vec![gray(255); VIDEO_WIDTH * VIDEO_HEIGHT];
    pixels[0] = gray(0);
    pixels[VIDEO_WIDTH * 7 + 9] = gray(0);
    pixels[VIDEO_WIDTH * VIDEO_HEIGHT - 1] = gray(0);
    let image = Raster::new(VIDEO_WIDTH, VIDEO_HEIGHT, pixels).unwrap();
    let bytes = Dash::video_frame(&image).unwrap();
    assert_eq!(bytes.len(), VIDEO_WIDTH / 8 * VIDEO_HEIGHT);
    for y in 0..VIDEO_HEIGHT {
        for x in 0..VIDEO_WIDTH {
            let expected = if [(0, 0), (9, 7), (239, 179)].contains(&(x, y)) {
                PixelColor::Black
            } else {
                PixelColor::White
            };
            assert_eq!(unpack_pixel(&bytes, VIDEO_WIDTH, x, y), expected);
        }
    }
}

#[test]
fn video_frame_of_a_small_image_is_white_around_it() {
    let image = Raster::new(2, 1, vec![gray(0); 2]).unwrap();
    let bytes = Dash::video_frame(&image).unwrap();
    assert_eq!(bytes.len(), 30 * 180);
    assert_eq!(bytes[0], 0x3F);
    assert!(bytes[1..].iter().all(|byte| *byte == 0xFF));
}

#[test]
fn video_frame_larger_than_the_display_is_refused() {
    let image = Raster::new(801, 1, vec![gray(0); 801]).unwrap();
    assert_eq!(Dash::video_frame(&image), Err(RenderError::ImageOverflow));
    let image = Raster::new(1, 481, vec![gray(0); 481]).unwrap();
    assert_eq!(Dash::video_frame(&image), Err(RenderError::ImageOverflow));
    let image = Raster::new(800, 480, vec![gray(0); 800 * 480]).unwrap();
    assert!(Dash::video_frame(&image).unwrap().iter().all(|byte| *byte == 0));
}
