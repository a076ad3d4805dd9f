use igen::area::{Area, Outline, Padding};
use igen::error::RenderError;
use igen::graphics::{Color, PixelColor};
use igen::raster::{Raster, Rgb};

fn gray(value: u8) -> Rgb {
    Rgb { red: value, green: value, blue: value }
}

fn framed() -> Area {
    // a canvas of 6 by 4 pixels at (3, 3)
    Area::new(0, 0, 12, 10, Color::White, Padding::full(1), Outline::default()).unwrap()
}

#[test]
fn raster_has_a_pixel_for_each_place() {
    assert!(Raster::new(3, 2, vec![gray(0); 6]).is_some());
    assert!(Raster::new(3, 2, vec![gray(0); 5]).is_none());
    assert!(Raster::new(3, 2, vec![gray(0); 7]).is_none());
    assert!(Raster::new(0, 5, vec![]).is_some());
    assert!(Raster::new(usize::MAX, 2, vec![]).is_none());
    let raster = Raster::new(3, 2, (0..6).map(gray).collect()).unwrap();
    assert_eq!(raster.width(), 3);
    assert_eq!(raster.height(), 2);
    assert_eq!(raster.pixel(0, 0), gray(0));
    assert_eq!(raster.pixel(2, 0), gray(2));
    assert_eq!(raster.pixel(0, 1), gray(3));
    assert_eq!(raster.pixel(2, 1), gray(5));
}

#[test]
fn pixels_above_the_middle_are_white() {
    assert_eq!(gray(127).binarize(), PixelColor::Black);
    assert_eq!(gray(128).binarize(), PixelColor::White);
    assert_eq!(gray(0).binarize(), PixelColor::Black);
    assert_eq!(gray(255).binarize(), PixelColor::White);
    // the mean is rounded down: 383 / 3 is 127
    assert_eq!(Rgb { red: 127, green: 128, blue: 128 }.binarize(), PixelColor::Black);
    assert_eq!(Rgb { red: 128, green: 128, blue: 128 }.binarize(), PixelColor::White);
    assert_eq!(Rgb { red: 255, green: 129, blue: 0 }.binarize(), PixelColor::White);
    assert_eq!(Rgb { red: 255, green: 126, blue: 0 }.binarize(), PixelColor::Black);
    assert_eq!(Rgb { red: 255, green: 255, blue: 255 }.binarize(), PixelColor::White);
}

#[test]
fn image_is_written_at_its_place_on_the_canvas() {
    let mut area = framed();
    let image = Raster::new(2, 2, vec![gray(0), gray(255), gray(200), gray(10)]).unwrap();
    area.load_image(3, 1, &image).unwrap();
    let untouched = framed();
    for y in 0..10 {
        for x in 0..12 {
            let expected = match (x, y) {
                (6, 4) => PixelColor::Black,
                (7, 4) => PixelColor::White,
                (6, 5) => PixelColor::White,
                (7, 5) => PixelColor::Black,
                _ => untouched.pixel(x, y),
            };
            assert_eq!(area.pixel(x, y), expected, "at ({x}, {y})");
        }
    }
}

#[test]
fn image_may_fill_the_canvas() {
    let mut area = framed();
    let image = Raster::new(6, 4, vec![gray(0); 24]).unwrap();
    area.load_image(0, 0, &image).unwrap();
    for y in 3..7 {
        for x in 3..9 {
            assert_eq!(area.pixel(x, y), PixelColor::Black);
        }
    }
    assert_eq!(area.pixel(2, 3), PixelColor::White);
    assert_eq!(area.pixel(9, 6), PixelColor::White);
}

#[test]
fn image_beyond_the_canvas_is_refused() {
    let image = Raster::new(3, 2, vec![gray(0); 6]).unwrap();
    for (x, y) in [(4, 0), (0, 3), (6, 4), (usize::MAX, 0), (0, usize::MAX)] {
        let mut area = framed();
        assert_eq!(area.load_image(x, y, &image), Err(RenderError::ImageOverflow));
        let untouched = framed();
        for py in 0..10 {
            for px in 0..12 {
                assert_eq!(area.pixel(px, py), untouched.pixel(px, py));
            }
        }
    }
    let mut area = framed();
    assert_eq!(area.load_image(3, 2, &image), Ok(()));
    let wide = Raster::new(7, 1, vec![gray(0); 7]).unwrap();
    assert_eq!(framed().load_image(0, 0, &wide), Err(RenderError::ImageOverflow));
    let empty = Raster::new(0, 0, vec![]).unwrap();
    assert_eq!(framed().load_image(6, 4, &empty), Ok(()));
}
