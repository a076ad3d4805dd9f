use igen::diff::diff;
use igen::frame::{EpdImage, EPD_HEIGHT, EPD_WIDTH};
use igen::graphics::{PixelColor, Rect};

#[test]
fn identical_frames_have_no_change() {
    let blank = EpdImage::new(EPD_WIDTH, EPD_HEIGHT);
    assert_eq!(diff(&blank, &blank), None);
    let mut a = EpdImage::new(17, 9);
    let mut b = EpdImage::new(17, 9);
    for (x, y) in [(0, 0), (16, 8), (3, 4), (8, 8)] {
        a.set_pixel(x, y, PixelColor::Black);
        b.set_pixel(x, y, PixelColor::Black);
    }
    assert_eq!(diff(&a, &b), None);
    assert_eq!(diff(&a, &a), None);
}

#[test]
fn empty_frames_have_no_change() {
    assert_eq!(diff(&EpdImage::new(0, 0), &EpdImage::new(0, 0)), None);
}

#[test]
fn single_pixel_change() {
    let first = EpdImage::new(10, 10);
    let mut second = EpdImage::new(10, 10);
    second.set_pixel(3, 3, PixelColor::Black);
    assert_eq!(diff(&second, &first), Some(Rect { x: 3, y: 3, width: 0, height: 0 }));
    assert_eq!(diff(&first, &second), Some(Rect { x: 3, y: 3, width: 0, height: 0 }));
}

#[test]
fn single_pixel_change_anywhere() {
    for (x, y) in [(0, 0), (799, 0), (0, 479), (799, 479), (400, 17)] {
        let first = EpdImage::new(EPD_WIDTH, EPD_HEIGHT);
        let mut second = EpdImage::new(EPD_WIDTH, EPD_HEIGHT);
        second.set_pixel(x, y, PixelColor::Black);
        assert_eq!(diff(&second, &first), Some(Rect { x, y, width: 0, height: 0 }));
    }
}

#[test]
fn change_box_reaches_the_last_changed_row() {
    let first = EpdImage::new(12, 12);
    let mut second = EpdImage::new(12, 12);
    second.set_pixel(5, 1, PixelColor::Black);
    second.set_pixel(2, 3, PixelColor::Black);
    second.set_pixel(9, 7, PixelColor::Black);
    second.set_pixel(4, 10, PixelColor::Black);
    assert_eq!(diff(&second, &first), Some(Rect { x: 2, y: 1, width: 7, height: 9 }));
}

#[test]
fn change_box_of_one_row_and_of_one_column() {
    let first = EpdImage::new(12, 12);
    let mut row = EpdImage::new(12, 12);
    row.set_pixel(1, 6, PixelColor::Black);
    row.set_pixel(10, 6, PixelColor::Black);
    assert_eq!(diff(&row, &first), Some(Rect { x: 1, y: 6, width: 9, height: 0 }));
    let mut column = EpdImage::new(12, 12);
    column.set_pixel(6, 0, PixelColor::Black);
    column.set_pixel(6, 11, PixelColor::Black);
    assert_eq!(diff(&column, &first), Some(Rect { x: 6, y: 0, width: 0, height: 11 }));
}

#[test]
fn change_is_a_difference_in_either_direction() {
    let mut first = EpdImage::new(8, 8);
    let mut second = EpdImage::new(8, 8);
    first.set_pixel(1, 2, PixelColor::Black);
    second.set_pixel(6, 5, PixelColor::Black);
    first.set_pixel(4, 4, PixelColor::Black);
    second.set_pixel(4, 4, PixelColor::Black);
    assert_eq!(diff(&second, &first), Some(Rect { x: 1, y: 2, width: 5, height: 3 }));
}
