use igen::area::{Area, Offset, Outline, Padding};
use igen::error::RenderError;
use igen::frame::EpdImage;
use igen::graphics::{Color, PixelColor, Rect};

fn plain(x: usize, y: usize, width: usize, height: usize, fill: Color) -> Area {
    Area::new(x, y, width, height, fill, Padding::full(0), Outline::none()).unwrap()
}

fn offsets(area: &Area) -> (usize, usize) {
    let Offset { x, y } = area.offset();
    (x, y)
}

#[test]
fn canvas_of_padded_outlined_area() {
    let area =
        Area::new(0, 0, 100, 50, Color::White, Padding::full(2), Outline::default()).unwrap();
    assert_eq!(area.canvas(), Rect { x: 4, y: 4, width: 92, height: 42 });
    assert_eq!(area.space(), Rect { x: 0, y: 0, width: 100, height: 50 });
    assert_eq!(area.get_hstart(), 4);
    assert_eq!(area.get_vstart(), 4);
    assert_eq!(area.get_available_hspace(), 92);
    assert_eq!(area.get_available_vspace(), 42);
}

#[test]
fn canvas_is_what_padding_and_outline_leave() {
    let cases = [
        (40, 30, Padding::new(1, 2, 3, 4), Outline { top: 5, bottom: 6, left: 7, right: 8, color: PixelColor::Black }),
        (17, 9, Padding::full(0), Outline::none()),
        (17, 9, Padding::full(4), Outline::none()),
        (8, 8, Padding::new(0, 8, 8, 0), Outline::none()),
        (800, 480, Padding::full(2), Outline { top: 1, bottom: 0, left: 0, right: 1, color: PixelColor::Black }),
    ];
    for (width, height, padding, outline) in cases {
        let area = Area::new(7, 3, width, height, Color::White, padding, outline).unwrap();
        let canvas = area.canvas();
        assert_eq!(canvas.x, padding.left + outline.left);
        assert_eq!(canvas.y, padding.top + outline.top);
        assert_eq!(
            canvas.width,
            width - padding.left - padding.right - outline.left - outline.right
        );
        assert_eq!(
            canvas.height,
            height - padding.top - padding.bottom - outline.top - outline.bottom
        );
        assert_eq!(offsets(&area), (7, 3));
    }
}

#[test]
fn canvas_without_pixels_is_accepted() {
    let area = Area::new(0, 0, 8, 6, Color::Black, Padding::full(2), Outline::default()).unwrap_err();
    assert_eq!(area, RenderError::Layout);
    let area = Area::new(0, 0, 8, 8, Color::Black, Padding::full(2), Outline::default()).unwrap();
    assert_eq!(area.canvas(), Rect { x: 4, y: 4, width: 0, height: 0 });
    let empty = plain(0, 0, 0, 0, Color::Gray);
    assert_eq!(empty.canvas(), Rect { x: 0, y: 0, width: 0, height: 0 });
}

#[test]
fn padding_and_outline_beyond_the_area_are_refused() {
    let too_wide = Area::new(0, 0, 7, 50, Color::White, Padding::full(2), Outline::default());
    assert_eq!(too_wide.err(), Some(RenderError::Layout));
    let too_high = Area::new(0, 0, 50, 7, Color::White, Padding::full(2), Outline::default());
    assert_eq!(too_high.err(), Some(RenderError::Layout));
    let huge = Area::new(0, 0, 50, 50, Color::White, Padding::full(usize::MAX), Outline::default());
    assert_eq!(huge.err(), Some(RenderError::Layout));
}

#[test]
fn outline_none_and_default() {
    assert_eq!(
        Outline::none(),
        Outline { top: 0, bottom: 0, left: 0, right: 0, color: PixelColor::White }
    );
    assert_eq!(
        Outline::default(),
        Outline { top: 2, bottom: 2, left: 2, right: 2, color: PixelColor::Black }
    );
    assert_eq!(Padding::full(3), Padding::new(3, 3, 3, 3));
    assert_eq!(Padding::new(1, 2, 3, 4), Padding { top: 1, bottom: 2, left: 3, right: 4 });
}

#[test]
fn new_area_is_painted() {
    let outline = Outline { top: 1, bottom: 2, left: 3, right: 1, color: PixelColor::Black };
    let area = Area::new(0, 0, 12, 10, Color::Black, Padding::full(1), outline).unwrap();
    for y in 0..10 {
        for x in 0..12 {
            let in_band = y < 1 || y >= 8 || x < 3 || x >= 11;
            let in_canvas = (4..10).contains(&x) && (2..7).contains(&y);
            let expected =
                if in_band || in_canvas { PixelColor::Black } else { PixelColor::White };
            assert_eq!(area.pixel(x, y), expected, "at ({x}, {y})");
        }
    }
}

#[test]
fn gray_is_a_checkerboard_on_the_canvas() {
    let area = Area::new(0, 0, 9, 7, Color::Gray, Padding::new(1, 0, 2, 0), Outline::none()).unwrap();
    assert_eq!(area.canvas(), Rect { x: 2, y: 1, width: 7, height: 6 });
    for y in 0..7 {
        for x in 0..9 {
            let expected = if x >= 2 && y >= 1 && (x - 2 + y - 1) % 2 == 1 {
                PixelColor::Black
            } else {
                PixelColor::White
            };
            assert_eq!(area.pixel(x, y), expected, "at ({x}, {y})");
        }
    }
    assert_eq!(Color::Gray.pixel(0, 0), PixelColor::White);
    assert_eq!(Color::Gray.pixel(1, 0), PixelColor::Black);
    assert_eq!(Color::Gray.pixel(0, 1), PixelColor::Black);
    assert_eq!(Color::Gray.pixel(1, 1), PixelColor::White);
    assert_eq!(Color::Black.pixel(4, 4), PixelColor::Black);
    assert_eq!(Color::White.pixel(5, 4), PixelColor::White);
}

#[test]
fn rect_addresses_pixels_from_its_origin() {
    let mut buf = vec![vec![PixelColor::White; 5]; 4];
    let rect = Rect { x: 2, y: 1, width: 3, height: 3 };
    rect.set_px(&mut buf, 1, 2, PixelColor::Black);
    assert_eq!(buf[3][3], PixelColor::Black);
    assert_eq!(rect.get_px(&buf, 1, 2), PixelColor::Black);
    assert_eq!(rect.get_px(&buf, 0, 0), PixelColor::White);
    assert_eq!(buf.iter().flatten().filter(|p| **p == PixelColor::Black).count(), 1);
}

#[test]
fn attaching_moves_the_child_to_the_canvas_of_the_parent() {
    let mut parent =
        Area::new(10, 20, 100, 80, Color::White, Padding::full(3), Outline::default()).unwrap();
    let child = plain(7, 9, 20, 10, Color::Black);
    parent.add_sub_area(child).unwrap();
    assert_eq!(parent.sub_area_count(), 1);
    assert_eq!(offsets(&parent), (10, 20));
    assert_eq!(offsets(parent.sub_area(0)), (10 + 5 + 7, 20 + 5 + 9));
    assert_eq!(parent.sub_area(0).space(), Rect { x: 0, y: 0, width: 20, height: 10 });
}

#[test]
fn attachment_order_does_not_change_offsets() {
    let root = || Area::new(3, 4, 200, 100, Color::White, Padding::full(2), Outline::default()).unwrap();
    let child = || Area::new(10, 20, 100, 50, Color::White, Padding::new(1, 0, 3, 0), Outline::none()).unwrap();
    let grandchild = || plain(5, 6, 10, 10, Color::Black);

    // the grandchild first, then the child
    let mut early_child = child();
    early_child.add_sub_area(grandchild()).unwrap();
    let mut early = root();
    early.add_sub_area(early_child).unwrap();

    // the child first, then the grandchild
    let mut late = root();
    late.add_sub_area(child()).unwrap();
    late.add_sub_area_at(0, grandchild()).unwrap();

    for tree in [&early, &late] {
        assert_eq!(offsets(tree), (3, 4));
        assert_eq!(offsets(tree.sub_area(0)), (3 + 4 + 10, 4 + 4 + 20));
        assert_eq!(
            offsets(tree.sub_area(0).sub_area(0)),
            (3 + 4 + 10 + 3 + 5, 4 + 4 + 20 + 1 + 6)
        );
    }
    let mut early_frame = EpdImage::new(300, 200);
    let mut late_frame = EpdImage::new(300, 200);
    early.draw(&mut early_frame).unwrap();
    late.draw(&mut late_frame).unwrap();
    assert_eq!(early_frame.serialize_full(), late_frame.serialize_full());
}

#[test]
fn attaching_moves_the_whole_subtree() {
    let mut leaf_parent = plain(1, 1, 30, 30, Color::White);
    leaf_parent.add_sub_area(plain(2, 2, 4, 4, Color::Black)).unwrap();
    let mut middle = plain(10, 10, 50, 50, Color::White);
    middle.add_sub_area(leaf_parent).unwrap();
    let mut root = plain(100, 200, 80, 80, Color::White);
    root.add_sub_area(middle).unwrap();
    let middle = root.sub_area(0);
    let leaf_parent = middle.sub_area(0);
    let leaf = leaf_parent.sub_area(0);
    assert_eq!(offsets(middle), (110, 210));
    assert_eq!(offsets(leaf_parent), (111, 211));
    assert_eq!(offsets(leaf), (113, 213));
}

#[test]
fn attaching_beyond_what_can_be_addressed_is_refused() {
    let mut parent = plain(usize::MAX - 5, 0, 10, 10, Color::White);
    let mut child = plain(0, 0, 2, 2, Color::White);
    child.add_sub_area(plain(6, 0, 1, 1, Color::White)).unwrap();
    assert_eq!(parent.add_sub_area(child), Err(RenderError::BufferBounds));
    assert_eq!(parent.sub_area_count(), 0);
    assert_eq!(offsets(&parent), (usize::MAX - 5, 0));
    assert!(parent.add_sub_area(plain(5, 0, 2, 2, Color::White)).is_ok());
    assert_eq!(offsets(parent.sub_area(0)), (usize::MAX, 0));
}

#[test]
fn draw_writes_the_area_at_its_offset() {
    let area = Area::new(3, 2, 4, 3, Color::Black, Padding::full(1), Outline::none()).unwrap();
    let mut frame = EpdImage::new(10, 8);
    area.draw(&mut frame).unwrap();
    for y in 0..8 {
        for x in 0..10 {
            // the canvas of the area is the two pixels (4, 3) and (5, 3)
            let expected = if y == 3 && (x == 4 || x == 5) {
                PixelColor::Black
            } else {
                PixelColor::White
            };
            assert_eq!(frame.get_pixel(x, y), expected, "at ({x}, {y})");
        }
    }
}

#[test]
fn draw_covers_what_lies_under_an_area() {
    let mut frame = EpdImage::new(6, 6);
    for y in 0..6 {
        for x in 0..6 {
            frame.set_pixel(x, y, PixelColor::Black);
        }
    }
    // padding is written as well: the whole space covers the frame
    let area = Area::new(1, 1, 4, 4, Color::Black, Padding::full(1), Outline::none()).unwrap();
    area.draw(&mut frame).unwrap();
    for y in 0..6 {
        for x in 0..6 {
            let in_space = (1..5).contains(&x) && (1..5).contains(&y);
            let in_canvas = (2..4).contains(&x) && (2..4).contains(&y);
            let expected =
                if in_space && !in_canvas { PixelColor::White } else { PixelColor::Black };
            assert_eq!(frame.get_pixel(x, y), expected, "at ({x}, {y})");
        }
    }
}

#[test]
fn children_are_drawn_in_the_order_of_attachment() {
    let build = |first: Color, second: Color| {
        let mut root = plain(0, 0, 10, 10, Color::White);
        root.add_sub_area(plain(1, 1, 5, 5, first)).unwrap();
        root.add_sub_area(plain(3, 3, 5, 5, second)).unwrap();
        let mut frame = EpdImage::new(10, 10);
        root.draw(&mut frame).unwrap();
        frame
    };
    let frame = build(Color::Black, Color::White);
    assert_eq!(frame.get_pixel(2, 2), PixelColor::Black);
    assert_eq!(frame.get_pixel(4, 4), PixelColor::White);
    assert_eq!(frame.get_pixel(7, 7), PixelColor::White);
    assert_eq!(frame.get_pixel(0, 0), PixelColor::White);
    let frame = build(Color::White, Color::Black);
    assert_eq!(frame.get_pixel(2, 2), PixelColor::White);
    assert_eq!(frame.get_pixel(4, 4), PixelColor::Black);
    assert_eq!(frame.get_pixel(7, 7), PixelColor::Black);
}

#[test]
fn grandchildren_are_drawn_before_the_next_child() {
    let mut first = plain(0, 0, 6, 6, Color::White);
    first.add_sub_area(plain(2, 2, 4, 4, Color::Black)).unwrap();
    let mut root = plain(0, 0, 8, 8, Color::White);
    root.add_sub_area(first).unwrap();
    root.add_sub_area(plain(4, 4, 3, 3, Color::White)).unwrap();
    let mut frame = EpdImage::new(8, 8);
    root.draw(&mut frame).unwrap();
    assert_eq!(frame.get_pixel(3, 3), PixelColor::Black);
    assert_eq!(frame.get_pixel(5, 5), PixelColor::White);
    assert_eq!(frame.get_pixel(5, 3), PixelColor::Black);
}

#[test]
fn draw_outside_the_frame_is_refused() {
    let mut frame = EpdImage::new(10, 10);
    frame.set_pixel(9, 9, PixelColor::Black);
    let before = frame.serialize_full();
    let wide = plain(5, 0, 6, 1, Color::Black);
    assert!(!wide.fits(10, 10));
    assert_eq!(wide.draw(&mut frame), Err(RenderError::BufferBounds));
    assert_eq!(frame.serialize_full(), before);
    let mut root = plain(0, 0, 10, 10, Color::Black);
    root.add_sub_area(plain(8, 8, 3, 2, Color::Black)).unwrap();
    assert!(!root.fits(10, 10));
    assert!(root.fits(11, 10));
    assert_eq!(root.draw(&mut frame), Err(RenderError::BufferBounds));
    assert_eq!(frame.serialize_full(), before);
    let far = plain(usize::MAX, usize::MAX, 1, 1, Color::Black);
    assert_eq!(far.draw(&mut frame), Err(RenderError::BufferBounds));
    let fitting = plain(5, 0, 5, 10, Color::Black);
    assert!(fitting.fits(10, 10));
    assert_eq!(fitting.draw(&mut frame), Ok(()));
}

#[test]
fn error_messages() {
    assert_eq!(RenderError::Layout.message(), "padding and outline exceed the area");
    assert_eq!(RenderError::TextOverflow.message(), "text does not fit the canvas");
    assert_eq!(RenderError::ImageOverflow.message(), "image does not fit the canvas");
    assert_eq!(RenderError::BufferBounds.message(), "pixel outside the buffer");
}
