use igen::graphics::Rect;
use igen::payload::{RenderAction, TAG_FULL, TAG_PARTIAL};

#[test]
fn full_payload_is_tag_and_frame() {
    assert_eq!(TAG_FULL, 0);
    let action = RenderAction::Full(vec![0xAA, 0x55, 0x01]);
    assert_eq!(action.to_payload(), Some(vec![0, 0, 0, 0, 0xAA, 0x55, 0x01]));
    assert_eq!(RenderAction::Full(vec![]).to_payload(), Some(vec![0, 0, 0, 0]));
}

#[test]
fn partial_payload_is_tag_rectangle_and_pixels() {
    assert_eq!(TAG_PARTIAL, 1);
    let rect = Rect { x: 3, y: 258, width: 0x01020304, height: 0 };
    let action = RenderAction::Partial(rect, vec![0xFE, 0x7F]);
    let expected = vec![
        1, 0, 0, 0, // tag
        3, 0, 0, 0, // x
        2, 1, 0, 0, // y
        4, 3, 2, 1, // width
        0, 0, 0, 0, // height
        0xFE, 0x7F,
    ];
    assert_eq!(action.to_payload(), Some(expected));
}

#[test]
fn numbers_are_written_least_significant_byte_first() {
    let rect = Rect { x: 0xFFFF_FFFF, y: 0x8000_0000, width: 255, height: 256 };
    let bytes = RenderAction::Partial(rect, vec![]).to_payload().unwrap();
    assert_eq!(bytes.len(), 20);
    assert_eq!(&bytes[4..8], &[0xFF, 0xFF, 0xFF, 0xFF]);
    assert_eq!(&bytes[8..12], &[0, 0, 0, 0x80]);
    assert_eq!(&bytes[12..16], &[255, 0, 0, 0]);
    assert_eq!(&bytes[16..20], &[0, 1, 0, 0]);
    for field in [rect.x, rect.y, rect.width, rect.height] {
        assert_eq!(u32::try_from(field).unwrap().to_le_bytes().len(), 4);
    }
    assert_eq!(&bytes[4..8], &u32::try_from(rect.x).unwrap().to_le_bytes());
    assert_eq!(&bytes[8..12], &u32::try_from(rect.y).unwrap().to_le_bytes());
}

#[test]
fn rectangle_beyond_32_bits_has_no_payload() {
    let big = u32::MAX as u64 + 1;
    if let Ok(big) = usize::try_from(big) {
        for rect in [
            Rect { x: big, y: 0, width: 0, height: 0 },
            Rect { x: 0, y: big, width: 0, height: 0 },
            Rect { x: 0, y: 0, width: big, height: 0 },
            Rect { x: 0, y: 0, width: 0, height: big },
        ] {
            assert_eq!(RenderAction::Partial(rect, vec![1]).to_payload(), None);
        }
    }
}
