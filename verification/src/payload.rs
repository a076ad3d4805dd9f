//! What is sent to the display after a render.
//!
//! A payload starts with a tag of four bytes. Tag 0 is followed by a whole
//! frame in packed form. Tag 1 is followed by the rectangle that changed,
//! as `x`, `y`, `width` and `height`, and then by the pixels of that
//! rectangle in packed form. Tag and rectangle are 32-bit numbers, least
//! significant byte first.

use vstd::prelude::*;
use crate::graphics::Rect;

verus! {

/// The tag of a payload that holds a whole frame.
pub const TAG_FULL: u32 = 0;

/// The tag of a payload that holds one rectangle of a frame.
pub const TAG_PARTIAL: u32 = 1;

/// What a render asks of the display.
#[derive(Debug, PartialEq, Eq)]
pub enum RenderAction {
    /// Show this frame, given in packed form.
    Full(Vec<u8>),
    /// Replace the rectangle by these pixels, given in packed form.
    Partial(Rect, Vec<u8>),
}

/// The four bytes of a 32-bit number, least significant byte first.
pub open spec fn le_bytes(value: u32) -> Seq<u8> {
    seq![
        (value % 256) as u8,
        (value / 256 % 256) as u8,
        (value / 65536 % 256) as u8,
        (value / 16777216) as u8,
    ]
}

/// The rectangle can be written with 32-bit numbers.
pub open spec fn fits_header(rect: Rect) -> bool {
    &&& rect.x <= u32::MAX
    &&& rect.y <= u32::MAX
    &&& rect.width <= u32::MAX
    &&& rect.height <= u32::MAX
}

/// The header that announces a rectangle: the tag, then `x`, `y`, `width`
/// and `height`.
pub open spec fn partial_header(rect: Rect) -> Seq<u8> {
    le_bytes(TAG_PARTIAL) + le_bytes(rect.x as u32) + le_bytes(rect.y as u32) + le_bytes(
        rect.width as u32,
    ) + le_bytes(rect.height as u32)
}

impl RenderAction {
    /// The payload of this action, where it has one.
    pub open spec fn payload(self) -> Option<Seq<u8>> {
        match self {
            RenderAction::Full(data) => Some(le_bytes(TAG_FULL) + data@),
            RenderAction::Partial(rect, data) => if fits_header(rect) {
                Some(partial_header(rect) + data@)
            } else {
                None
            },
        }
    }

    /// The bytes to send for this action. There are none for a rectangle
    /// that 32-bit numbers cannot describe.
    pub fn to_payload(&self) -> (bytes: Option<Vec<u8>>)
        ensures
            bytes.is_some() == self.payload().is_some(),
            bytes matches Some(b) ==> b@ == self.payload().unwrap(),
    {
        match self {
            RenderAction::Full(data) => {
                let mut bytes: Vec<u8> = Vec::new();
                push_le_bytes(&mut bytes, TAG_FULL);
                push_all(&mut bytes, data);
                Some(bytes)
            },
            RenderAction::Partial(rect, data) => {
                if rect.x > u32::MAX as usize || rect.y > u32::MAX as usize || rect.width
                    > u32::MAX as usize || rect.height > u32::MAX as usize {
                    return None;
                }
                let mut bytes: Vec<u8> = Vec::new();
                push_le_bytes(&mut bytes, TAG_PARTIAL);
                push_le_bytes(&mut bytes, rect.x as u32);
                push_le_bytes(&mut bytes, rect.y as u32);
                push_le_bytes(&mut bytes, rect.width as u32);
                push_le_bytes(&mut bytes, rect.height as u32);
                push_all(&mut bytes, data);
                Some(bytes)
            },
        }
    }
}

/// Appends the four bytes of `value`, least significant byte first.
fn push_le_bytes(bytes: &mut Vec<u8>, value: u32)
    ensures
        final(bytes)@ == old(bytes)@ + le_bytes(value),
{
    bytes.push((value % 256) as u8);
    bytes.push((value / 256 % 256) as u8);
    bytes.push((value / 65536 % 256) as u8);
    bytes.push((value / 16777216) as u8);
    assert(bytes@ =~= old(bytes)@ + le_bytes(value));
}

/// Appends `data`.
fn push_all(bytes: &mut Vec<u8>, data: &Vec<u8>)
    ensures
        final(bytes)@ == old(bytes)@ + data@,
{
    let mut i: usize = 0;
    assert(bytes@ =~= old(bytes)@ + data@.take(0));
    while i < data.len()
        invariant
            i <= data.len(),
            bytes@ == old(bytes)@ + data@.take(i as int),
        decreases data.len() - i,
    {
        bytes.push(data[i]);
        assert(bytes@ =~= old(bytes)@ + data@.take(i + 1));
        i += 1;
    }
    assert(data@.take(data.len() as int) =~= data@);
}

} // verus!
