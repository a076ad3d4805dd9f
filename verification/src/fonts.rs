//! The fonts of the dashboard.

use vstd::prelude::*;

verus! {

/// A font that text can be set in. Loading and rasterising fonts is left
/// to the program round this library; here a font is only named.
#[derive(Copy, Clone, Debug, PartialEq, Eq, Hash, Structural)]
pub enum Font {
    Dina,
    DinaBold,
    Wellfleet,
}

} // verus!
