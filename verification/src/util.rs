//! Small value types shared by the tag records.

use vstd::prelude::*;

verus! {

/// An RGB color, as carried by marker entries and track-color fields.
#[derive(Clone, Copy, Debug, PartialEq, Eq, Structural)]
pub struct Color {
    pub red: u8,
    pub green: u8,
    pub blue: u8,
}

} // verus!
