//! The display palette and the packed color byte: background in the high
//! nibble, foreground in the low nibble.

use vstd::prelude::*;

verus! {

/// The palette entries the display distinguishes.
#[derive(Clone, Copy, PartialEq, Eq, Structural, Debug)]
pub enum Color {
    Black,
    Green,
    LightGreen,
    White,
}

impl Color {
    /// The hardware code of the palette entry: one nibble.
    pub open spec fn spec_code(self) -> u8 {
        match self {
            Color::Black => 0,
            Color::Green => 2,
            Color::LightGreen => 10,
            Color::White => 15,
        }
    }

    #[verifier::when_used_as_spec(spec_code)]
    pub fn code(self) -> (c: u8)
        ensures
            c == self.spec_code(),
    {
        match self {
            Color::Black => 0,
            Color::Green => 2,
            Color::LightGreen => 10,
            Color::White => 15,
        }
    }
}

/// The packed color byte for a foreground/background pair: the background
/// nibble shifted into the high half, the foreground nibble in the low half.
pub open spec fn spec_pack_color(fg: Color, bg: Color) -> u8 {
    (bg.spec_code() * 16 + fg.spec_code()) as u8
}

/// Packs a foreground/background pair into one color byte.
pub fn pack_color(fg: Color, bg: Color) -> (b: u8)
    ensures
        b == spec_pack_color(fg, bg),
{
    bg.code() * 16 + fg.code()
}

} // verus!
