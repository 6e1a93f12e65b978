//! Colours of glyphs and log messages.

use vstd::prelude::*;

verus! {

/// A 24-bit colour.
#[derive(Clone, Copy, Debug, PartialEq, Eq, Structural)]
pub struct Color {
    pub r: u8,
    pub g: u8,
    pub b: u8,
}

/// The colour white.
#[verifier::allow_in_spec]
pub fn white() -> Color
    returns
        (Color { r: 255, g: 255, b: 255 }),
{
    Color { r: 255, g: 255, b: 255 }
}

/// The colour red.
#[verifier::allow_in_spec]
pub fn red() -> Color
    returns
        (Color { r: 255, g: 0, b: 0 }),
{
    Color { r: 255, g: 0, b: 0 }
}

/// The colour light red.
#[verifier::allow_in_spec]
pub fn light_red() -> Color
    returns
        (Color { r: 255, g: 63, b: 63 }),
{
    Color { r: 255, g: 63, b: 63 }
}

/// The colour dark red.
#[verifier::allow_in_spec]
pub fn dark_red() -> Color
    returns
        (Color { r: 191, g: 0, b: 0 }),
{
    Color { r: 191, g: 0, b: 0 }
}

/// The colour darker red.
#[verifier::allow_in_spec]
pub fn darker_red() -> Color
    returns
        (Color { r: 127, g: 0, b: 0 }),
{
    Color { r: 127, g: 0, b: 0 }
}

/// The colour orange.
#[verifier::allow_in_spec]
pub fn orange() -> Color
    returns
        (Color { r: 255, g: 127, b: 0 }),
{
    Color { r: 255, g: 127, b: 0 }
}

/// The colour darker orange.
#[verifier::allow_in_spec]
pub fn darker_orange() -> Color
    returns
        (Color { r: 127, g: 63, b: 0 }),
{
    Color { r: 127, g: 63, b: 0 }
}

/// The colour yellow.
#[verifier::allow_in_spec]
pub fn yellow() -> Color
    returns
        (Color { r: 255, g: 255, b: 0 }),
{
    Color { r: 255, g: 255, b: 0 }
}

/// The colour light yellow.
#[verifier::allow_in_spec]
pub fn light_yellow() -> Color
    returns
        (Color { r: 255, g: 255, b: 63 }),
{
    Color { r: 255, g: 255, b: 63 }
}

/// The colour green.
#[verifier::allow_in_spec]
pub fn green() -> Color
    returns
        (Color { r: 0, g: 255, b: 0 }),
{
    Color { r: 0, g: 255, b: 0 }
}

/// The colour light green.
#[verifier::allow_in_spec]
pub fn light_green() -> Color
    returns
        (Color { r: 63, g: 255, b: 63 }),
{
    Color { r: 63, g: 255, b: 63 }
}

/// The colour dark green.
#[verifier::allow_in_spec]
pub fn dark_green() -> Color
    returns
        (Color { r: 0, g: 191, b: 0 }),
{
    Color { r: 0, g: 191, b: 0 }
}

/// The colour darker green.
#[verifier::allow_in_spec]
pub fn darker_green() -> Color
    returns
        (Color { r: 0, g: 127, b: 0 }),
{
    Color { r: 0, g: 127, b: 0 }
}

/// The colour desaturated green.
#[verifier::allow_in_spec]
pub fn desaturated_green() -> Color
    returns
        (Color { r: 63, g: 127, b: 63 }),
{
    Color { r: 63, g: 127, b: 63 }
}

/// The colour sky.
#[verifier::allow_in_spec]
pub fn sky() -> Color
    returns
        (Color { r: 0, g: 191, b: 255 }),
{
    Color { r: 0, g: 191, b: 255 }
}

/// The colour violet.
#[verifier::allow_in_spec]
pub fn violet() -> Color
    returns
        (Color { r: 127, g: 0, b: 255 }),
{
    Color { r: 127, g: 0, b: 255 }
}

} // verus!
