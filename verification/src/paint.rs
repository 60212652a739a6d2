//! Resolving the paint of a fill or stroke to a solid colour.

use vstd::prelude::*;

verus! {

/// An 8-bit-per-channel RGB colour, as SVG documents give it.
#[derive(Clone, Copy, Debug, PartialEq, Eq, Structural)]
pub struct Rgb {
    pub red: u8,
    pub green: u8,
    pub blue: u8,
}

/// How a shape is painted: with a solid colour, or with a server that this
/// viewer does not render (a gradient or a pattern).
#[derive(Clone, Copy, Debug, PartialEq, Eq, Structural)]
pub enum Paint {
    Color(Rgb),
    Server,
}

/// The colour used for any paint other than a solid colour: black.
pub open spec fn spec_fallback_color() -> Rgb {
    Rgb { red: 0, green: 0, blue: 0 }
}

/// The solid colour that a paint is drawn with.
pub open spec fn spec_paint_color(paint: Paint) -> Rgb {
    match paint {
        Paint::Color(c) => c,
        Paint::Server => spec_fallback_color(),
    }
}

/// The colour used for any paint other than a solid colour: black.
pub fn fallback_color() -> (c: Rgb)
    ensures
        c == spec_fallback_color(),
        c.red == 0 && c.green == 0 && c.blue == 0,
{
    Rgb { red: 0, green: 0, blue: 0 }
}

/// The solid colour that `paint` is drawn with: its own colour, or black for
/// a paint server.
pub fn paint_color(paint: &Paint) -> (c: Rgb)
    ensures
        c == spec_paint_color(*paint),
        *paint matches Paint::Color(solid) ==> c.red == solid.red && c.green == solid.green
            && c.blue == solid.blue,
        *paint is Server ==> c.red == 0 && c.green == 0 && c.blue == 0,
{
    match paint {
        Paint::Color(c) => *c,
        Paint::Server => fallback_color(),
    }
}


/// A solid colour is drawn as it is, channel by channel, and every paint
/// server is drawn black.
pub proof fn lemma_paint_color_keeps_solid_colors(c: Rgb)
    ensures
        spec_paint_color(Paint::Color(c)).red == c.red,
        spec_paint_color(Paint::Color(c)).green == c.green,
        spec_paint_color(Paint::Color(c)).blue == c.blue,
        spec_paint_color(Paint::Server).red == 0,
        spec_paint_color(Paint::Server).green == 0,
        spec_paint_color(Paint::Server).blue == 0,
{
}

} // verus!
