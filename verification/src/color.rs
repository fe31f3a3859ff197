//! Colors for tile cells: an RGBA value with 8-bit channels, and the
//! background/foreground pair used when drawing a glyph.

use vstd::prelude::*;

verus! {

/// An RGBA color with 8-bit channels. The renderer never interprets the
/// channels; it only compares colors for equality when diffing frames.
#[derive(Debug, Clone, Copy, PartialEq, Eq, Structural)]
pub struct Color {
    pub r: u8,
    pub g: u8,
    pub b: u8,
    pub a: u8,
}

impl Color {
    /// A fully opaque color from red, green and blue channels.
    pub fn rgb(r: u8, g: u8, b: u8) -> (c: Color)
        ensures
            c == (Color { r, g, b, a: 255u8 }),
    {
        Color { r, g, b, a: 255 }
    }

    pub fn black() -> (c: Color)
        ensures
            c == (Color { r: 0u8, g: 0u8, b: 0u8, a: 255u8 }),
    {
        Color { r: 0, g: 0, b: 0, a: 255 }
    }

    pub fn white() -> (c: Color)
        ensures
            c == (Color { r: 255u8, g: 255u8, b: 255u8, a: 255u8 }),
    {
        Color { r: 255, g: 255, b: 255, a: 255 }
    }

    pub fn red() -> (c: Color)
        ensures
            c == (Color { r: 255u8, g: 0u8, b: 0u8, a: 255u8 }),
    {
        Color { r: 255, g: 0, b: 0, a: 255 }
    }

    pub fn green() -> (c: Color)
        ensures
            c == (Color { r: 0u8, g: 255u8, b: 0u8, a: 255u8 }),
    {
        Color { r: 0, g: 255, b: 0, a: 255 }
    }
}

/// The pair of colors a glyph is drawn with: the cell behind it and the
/// glyph itself.
#[derive(Debug, Clone, Copy, PartialEq, Eq, Structural)]
pub struct GlyphColor {
    pub background: Color,
    pub foreground: Color,
}

impl GlyphColor {
    pub fn new(background: Color, foreground: Color) -> (g: GlyphColor)
        ensures
            g == (GlyphColor { background, foreground }),
    {
        GlyphColor { background, foreground }
    }

    /// The given foreground over the default black background.
    pub fn foreground(foreground: Color) -> (g: GlyphColor)
        ensures
            g.foreground == foreground,
            g.background == (Color { r: 0u8, g: 0u8, b: 0u8, a: 255u8 }),
    {
        GlyphColor { background: Color::black(), foreground }
    }
}

impl Default for GlyphColor {
    /// Black background, white foreground.
    fn default() -> (g: GlyphColor)
        ensures
            g.background == (Color { r: 0u8, g: 0u8, b: 0u8, a: 255u8 }),
            g.foreground == (Color { r: 255u8, g: 255u8, b: 255u8, a: 255u8 }),
    {
        GlyphColor::new(Color::black(), Color::white())
    }
}

} // verus!
