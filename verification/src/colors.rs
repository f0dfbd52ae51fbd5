//! The color palette of the bar, and its conversion to the rasterizer's colors.
use vstd::prelude::*;
use crate::raster::{premultiplied_color, premultiplied_from_rgba, premultiplied_transparent};

verus! {

/// RGBA color representation (0-255 range)
#[derive(Debug, Clone, Copy, PartialEq, Eq, Structural)]
pub struct Color {
    pub r: u8,
    pub g: u8,
    pub b: u8,
    pub a: u8,
}

/// A channel multiplied by the alpha, as an 8-bit premultiplied color holds it.
pub open spec fn premultiply(c: u8, a: u8) -> u8 {
    ((c as int * a as int) / 255) as u8
}

impl Color {
    pub fn new(r: u8, g: u8, b: u8, a: u8) -> (c: Self)
        ensures
            c == (Color { r, g, b, a }),
    {
        Self { r, g, b, a }
    }

    pub fn rgb(r: u8, g: u8, b: u8) -> (c: Self)
        ensures
            c == (Color { r, g, b, a: 255 }),
    {
        Self { r, g, b, a: 255 }
    }

    /// The channels of this color premultiplied by its alpha.
    pub fn premultiplied_channels(&self) -> (c: (u8, u8, u8, u8))
        ensures
            c == (premultiply(self.r, self.a), premultiply(self.g, self.a), premultiply(
                self.b,
                self.a,
            ), self.a),
            c.0 <= c.3 && c.1 <= c.3 && c.2 <= c.3,
    {
        let a = self.a as u16;
        assert(self.r as int * a as int <= 255 * 255) by (nonlinear_arith)
            requires
                self.r <= 255,
                a <= 255,
        ;
        assert(self.g as int * a as int <= 255 * 255) by (nonlinear_arith)
            requires
                self.g <= 255,
                a <= 255,
        ;
        assert(self.b as int * a as int <= 255 * 255) by (nonlinear_arith)
            requires
                self.b <= 255,
                a <= 255,
        ;
        let r = (self.r as u16 * a / 255) as u8;
        let g = (self.g as u16 * a / 255) as u8;
        let b = (self.b as u16 * a / 255) as u8;
        assert(r <= self.a) by (nonlinear_arith)
            requires
                r == (self.r as int * a as int) / 255,
                self.r <= 255,
                a == self.a,
        ;
        assert(g <= self.a) by (nonlinear_arith)
            requires
                g == (self.g as int * a as int) / 255,
                self.g <= 255,
                a == self.a,
        ;
        assert(b <= self.a) by (nonlinear_arith)
            requires
                b == (self.b as int * a as int) / 255,
                self.b <= 255,
                a == self.a,
        ;
        (r, g, b, self.a)
    }

    /// Convert to premultiplied RGBA for the rasterizer.
    pub fn to_premultiplied(&self) -> (c: tiny_skia::PremultipliedColorU8)
        ensures
            c == premultiplied_color(
                premultiply(self.r, self.a),
                premultiply(self.g, self.a),
                premultiply(self.b, self.a),
                self.a,
            ),
    {
        let (r, g, b, a) = self.premultiplied_channels();
        match premultiplied_from_rgba(r, g, b, a) {
            Some(c) => c,
            None => premultiplied_transparent(),
        }
    }
}

/// Deep black background - main compositor/bar background
pub fn onyx_black() -> (c: Color)
    ensures
        c == (Color { r: 18, g: 18, b: 22, a: 255 }),
{
    Color::rgb(18, 18, 22)
}

/// Muted text color
pub fn onyx_muted() -> (c: Color)
    ensures
        c == (Color { r: 128, g: 128, b: 140, a: 255 }),
{
    Color::rgb(128, 128, 140)
}

/// Primary text color
pub fn onyx_text() -> (c: Color)
    ensures
        c == (Color { r: 220, g: 220, b: 228, a: 255 }),
{
    Color::rgb(220, 220, 228)
}

/// Primary accent - vibrant blue
pub fn accent_primary() -> (c: Color)
    ensures
        c == (Color { r: 88, g: 166, b: 255, a: 255 }),
{
    Color::rgb(88, 166, 255)
}

/// Error/urgent color - coral red
pub fn accent_error() -> (c: Color)
    ensures
        c == (Color { r: 255, g: 99, b: 99, a: 255 }),
{
    Color::rgb(255, 99, 99)
}

/// Immersion workspace indicator - purple
pub fn accent_immersion() -> (c: Color)
    ensures
        c == (Color { r: 178, g: 102, b: 255, a: 255 }),
{
    Color::rgb(178, 102, 255)
}

/// Bar background color (semi-transparent black)
pub fn bar_bg() -> (c: Color)
    ensures
        c == (Color { r: 18, g: 18, b: 22, a: 230 }),
{
    Color::new(18, 18, 22, 230)
}

} // verus!
