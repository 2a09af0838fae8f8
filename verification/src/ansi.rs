//! Terminal colour references (named, indexed, direct) and the fixed
//! built-in palette that resolves them.

use vstd::prelude::*;
use crate::color::{opaque, Rgba8};

verus! {

/// The named colours of a terminal: the sixteen ANSI colours, the dim
/// variants, and the special foreground, background and cursor colours.
#[derive(Clone, Copy, Debug, PartialEq, Eq, Structural)]
pub enum NamedColor {
    Black,
    Red,
    Green,
    Yellow,
    Blue,
    Magenta,
    Cyan,
    White,
    BrightBlack,
    BrightRed,
    BrightGreen,
    BrightYellow,
    BrightBlue,
    BrightMagenta,
    BrightCyan,
    BrightWhite,
    Foreground,
    Background,
    Cursor,
    DimBlack,
    DimRed,
    DimGreen,
    DimYellow,
    DimBlue,
    DimMagenta,
    DimCyan,
    DimWhite,
    BrightForeground,
    DimForeground,
}

/// A colour as a terminal cell refers to it.
#[derive(Clone, Copy, Debug, PartialEq, Eq, Structural)]
pub enum AnsiColor {
    Named(NamedColor),
    Spec(u8, u8, u8),
    Indexed(u8),
}

/// The named colour that palette entries 0 to 15 stand for.
pub open spec fn named_of_index(idx: u8) -> NamedColor {
    match idx {
        0 => NamedColor::Black,
        1 => NamedColor::Red,
        2 => NamedColor::Green,
        3 => NamedColor::Yellow,
        4 => NamedColor::Blue,
        5 => NamedColor::Magenta,
        6 => NamedColor::Cyan,
        7 => NamedColor::White,
        8 => NamedColor::BrightBlack,
        9 => NamedColor::BrightRed,
        10 => NamedColor::BrightGreen,
        11 => NamedColor::BrightYellow,
        12 => NamedColor::BrightBlue,
        13 => NamedColor::BrightMagenta,
        14 => NamedColor::BrightCyan,
        15 => NamedColor::BrightWhite,
        _ => NamedColor::Foreground,
    }
}

/// Channel intensity of level `v` (0 to 5) of the 6x6x6 colour cube.
pub open spec fn cube_level(v: int) -> u8 {
    if v > 0 {
        (v * 40 + 55) as u8
    } else {
        0
    }
}

/// Palette entries 16 to 255: the 6x6x6 colour cube, then 24 greys.
pub open spec fn extended_palette(idx: u8) -> Rgba8 {
    if idx <= 231 {
        let i = idx - 16;
        opaque(cube_level((i / 36) % 6), cube_level((i / 6) % 6), cube_level(i % 6))
    } else {
        let g = ((idx - 232) * 10 + 8) as u8;
        opaque(g, g, g)
    }
}

pub fn named_of_palette_index(idx: u8) -> (res: NamedColor)
    requires
        idx < 16,
    ensures
        res == named_of_index(idx),
{
    match idx {
        0 => NamedColor::Black,
        1 => NamedColor::Red,
        2 => NamedColor::Green,
        3 => NamedColor::Yellow,
        4 => NamedColor::Blue,
        5 => NamedColor::Magenta,
        6 => NamedColor::Cyan,
        7 => NamedColor::White,
        8 => NamedColor::BrightBlack,
        9 => NamedColor::BrightRed,
        10 => NamedColor::BrightGreen,
        11 => NamedColor::BrightYellow,
        12 => NamedColor::BrightBlue,
        13 => NamedColor::BrightMagenta,
        14 => NamedColor::BrightCyan,
        _ => NamedColor::BrightWhite,
    }
}

/// The colour of palette entry `idx` for `idx >= 16`.
pub fn extended_palette_color(idx: u8) -> (res: Rgba8)
    requires
        idx >= 16,
    ensures
        res == extended_palette(idx),
{
    if idx <= 231 {
        let i = idx - 16;
        let r = (i / 36) % 6;
        let g = (i / 6) % 6;
        let b = i % 6;
        let r = if r > 0 { r * 40 + 55 } else { 0 };
        let g = if g > 0 { g * 40 + 55 } else { 0 };
        let b = if b > 0 { b * 40 + 55 } else { 0 };
        Rgba8::opaque(r, g, b)
    } else {
        let gray = (idx - 232) * 10 + 8;
        Rgba8::opaque(gray, gray, gray)
    }
}

/// The built-in colour of each named colour.
pub open spec fn builtin_named(named: NamedColor) -> Rgba8 {
    match named {
        NamedColor::Black => opaque(0x1E, 0x1E, 0x1E),
        NamedColor::Red => opaque(0xE0, 0x6C, 0x75),
        NamedColor::Green => opaque(0x98, 0xC3, 0x79),
        NamedColor::Yellow => opaque(0xE5, 0xC0, 0x7B),
        NamedColor::Blue => opaque(0x61, 0xAF, 0xEF),
        NamedColor::Magenta => opaque(0xC6, 0x78, 0xDD),
        NamedColor::Cyan => opaque(0x56, 0xB6, 0xC2),
        NamedColor::White => opaque(0xAB, 0xB2, 0xBF),
        NamedColor::BrightBlack => opaque(0x5C, 0x63, 0x70),
        NamedColor::BrightRed => opaque(0xE0, 0x6C, 0x75),
        NamedColor::BrightGreen => opaque(0x98, 0xC3, 0x79),
        NamedColor::BrightYellow => opaque(0xE5, 0xC0, 0x7B),
        NamedColor::BrightBlue => opaque(0x61, 0xAF, 0xEF),
        NamedColor::BrightMagenta => opaque(0xC6, 0x78, 0xDD),
        NamedColor::BrightCyan => opaque(0x56, 0xB6, 0xC2),
        NamedColor::BrightWhite => opaque(0xDF, 0xDF, 0xDF),
        NamedColor::Foreground => opaque(0xD4, 0xD4, 0xD4),
        NamedColor::Background => opaque(0x1E, 0x1E, 0x1E),
        NamedColor::Cursor => opaque(0xAE, 0xAF, 0xAD),
        NamedColor::DimBlack => opaque(0x1E, 0x1E, 0x1E),
        NamedColor::DimRed => opaque(0xBE, 0x5B, 0x65),
        NamedColor::DimGreen => opaque(0x7A, 0x9F, 0x60),
        NamedColor::DimYellow => opaque(0xD1, 0x9A, 0x66),
        NamedColor::DimBlue => opaque(0x4E, 0x88, 0xB8),
        NamedColor::DimMagenta => opaque(0xA0, 0x61, 0xB0),
        NamedColor::DimCyan => opaque(0x44, 0x91, 0x9B),
        NamedColor::DimWhite => opaque(0x8A, 0x8F, 0x98),
        NamedColor::BrightForeground => opaque(0xDF, 0xDF, 0xDF),
        NamedColor::DimForeground => opaque(0x8A, 0x8F, 0x98),
    }
}

/// The built-in colour of palette entry `idx`.
pub open spec fn builtin_indexed(idx: u8) -> Rgba8 {
    if idx < 16 {
        builtin_named(named_of_index(idx))
    } else {
        extended_palette(idx)
    }
}

/// The built-in colour a cell colour reference resolves to.
pub open spec fn builtin_color(color: AnsiColor) -> Rgba8 {
    match color {
        AnsiColor::Named(named) => builtin_named(named),
        AnsiColor::Spec(r, g, b) => opaque(r, g, b),
        AnsiColor::Indexed(idx) => builtin_indexed(idx),
    }
}

/// The built-in colour of a named colour.
pub fn named_color_to_rgba(named: NamedColor) -> (res: Rgba8)
    ensures
        res == builtin_named(named),
{
    match named {
        NamedColor::Black => Rgba8::opaque(0x1E, 0x1E, 0x1E),
        NamedColor::Red => Rgba8::opaque(0xE0, 0x6C, 0x75),
        NamedColor::Green => Rgba8::opaque(0x98, 0xC3, 0x79),
        NamedColor::Yellow => Rgba8::opaque(0xE5, 0xC0, 0x7B),
        NamedColor::Blue => Rgba8::opaque(0x61, 0xAF, 0xEF),
        NamedColor::Magenta => Rgba8::opaque(0xC6, 0x78, 0xDD),
        NamedColor::Cyan => Rgba8::opaque(0x56, 0xB6, 0xC2),
        NamedColor::White => Rgba8::opaque(0xAB, 0xB2, 0xBF),
        NamedColor::BrightBlack => Rgba8::opaque(0x5C, 0x63, 0x70),
        NamedColor::BrightRed => Rgba8::opaque(0xE0, 0x6C, 0x75),
        NamedColor::BrightGreen => Rgba8::opaque(0x98, 0xC3, 0x79),
        NamedColor::BrightYellow => Rgba8::opaque(0xE5, 0xC0, 0x7B),
        NamedColor::BrightBlue => Rgba8::opaque(0x61, 0xAF, 0xEF),
        NamedColor::BrightMagenta => Rgba8::opaque(0xC6, 0x78, 0xDD),
        NamedColor::BrightCyan => Rgba8::opaque(0x56, 0xB6, 0xC2),
        NamedColor::BrightWhite => Rgba8::opaque(0xDF, 0xDF, 0xDF),
        NamedColor::Foreground => Rgba8::opaque(0xD4, 0xD4, 0xD4),
        NamedColor::Background => Rgba8::opaque(0x1E, 0x1E, 0x1E),
        NamedColor::Cursor => Rgba8::opaque(0xAE, 0xAF, 0xAD),
        NamedColor::DimBlack => Rgba8::opaque(0x1E, 0x1E, 0x1E),
        NamedColor::DimRed => Rgba8::opaque(0xBE, 0x5B, 0x65),
        NamedColor::DimGreen => Rgba8::opaque(0x7A, 0x9F, 0x60),
        NamedColor::DimYellow => Rgba8::opaque(0xD1, 0x9A, 0x66),
        NamedColor::DimBlue => Rgba8::opaque(0x4E, 0x88, 0xB8),
        NamedColor::DimMagenta => Rgba8::opaque(0xA0, 0x61, 0xB0),
        NamedColor::DimCyan => Rgba8::opaque(0x44, 0x91, 0x9B),
        NamedColor::DimWhite => Rgba8::opaque(0x8A, 0x8F, 0x98),
        NamedColor::BrightForeground => Rgba8::opaque(0xDF, 0xDF, 0xDF),
        NamedColor::DimForeground => Rgba8::opaque(0x8A, 0x8F, 0x98),
    }
}

/// The built-in colour of palette entry `idx`.
pub fn indexed_color_to_rgba(idx: u8) -> (res: Rgba8)
    ensures
        res == builtin_indexed(idx),
{
    if idx < 16 {
        named_color_to_rgba(named_of_palette_index(idx))
    } else {
        extended_palette_color(idx)
    }
}

/// Resolves a cell colour reference with the built-in palette.
pub fn convert_color(color: &AnsiColor) -> (res: Rgba8)
    ensures
        res == builtin_color(*color),
{
    match color {
        AnsiColor::Named(named) => named_color_to_rgba(*named),
        AnsiColor::Spec(r, g, b) => Rgba8::opaque(*r, *g, *b),
        AnsiColor::Indexed(idx) => indexed_color_to_rgba(*idx),
    }
}

} // verus!
