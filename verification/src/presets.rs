//! The preset themes a theme manager starts with.

use vstd::prelude::*;
use crate::color::{opaque, Rgba8};
use crate::theme::TerminalTheme;
use crate::theme_manager::ThemeDefinition;

verus! {

/// The colours of the "One Dark" preset.
pub open spec fn one_dark_colors() -> TerminalTheme {
    TerminalTheme {
        foreground: opaque(0xAB, 0xB2, 0xBF),
        background: opaque(0x28, 0x2C, 0x34),
        cursor: opaque(0x52, 0x8B, 0xFF),
        selection: Rgba8 { r: 78, g: 124, b: 166, a: 140 },
        ansi: [
            opaque(0x3F, 0x44, 0x51),
            opaque(0xE0, 0x6C, 0x75),
            opaque(0x98, 0xC3, 0x79),
            opaque(0xE5, 0xC0, 0x7B),
            opaque(0x61, 0xAF, 0xEF),
            opaque(0xC6, 0x78, 0xDD),
            opaque(0x56, 0xB6, 0xC2),
            opaque(0xAB, 0xB2, 0xBF),
        ],
        bright: [
            opaque(0x5C, 0x63, 0x70),
            opaque(0xE0, 0x6C, 0x75),
            opaque(0x98, 0xC3, 0x79),
            opaque(0xE5, 0xC0, 0x7B),
            opaque(0x61, 0xAF, 0xEF),
            opaque(0xC6, 0x78, 0xDD),
            opaque(0x56, 0xB6, 0xC2),
            opaque(0xFF, 0xFF, 0xFF),
        ],
        dim: [
            opaque(0x2C, 0x31, 0x3A),
            opaque(0xBE, 0x5B, 0x65),
            opaque(0x7A, 0x9F, 0x60),
            opaque(0xD1, 0x9A, 0x66),
            opaque(0x4E, 0x88, 0xB8),
            opaque(0xA0, 0x61, 0xB0),
            opaque(0x44, 0x91, 0x9B),
            opaque(0x8A, 0x8F, 0x98),
        ],
        bright_foreground: opaque(0xFF, 0xFF, 0xFF),
        dim_foreground: opaque(0x8A, 0x8F, 0x98),
    }
}

/// The colours of the "Solarized Dark" preset.
pub open spec fn solarized_dark_colors() -> TerminalTheme {
    TerminalTheme {
        foreground: opaque(0x83, 0x94, 0x96),
        background: opaque(0x00, 0x2B, 0x36),
        cursor: opaque(0x83, 0x94, 0x96),
        selection: Rgba8 { r: 67, g: 112, b: 106, a: 128 },
        ansi: [
            opaque(0x07, 0x36, 0x42),
            opaque(0xDC, 0x32, 0x2F),
            opaque(0x85, 0x99, 0x00),
            opaque(0xB5, 0x89, 0x00),
            opaque(0x26, 0x8B, 0xD2),
            opaque(0xD3, 0x36, 0x82),
            opaque(0x2A, 0xA1, 0x98),
            opaque(0xEE, 0xE8, 0xD5),
        ],
        bright: [
            opaque(0x00, 0x2B, 0x36),
            opaque(0xCB, 0x4B, 0x16),
            opaque(0x58, 0x6E, 0x75),
            opaque(0x65, 0x7B, 0x83),
            opaque(0x83, 0x94, 0x96),
            opaque(0x6C, 0x71, 0xC4),
            opaque(0x93, 0xA1, 0xA1),
            opaque(0xFD, 0xF6, 0xE3),
        ],
        dim: [
            opaque(0x05, 0x28, 0x32),
            opaque(0xB0, 0x28, 0x25),
            opaque(0x6A, 0x7A, 0x00),
            opaque(0x90, 0x6D, 0x00),
            opaque(0x1E, 0x6D, 0xA8),
            opaque(0xA8, 0x2B, 0x68),
            opaque(0x22, 0x81, 0x79),
            opaque(0xC0, 0xBA, 0xAA),
        ],
        bright_foreground: opaque(0xFD, 0xF6, 0xE3),
        dim_foreground: opaque(0x58, 0x6E, 0x75),
    }
}

/// The colours of the "Dracula" preset.
pub open spec fn dracula_colors() -> TerminalTheme {
    TerminalTheme {
        foreground: opaque(0xF8, 0xF8, 0xF2),
        background: opaque(0x28, 0x2A, 0x36),
        cursor: opaque(0xF8, 0xF8, 0xF2),
        selection: Rgba8 { r: 105, g: 77, b: 128, a: 128 },
        ansi: [
            opaque(0x21, 0x22, 0x2C),
            opaque(0xFF, 0x55, 0x55),
            opaque(0x50, 0xFA, 0x7B),
            opaque(0xF1, 0xFA, 0x8C),
            opaque(0xBD, 0x93, 0xF9),
            opaque(0xFF, 0x79, 0xC6),
            opaque(0x8B, 0xE9, 0xFD),
            opaque(0xF8, 0xF8, 0xF2),
        ],
        bright: [
            opaque(0x62, 0x72, 0xA4),
            opaque(0xFF, 0x6E, 0x6E),
            opaque(0x69, 0xFF, 0x94),
            opaque(0xFF, 0xFF, 0xA5),
            opaque(0xD6, 0xAC, 0xFF),
            opaque(0xFF, 0x92, 0xDF),
            opaque(0xA4, 0xFF, 0xFF),
            opaque(0xFF, 0xFF, 0xFF),
        ],
        dim: [
            opaque(0x21, 0x22, 0x2C),
            opaque(0xCC, 0x44, 0x44),
            opaque(0x40, 0xC8, 0x62),
            opaque(0xC1, 0xC8, 0x70),
            opaque(0x97, 0x76, 0xC7),
            opaque(0xCC, 0x61, 0x9E),
            opaque(0x6F, 0xBA, 0xCA),
            opaque(0xC0, 0xC0, 0xC0),
        ],
        bright_foreground: opaque(0xFF, 0xFF, 0xFF),
        dim_foreground: opaque(0xC0, 0xC0, 0xC0),
    }
}

/// The colours of the "Nord" preset.
pub open spec fn nord_colors() -> TerminalTheme {
    TerminalTheme {
        foreground: opaque(0xD8, 0xDE, 0xE9),
        background: opaque(0x2E, 0x34, 0x40),
        cursor: opaque(0xD8, 0xDE, 0xE9),
        selection: Rgba8 { r: 77, g: 91, b: 128, a: 128 },
        ansi: [
            opaque(0x3B, 0x42, 0x52),
            opaque(0xBF, 0x61, 0x6A),
            opaque(0xA3, 0xBE, 0x8C),
            opaque(0xEB, 0xCB, 0x8B),
            opaque(0x81, 0xA1, 0xC1),
            opaque(0xB4, 0x8E, 0xAD),
            opaque(0x88, 0xC0, 0xD0),
            opaque(0xE5, 0xE9, 0xF0),
        ],
        bright: [
            opaque(0x4C, 0x56, 0x6A),
            opaque(0xBF, 0x61, 0x6A),
            opaque(0xA3, 0xBE, 0x8C),
            opaque(0xEB, 0xCB, 0x8B),
            opaque(0x81, 0xA1, 0xC1),
            opaque(0xB4, 0x8E, 0xAD),
            opaque(0x8F, 0xBC, 0xBB),
            opaque(0xEC, 0xEF, 0xF4),
        ],
        dim: [
            opaque(0x2E, 0x34, 0x40),
            opaque(0x99, 0x4E, 0x55),
            opaque(0x82, 0x98, 0x70),
            opaque(0xBC, 0xA2, 0x6F),
            opaque(0x67, 0x81, 0x9A),
            opaque(0x90, 0x71, 0x8A),
            opaque(0x6D, 0x99, 0xA6),
            opaque(0xB8, 0xBB, 0xC0),
        ],
        bright_foreground: opaque(0xEC, 0xEF, 0xF4),
        dim_foreground: opaque(0x4C, 0x56, 0x6A),
    }
}

/// The colours of the "Gruvbox Dark" preset.
pub open spec fn gruvbox_dark_colors() -> TerminalTheme {
    TerminalTheme {
        foreground: opaque(0xEB, 0xDB, 0xB2),
        background: opaque(0x28, 0x28, 0x28),
        cursor: opaque(0xEB, 0xDB, 0xB2),
        selection: Rgba8 { r: 112, g: 96, b: 67, a: 128 },
        ansi: [
            opaque(0x28, 0x28, 0x28),
            opaque(0xCC, 0x24, 0x1D),
            opaque(0x98, 0x97, 0x1A),
            opaque(0xD7, 0x99, 0x21),
            opaque(0x45, 0x85, 0x88),
            opaque(0xB1, 0x62, 0x86),
            opaque(0x68, 0x9D, 0x6A),
            opaque(0xA8, 0x99, 0x84),
        ],
        bright: [
            opaque(0x92, 0x83, 0x74),
            opaque(0xFB, 0x49, 0x34),
            opaque(0xB8, 0xBB, 0x26),
            opaque(0xFA, 0xBD, 0x2F),
            opaque(0x83, 0xA5, 0x98),
            opaque(0xD3, 0x86, 0x9B),
            opaque(0x8E, 0xC0, 0x7C),
            opaque(0xEB, 0xDB, 0xB2),
        ],
        dim: [
            opaque(0x1D, 0x20, 0x21),
            opaque(0x9D, 0x00, 0x06),
            opaque(0x79, 0x74, 0x0E),
            opaque(0xB5, 0x76, 0x14),
            opaque(0x07, 0x66, 0x78),
            opaque(0x8F, 0x3F, 0x71),
            opaque(0x42, 0x7B, 0x58),
            opaque(0x66, 0x5C, 0x54),
        ],
        bright_foreground: opaque(0xEB, 0xDB, 0xB2),
        dim_foreground: opaque(0x66, 0x5C, 0x54),
    }
}

/// The colours of the "One Light" preset.
pub open spec fn one_light_colors() -> TerminalTheme {
    TerminalTheme {
        foreground: opaque(0x38, 0x3A, 0x42),
        background: opaque(0xFA, 0xFA, 0xFA),
        cursor: opaque(0x52, 0x6F, 0xFF),
        selection: Rgba8 { r: 175, g: 192, b: 207, a: 128 },
        ansi: [
            opaque(0x38, 0x3A, 0x42),
            opaque(0xE4, 0x56, 0x49),
            opaque(0x50, 0xA1, 0x4F),
            opaque(0xC1, 0x84, 0x01),
            opaque(0x40, 0x78, 0xF2),
            opaque(0xA6, 0x26, 0xA4),
            opaque(0x01, 0x84, 0xBC),
            opaque(0xA0, 0xA1, 0xA7),
        ],
        bright: [
            opaque(0x69, 0x6C, 0x77),
            opaque(0xE4, 0x56, 0x49),
            opaque(0x50, 0xA1, 0x4F),
            opaque(0xC1, 0x84, 0x01),
            opaque(0x40, 0x78, 0xF2),
            opaque(0xA6, 0x26, 0xA4),
            opaque(0x01, 0x84, 0xBC),
            opaque(0x09, 0x0A, 0x0B),
        ],
        dim: [
            opaque(0x69, 0x6C, 0x77),
            opaque(0xB8, 0x45, 0x3A),
            opaque(0x40, 0x81, 0x3F),
            opaque(0x9A, 0x6A, 0x01),
            opaque(0x33, 0x60, 0xC2),
            opaque(0x85, 0x1E, 0x83),
            opaque(0x01, 0x6A, 0x96),
            opaque(0x2C, 0x2D, 0x33),
        ],
        bright_foreground: opaque(0x09, 0x0A, 0x0B),
        dim_foreground: opaque(0xA0, 0xA1, 0xA7),
    }
}

/// The colours of the "Solarized Light" preset.
pub open spec fn solarized_light_colors() -> TerminalTheme {
    TerminalTheme {
        foreground: opaque(0x65, 0x7B, 0x83),
        background: opaque(0xFD, 0xF6, 0xE3),
        cursor: opaque(0x65, 0x7B, 0x83),
        selection: Rgba8 { r: 182, g: 201, b: 199, a: 115 },
        ansi: [
            opaque(0x07, 0x36, 0x42),
            opaque(0xDC, 0x32, 0x2F),
            opaque(0x85, 0x99, 0x00),
            opaque(0xB5, 0x89, 0x00),
            opaque(0x26, 0x8B, 0xD2),
            opaque(0xD3, 0x36, 0x82),
            opaque(0x2A, 0xA1, 0x98),
            opaque(0xEE, 0xE8, 0xD5),
        ],
        bright: [
            opaque(0x00, 0x2B, 0x36),
            opaque(0xCB, 0x4B, 0x16),
            opaque(0x58, 0x6E, 0x75),
            opaque(0x65, 0x7B, 0x83),
            opaque(0x83, 0x94, 0x96),
            opaque(0x6C, 0x71, 0xC4),
            opaque(0x93, 0xA1, 0xA1),
            opaque(0x00, 0x2B, 0x36),
        ],
        dim: [
            opaque(0xC0, 0xBA, 0xAA),
            opaque(0xB0, 0x28, 0x25),
            opaque(0x6A, 0x7A, 0x00),
            opaque(0x90, 0x6D, 0x00),
            opaque(0x1E, 0x6D, 0xA8),
            opaque(0xA8, 0x2B, 0x68),
            opaque(0x22, 0x81, 0x79),
            opaque(0x05, 0x28, 0x32),
        ],
        bright_foreground: opaque(0x00, 0x2B, 0x36),
        dim_foreground: opaque(0x93, 0xA1, 0xA1),
    }
}

/// The colours of the "GitHub Light" preset.
pub open spec fn github_light_colors() -> TerminalTheme {
    TerminalTheme {
        foreground: opaque(0x24, 0x29, 0x2E),
        background: opaque(0xFF, 0xFF, 0xFF),
        cursor: opaque(0x04, 0x4A, 0x89),
        selection: Rgba8 { r: 194, g: 202, b: 214, a: 115 },
        ansi: [
            opaque(0x24, 0x29, 0x2E),
            opaque(0xCF, 0x22, 0x2E),
            opaque(0x11, 0x6B, 0x29),
            opaque(0x4D, 0x2D, 0x00),
            opaque(0x03, 0x49, 0xB4),
            opaque(0x58, 0x41, 0x93),
            opaque(0x0E, 0x60, 0x94),
            opaque(0x6E, 0x77, 0x81),
        ],
        bright: [
            opaque(0x57, 0x60, 0x6A),
            opaque(0xA4, 0x00, 0x00),
            opaque(0x11, 0x6B, 0x29),
            opaque(0x4D, 0x2D, 0x00),
            opaque(0x03, 0x49, 0xB4),
            opaque(0x58, 0x41, 0x93),
            opaque(0x0E, 0x60, 0x94),
            opaque(0x24, 0x29, 0x2E),
        ],
        dim: [
            opaque(0x8C, 0x95, 0x9F),
            opaque(0xA4, 0x1B, 0x24),
            opaque(0x1B, 0x6B, 0x2E),
            opaque(0xAF, 0x89, 0x07),
            opaque(0x02, 0x52, 0xAB),
            opaque(0x6A, 0x40, 0xBC),
            opaque(0x12, 0x61, 0x95),
            opaque(0x1C, 0x21, 0x25),
        ],
        bright_foreground: opaque(0x00, 0x00, 0x00),
        dim_foreground: opaque(0x6E, 0x77, 0x81),
    }
}

/// The colours of the "Gruvbox Light" preset.
pub open spec fn gruvbox_light_colors() -> TerminalTheme {
    TerminalTheme {
        foreground: opaque(0x3C, 0x38, 0x36),
        background: opaque(0xFB, 0xF1, 0xC7),
        cursor: opaque(0x3C, 0x38, 0x36),
        selection: Rgba8 { r: 214, g: 207, b: 194, a: 115 },
        ansi: [
            opaque(0x3C, 0x38, 0x36),
            opaque(0xCC, 0x24, 0x1D),
            opaque(0x98, 0x97, 0x1A),
            opaque(0xD7, 0x99, 0x21),
            opaque(0x45, 0x85, 0x88),
            opaque(0xB1, 0x62, 0x86),
            opaque(0x68, 0x9D, 0x6A),
            opaque(0x7C, 0x6F, 0x64),
        ],
        bright: [
            opaque(0x66, 0x5C, 0x54),
            opaque(0x9D, 0x00, 0x06),
            opaque(0x79, 0x74, 0x0E),
            opaque(0xB5, 0x76, 0x14),
            opaque(0x07, 0x66, 0x78),
            opaque(0x8F, 0x3F, 0x71),
            opaque(0x42, 0x7B, 0x58),
            opaque(0x28, 0x28, 0x28),
        ],
        dim: [
            opaque(0xA8, 0x99, 0x84),
            opaque(0xFB, 0x49, 0x34),
            opaque(0xB8, 0xBB, 0x26),
            opaque(0xFA, 0xBD, 0x2F),
            opaque(0x83, 0xA5, 0x98),
            opaque(0xD3, 0x86, 0x9B),
            opaque(0x8E, 0xC0, 0x7C),
            opaque(0x66, 0x5C, 0x54),
        ],
        bright_foreground: opaque(0x28, 0x28, 0x28),
        dim_foreground: opaque(0x92, 0x83, 0x74),
    }
}

/// Name and colours of each preset, in the order they are registered.
pub open spec fn preset_entries() -> Seq<(Seq<char>, TerminalTheme)> {
    seq![
        ("One Dark"@, one_dark_colors()),
        ("Solarized Dark"@, solarized_dark_colors()),
        ("Dracula"@, dracula_colors()),
        ("Nord"@, nord_colors()),
        ("Gruvbox Dark"@, gruvbox_dark_colors()),
        ("One Light"@, one_light_colors()),
        ("Solarized Light"@, solarized_light_colors()),
        ("GitHub Light"@, github_light_colors()),
        ("Gruvbox Light"@, gruvbox_light_colors()),
    ]
}

pub(crate) fn theme_one_dark() -> (d: ThemeDefinition)
    ensures
        d.name@ == "One Dark"@,
        d.theme == one_dark_colors(),
{
    ThemeDefinition {
        name: String::from_str("One Dark"),
        theme: TerminalTheme {
            foreground: Rgba8::opaque(0xAB, 0xB2, 0xBF),
            background: Rgba8::opaque(0x28, 0x2C, 0x34),
            cursor: Rgba8::opaque(0x52, 0x8B, 0xFF),
            selection: Rgba8 { r: 78, g: 124, b: 166, a: 140 },
            ansi: [
                Rgba8::opaque(0x3F, 0x44, 0x51),
                Rgba8::opaque(0xE0, 0x6C, 0x75),
                Rgba8::opaque(0x98, 0xC3, 0x79),
                Rgba8::opaque(0xE5, 0xC0, 0x7B),
                Rgba8::opaque(0x61, 0xAF, 0xEF),
                Rgba8::opaque(0xC6, 0x78, 0xDD),
                Rgba8::opaque(0x56, 0xB6, 0xC2),
                Rgba8::opaque(0xAB, 0xB2, 0xBF),
            ],
            bright: [
                Rgba8::opaque(0x5C, 0x63, 0x70),
                Rgba8::opaque(0xE0, 0x6C, 0x75),
                Rgba8::opaque(0x98, 0xC3, 0x79),
                Rgba8::opaque(0xE5, 0xC0, 0x7B),
                Rgba8::opaque(0x61, 0xAF, 0xEF),
                Rgba8::opaque(0xC6, 0x78, 0xDD),
                Rgba8::opaque(0x56, 0xB6, 0xC2),
                Rgba8::opaque(0xFF, 0xFF, 0xFF),
            ],
            dim: [
                Rgba8::opaque(0x2C, 0x31, 0x3A),
                Rgba8::opaque(0xBE, 0x5B, 0x65),
                Rgba8::opaque(0x7A, 0x9F, 0x60),
                Rgba8::opaque(0xD1, 0x9A, 0x66),
                Rgba8::opaque(0x4E, 0x88, 0xB8),
                Rgba8::opaque(0xA0, 0x61, 0xB0),
                Rgba8::opaque(0x44, 0x91, 0x9B),
                Rgba8::opaque(0x8A, 0x8F, 0x98),
            ],
            bright_foreground: Rgba8::opaque(0xFF, 0xFF, 0xFF),
            dim_foreground: Rgba8::opaque(0x8A, 0x8F, 0x98),
        },
    }
}

pub(crate) fn theme_solarized_dark() -> (d: ThemeDefinition)
    ensures
        d.name@ == "Solarized Dark"@,
        d.theme == solarized_dark_colors(),
{
    ThemeDefinition {
        name: String::from_str("Solarized Dark"),
        theme: TerminalTheme {
            foreground: Rgba8::opaque(0x83, 0x94, 0x96),
            background: Rgba8::opaque(0x00, 0x2B, 0x36),
            cursor: Rgba8::opaque(0x83, 0x94, 0x96),
            selection: Rgba8 { r: 67, g: 112, b: 106, a: 128 },
            ansi: [
                Rgba8::opaque(0x07, 0x36, 0x42),
                Rgba8::opaque(0xDC, 0x32, 0x2F),
                Rgba8::opaque(0x85, 0x99, 0x00),
                Rgba8::opaque(0xB5, 0x89, 0x00),
                Rgba8::opaque(0x26, 0x8B, 0xD2),
                Rgba8::opaque(0xD3, 0x36, 0x82),
                Rgba8::opaque(0x2A, 0xA1, 0x98),
                Rgba8::opaque(0xEE, 0xE8, 0xD5),
            ],
            bright: [
                Rgba8::opaque(0x00, 0x2B, 0x36),
                Rgba8::opaque(0xCB, 0x4B, 0x16),
                Rgba8::opaque(0x58, 0x6E, 0x75),
                Rgba8::opaque(0x65, 0x7B, 0x83),
                Rgba8::opaque(0x83, 0x94, 0x96),
                Rgba8::opaque(0x6C, 0x71, 0xC4),
                Rgba8::opaque(0x93, 0xA1, 0xA1),
                Rgba8::opaque(0xFD, 0xF6, 0xE3),
            ],
            dim: [
                Rgba8::opaque(0x05, 0x28, 0x32),
                Rgba8::opaque(0xB0, 0x28, 0x25),
                Rgba8::opaque(0x6A, 0x7A, 0x00),
                Rgba8::opaque(0x90, 0x6D, 0x00),
                Rgba8::opaque(0x1E, 0x6D, 0xA8),
                Rgba8::opaque(0xA8, 0x2B, 0x68),
                Rgba8::opaque(0x22, 0x81, 0x79),
                Rgba8::opaque(0xC0, 0xBA, 0xAA),
            ],
            bright_foreground: Rgba8::opaque(0xFD, 0xF6, 0xE3),
            dim_foreground: Rgba8::opaque(0x58, 0x6E, 0x75),
        },
    }
}

pub(crate) fn theme_dracula() -> (d: ThemeDefinition)
    ensures
        d.name@ == "Dracula"@,
        d.theme == dracula_colors(),
{
    ThemeDefinition {
        name: String::from_str("Dracula"),
        theme: TerminalTheme {
            foreground: Rgba8::opaque(0xF8, 0xF8, 0xF2),
            background: Rgba8::opaque(0x28, 0x2A, 0x36),
            cursor: Rgba8::opaque(0xF8, 0xF8, 0xF2),
            selection: Rgba8 { r: 105, g: 77, b: 128, a: 128 },
            ansi: [
                Rgba8::opaque(0x21, 0x22, 0x2C),
                Rgba8::opaque(0xFF, 0x55, 0x55),
                Rgba8::opaque(0x50, 0xFA, 0x7B),
                Rgba8::opaque(0xF1, 0xFA, 0x8C),
                Rgba8::opaque(0xBD, 0x93, 0xF9),
                Rgba8::opaque(0xFF, 0x79, 0xC6),
                Rgba8::opaque(0x8B, 0xE9, 0xFD),
                Rgba8::opaque(0xF8, 0xF8, 0xF2),
            ],
            bright: [
                Rgba8::opaque(0x62, 0x72, 0xA4),
                Rgba8::opaque(0xFF, 0x6E, 0x6E),
                Rgba8::opaque(0x69, 0xFF, 0x94),
                Rgba8::opaque(0xFF, 0xFF, 0xA5),
                Rgba8::opaque(0xD6, 0xAC, 0xFF),
                Rgba8::opaque(0xFF, 0x92, 0xDF),
                Rgba8::opaque(0xA4, 0xFF, 0xFF),
                Rgba8::opaque(0xFF, 0xFF, 0xFF),
            ],
            dim: [
                Rgba8::opaque(0x21, 0x22, 0x2C),
                Rgba8::opaque(0xCC, 0x44, 0x44),
                Rgba8::opaque(0x40, 0xC8, 0x62),
                Rgba8::opaque(0xC1, 0xC8, 0x70),
                Rgba8::opaque(0x97, 0x76, 0xC7),
                Rgba8::opaque(0xCC, 0x61, 0x9E),
                Rgba8::opaque(0x6F, 0xBA, 0xCA),
                Rgba8::opaque(0xC0, 0xC0, 0xC0),
            ],
            bright_foreground: Rgba8::opaque(0xFF, 0xFF, 0xFF),
            dim_foreground: Rgba8::opaque(0xC0, 0xC0, 0xC0),
        },
    }
}

pub(crate) fn theme_nord() -> (d: ThemeDefinition)
    ensures
        d.name@ == "Nord"@,
        d.theme == nord_colors(),
{
    ThemeDefinition {
        name: String::from_str("Nord"),
        theme: TerminalTheme {
            foreground: Rgba8::opaque(0xD8, 0xDE, 0xE9),
            background: Rgba8::opaque(0x2E, 0x34, 0x40),
            cursor: Rgba8::opaque(0xD8, 0xDE, 0xE9),
            selection: Rgba8 { r: 77, g: 91, b: 128, a: 128 },
            ansi: [
                Rgba8::opaque(0x3B, 0x42, 0x52),
                Rgba8::opaque(0xBF, 0x61, 0x6A),
                Rgba8::opaque(0xA3, 0xBE, 0x8C),
                Rgba8::opaque(0xEB, 0xCB, 0x8B),
                Rgba8::opaque(0x81, 0xA1, 0xC1),
                Rgba8::opaque(0xB4, 0x8E, 0xAD),
                Rgba8::opaque(0x88, 0xC0, 0xD0),
                Rgba8::opaque(0xE5, 0xE9, 0xF0),
            ],
            bright: [
                Rgba8::opaque(0x4C, 0x56, 0x6A),
                Rgba8::opaque(0xBF, 0x61, 0x6A),
                Rgba8::opaque(0xA3, 0xBE, 0x8C),
                Rgba8::opaque(0xEB, 0xCB, 0x8B),
                Rgba8::opaque(0x81, 0xA1, 0xC1),
                Rgba8::opaque(0xB4, 0x8E, 0xAD),
                Rgba8::opaque(0x8F, 0xBC, 0xBB),
                Rgba8::opaque(0xEC, 0xEF, 0xF4),
            ],
            dim: [
                Rgba8::opaque(0x2E, 0x34, 0x40),
                Rgba8::opaque(0x99, 0x4E, 0x55),
                Rgba8::opaque(0x82, 0x98, 0x70),
                Rgba8::opaque(0xBC, 0xA2, 0x6F),
                Rgba8::opaque(0x67, 0x81, 0x9A),
                Rgba8::opaque(0x90, 0x71, 0x8A),
                Rgba8::opaque(0x6D, 0x99, 0xA6),
                Rgba8::opaque(0xB8, 0xBB, 0xC0),
            ],
            bright_foreground: Rgba8::opaque(0xEC, 0xEF, 0xF4),
            dim_foreground: Rgba8::opaque(0x4C, 0x56, 0x6A),
        },
    }
}

pub(crate) fn theme_gruvbox_dark() -> (d: ThemeDefinition)
    ensures
        d.name@ == "Gruvbox Dark"@,
        d.theme == gruvbox_dark_colors(),
{
    ThemeDefinition {
        name: String::from_str("Gruvbox Dark"),
        theme: TerminalTheme {
            foreground: Rgba8::opaque(0xEB, 0xDB, 0xB2),
            background: Rgba8::opaque(0x28, 0x28, 0x28),
            cursor: Rgba8::opaque(0xEB, 0xDB, 0xB2),
            selection: Rgba8 { r: 112, g: 96, b: 67, a: 128 },
            ansi: [
                Rgba8::opaque(0x28, 0x28, 0x28),
                Rgba8::opaque(0xCC, 0x24, 0x1D),
                Rgba8::opaque(0x98, 0x97, 0x1A),
                Rgba8::opaque(0xD7, 0x99, 0x21),
                Rgba8::opaque(0x45, 0x85, 0x88),
                Rgba8::opaque(0xB1, 0x62, 0x86),
                Rgba8::opaque(0x68, 0x9D, 0x6A),
                Rgba8::opaque(0xA8, 0x99, 0x84),
            ],
            bright: [
                Rgba8::opaque(0x92, 0x83, 0x74),
                Rgba8::opaque(0xFB, 0x49, 0x34),
                Rgba8::opaque(0xB8, 0xBB, 0x26),
                Rgba8::opaque(0xFA, 0xBD, 0x2F),
                Rgba8::opaque(0x83, 0xA5, 0x98),
                Rgba8::opaque(0xD3, 0x86, 0x9B),
                Rgba8::opaque(0x8E, 0xC0, 0x7C),
                Rgba8::opaque(0xEB, 0xDB, 0xB2),
            ],
            dim: [
                Rgba8::opaque(0x1D, 0x20, 0x21),
                Rgba8::opaque(0x9D, 0x00, 0x06),
                Rgba8::opaque(0x79, 0x74, 0x0E),
                Rgba8::opaque(0xB5, 0x76, 0x14),
                Rgba8::opaque(0x07, 0x66, 0x78),
                Rgba8::opaque(0x8F, 0x3F, 0x71),
                Rgba8::opaque(0x42, 0x7B, 0x58),
                Rgba8::opaque(0x66, 0x5C, 0x54),
            ],
            bright_foreground: Rgba8::opaque(0xEB, 0xDB, 0xB2),
            dim_foreground: Rgba8::opaque(0x66, 0x5C, 0x54),
        },
    }
}

pub(crate) fn theme_one_light() -> (d: ThemeDefinition)
    ensures
        d.name@ == "One Light"@,
        d.theme == one_light_colors(),
{
    ThemeDefinition {
        name: String::from_str("One Light"),
        theme: TerminalTheme {
            foreground: Rgba8::opaque(0x38, 0x3A, 0x42),
            background: Rgba8::opaque(0xFA, 0xFA, 0xFA),
            cursor: Rgba8::opaque(0x52, 0x6F, 0xFF),
            selection: Rgba8 { r: 175, g: 192, b: 207, a: 128 },
            ansi: [
                Rgba8::opaque(0x38, 0x3A, 0x42),
                Rgba8::opaque(0xE4, 0x56, 0x49),
                Rgba8::opaque(0x50, 0xA1, 0x4F),
                Rgba8::opaque(0xC1, 0x84, 0x01),
                Rgba8::opaque(0x40, 0x78, 0xF2),
                Rgba8::opaque(0xA6, 0x26, 0xA4),
                Rgba8::opaque(0x01, 0x84, 0xBC),
                Rgba8::opaque(0xA0, 0xA1, 0xA7),
            ],
            bright: [
                Rgba8::opaque(0x69, 0x6C, 0x77),
                Rgba8::opaque(0xE4, 0x56, 0x49),
                Rgba8::opaque(0x50, 0xA1, 0x4F),
                Rgba8::opaque(0xC1, 0x84, 0x01),
                Rgba8::opaque(0x40, 0x78, 0xF2),
                Rgba8::opaque(0xA6, 0x26, 0xA4),
                Rgba8::opaque(0x01, 0x84, 0xBC),
                Rgba8::opaque(0x09, 0x0A, 0x0B),
            ],
            dim: [
                Rgba8::opaque(0x69, 0x6C, 0x77),
                Rgba8::opaque(0xB8, 0x45, 0x3A),
                Rgba8::opaque(0x40, 0x81, 0x3F),
                Rgba8::opaque(0x9A, 0x6A, 0x01),
                Rgba8::opaque(0x33, 0x60, 0xC2),
                Rgba8::opaque(0x85, 0x1E, 0x83),
                Rgba8::opaque(0x01, 0x6A, 0x96),
                Rgba8::opaque(0x2C, 0x2D, 0x33),
            ],
            bright_foreground: Rgba8::opaque(0x09, 0x0A, 0x0B),
            dim_foreground: Rgba8::opaque(0xA0, 0xA1, 0xA7),
        },
    }
}

pub(crate) fn theme_solarized_light() -> (d: ThemeDefinition)
    ensures
        d.name@ == "Solarized Light"@,
        d.theme == solarized_light_colors(),
{
    ThemeDefinition {
        name: String::from_str("Solarized Light"),
        theme: TerminalTheme {
            foreground: Rgba8::opaque(0x65, 0x7B, 0x83),
            background: Rgba8::opaque(0xFD, 0xF6, 0xE3),
            cursor: Rgba8::opaque(0x65, 0x7B, 0x83),
            selection: Rgba8 { r: 182, g: 201, b: 199, a: 115 },
            ansi: [
                Rgba8::opaque(0x07, 0x36, 0x42),
                Rgba8::opaque(0xDC, 0x32, 0x2F),
                Rgba8::opaque(0x85, 0x99, 0x00),
                Rgba8::opaque(0xB5, 0x89, 0x00),
                Rgba8::opaque(0x26, 0x8B, 0xD2),
                Rgba8::opaque(0xD3, 0x36, 0x82),
                Rgba8::opaque(0x2A, 0xA1, 0x98),
                Rgba8::opaque(0xEE, 0xE8, 0xD5),
            ],
            bright: [
                Rgba8::opaque(0x00, 0x2B, 0x36),
                Rgba8::opaque(0xCB, 0x4B, 0x16),
                Rgba8::opaque(0x58, 0x6E, 0x75),
                Rgba8::opaque(0x65, 0x7B, 0x83),
                Rgba8::opaque(0x83, 0x94, 0x96),
                Rgba8::opaque(0x6C, 0x71, 0xC4),
                Rgba8::opaque(0x93, 0xA1, 0xA1),
                Rgba8::opaque(0x00, 0x2B, 0x36),
            ],
            dim: [
                Rgba8::opaque(0xC0, 0xBA, 0xAA),
                Rgba8::opaque(0xB0, 0x28, 0x25),
                Rgba8::opaque(0x6A, 0x7A, 0x00),
                Rgba8::opaque(0x90, 0x6D, 0x00),
                Rgba8::opaque(0x1E, 0x6D, 0xA8),
                Rgba8::opaque(0xA8, 0x2B, 0x68),
                Rgba8::opaque(0x22, 0x81, 0x79),
                Rgba8::opaque(0x05, 0x28, 0x32),
            ],
            bright_foreground: Rgba8::opaque(0x00, 0x2B, 0x36),
            dim_foreground: Rgba8::opaque(0x93, 0xA1, 0xA1),
        },
    }
}

pub(crate) fn theme_github_light() -> (d: ThemeDefinition)
    ensures
        d.name@ == "GitHub Light"@,
        d.theme == github_light_colors(),
{
    ThemeDefinition {
        name: String::from_str("GitHub Light"),
        theme: TerminalTheme {
            foreground: Rgba8::opaque(0x24, 0x29, 0x2E),
            background: Rgba8::opaque(0xFF, 0xFF, 0xFF),
            cursor: Rgba8::opaque(0x04, 0x4A, 0x89),
            selection: Rgba8 { r: 194, g: 202, b: 214, a: 115 },
            ansi: [
                Rgba8::opaque(0x24, 0x29, 0x2E),
                Rgba8::opaque(0xCF, 0x22, 0x2E),
                Rgba8::opaque(0x11, 0x6B, 0x29),
                Rgba8::opaque(0x4D, 0x2D, 0x00),
                Rgba8::opaque(0x03, 0x49, 0xB4),
                Rgba8::opaque(0x58, 0x41, 0x93),
                Rgba8::opaque(0x0E, 0x60, 0x94),
                Rgba8::opaque(0x6E, 0x77, 0x81),
            ],
            bright: [
                Rgba8::opaque(0x57, 0x60, 0x6A),
                Rgba8::opaque(0xA4, 0x00, 0x00),
                Rgba8::opaque(0x11, 0x6B, 0x29),
                Rgba8::opaque(0x4D, 0x2D, 0x00),
                Rgba8::opaque(0x03, 0x49, 0xB4),
                Rgba8::opaque(0x58, 0x41, 0x93),
                Rgba8::opaque(0x0E, 0x60, 0x94),
                Rgba8::opaque(0x24, 0x29, 0x2E),
            ],
            dim: [
                Rgba8::opaque(0x8C, 0x95, 0x9F),
                Rgba8::opaque(0xA4, 0x1B, 0x24),
                Rgba8::opaque(0x1B, 0x6B, 0x2E),
                Rgba8::opaque(0xAF, 0x89, 0x07),
                Rgba8::opaque(0x02, 0x52, 0xAB),
                Rgba8::opaque(0x6A, 0x40, 0xBC),
                Rgba8::opaque(0x12, 0x61, 0x95),
                Rgba8::opaque(0x1C, 0x21, 0x25),
            ],
            bright_foreground: Rgba8::opaque(0x00, 0x00, 0x00),
            dim_foreground: Rgba8::opaque(0x6E, 0x77, 0x81),
        },
    }
}

pub(crate) fn theme_gruvbox_light() -> (d: ThemeDefinition)
    ensures
        d.name@ == "Gruvbox Light"@,
        d.theme == gruvbox_light_colors(),
{
    ThemeDefinition {
        name: String::from_str("Gruvbox Light"),
        theme: TerminalTheme {
            foreground: Rgba8::opaque(0x3C, 0x38, 0x36),
            background: Rgba8::opaque(0xFB, 0xF1, 0xC7),
            cursor: Rgba8::opaque(0x3C, 0x38, 0x36),
            selection: Rgba8 { r: 214, g: 207, b: 194, a: 115 },
            ansi: [
                Rgba8::opaque(0x3C, 0x38, 0x36),
                Rgba8::opaque(0xCC, 0x24, 0x1D),
                Rgba8::opaque(0x98, 0x97, 0x1A),
                Rgba8::opaque(0xD7, 0x99, 0x21),
                Rgba8::opaque(0x45, 0x85, 0x88),
                Rgba8::opaque(0xB1, 0x62, 0x86),
                Rgba8::opaque(0x68, 0x9D, 0x6A),
                Rgba8::opaque(0x7C, 0x6F, 0x64),
            ],
            bright: [
                Rgba8::opaque(0x66, 0x5C, 0x54),
                Rgba8::opaque(0x9D, 0x00, 0x06),
                Rgba8::opaque(0x79, 0x74, 0x0E),
                Rgba8::opaque(0xB5, 0x76, 0x14),
                Rgba8::opaque(0x07, 0x66, 0x78),
                Rgba8::opaque(0x8F, 0x3F, 0x71),
                Rgba8::opaque(0x42, 0x7B, 0x58),
                Rgba8::opaque(0x28, 0x28, 0x28),
            ],
            dim: [
                Rgba8::opaque(0xA8, 0x99, 0x84),
                Rgba8::opaque(0xFB, 0x49, 0x34),
                Rgba8::opaque(0xB8, 0xBB, 0x26),
                Rgba8::opaque(0xFA, 0xBD, 0x2F),
                Rgba8::opaque(0x83, 0xA5, 0x98),
                Rgba8::opaque(0xD3, 0x86, 0x9B),
                Rgba8::opaque(0x8E, 0xC0, 0x7C),
                Rgba8::opaque(0x66, 0x5C, 0x54),
            ],
            bright_foreground: Rgba8::opaque(0x28, 0x28, 0x28),
            dim_foreground: Rgba8::opaque(0x92, 0x83, 0x74),
        },
    }
}

} // verus!
