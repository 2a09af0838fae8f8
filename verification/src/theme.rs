//! Colour themes: resolving cell colours against a theme, the default
//! theme, and the textual theme configuration.

use vstd::prelude::*;
use crate::ansi::{
    builtin_color,
    extended_palette, extended_palette_color, named_of_index, named_of_palette_index, AnsiColor,
    NamedColor,
};
use crate::color::{
    color_to_hex, hex_color_is_readable, hex_color_slices_char, lemma_color_hex_round_trip, opaque, parse_hex_color, spec_color_to_hex,
    spec_parse_hex_color, Rgba8,
};

verus! {

/// The colours a terminal is drawn with.
#[derive(Clone, Copy, Debug)]
pub struct TerminalTheme {
    pub foreground: Rgba8,
    pub background: Rgba8,
    pub cursor: Rgba8,
    pub selection: Rgba8,
    pub ansi: [Rgba8; 8],
    pub bright: [Rgba8; 8],
    pub dim: [Rgba8; 8],
    pub bright_foreground: Rgba8,
    pub dim_foreground: Rgba8,
}

/// The colour a theme gives to a named colour.
pub open spec fn theme_named(t: TerminalTheme, named: NamedColor) -> Rgba8 {
    match named {
        NamedColor::Black => t.ansi@[0],
        NamedColor::Red => t.ansi@[1],
        NamedColor::Green => t.ansi@[2],
        NamedColor::Yellow => t.ansi@[3],
        NamedColor::Blue => t.ansi@[4],
        NamedColor::Magenta => t.ansi@[5],
        NamedColor::Cyan => t.ansi@[6],
        NamedColor::White => t.ansi@[7],
        NamedColor::BrightBlack => t.bright@[0],
        NamedColor::BrightRed => t.bright@[1],
        NamedColor::BrightGreen => t.bright@[2],
        NamedColor::BrightYellow => t.bright@[3],
        NamedColor::BrightBlue => t.bright@[4],
        NamedColor::BrightMagenta => t.bright@[5],
        NamedColor::BrightCyan => t.bright@[6],
        NamedColor::BrightWhite => t.bright@[7],
        NamedColor::Foreground => t.foreground,
        NamedColor::Background => t.background,
        NamedColor::Cursor => t.cursor,
        NamedColor::DimBlack => t.dim@[0],
        NamedColor::DimRed => t.dim@[1],
        NamedColor::DimGreen => t.dim@[2],
        NamedColor::DimYellow => t.dim@[3],
        NamedColor::DimBlue => t.dim@[4],
        NamedColor::DimMagenta => t.dim@[5],
        NamedColor::DimCyan => t.dim@[6],
        NamedColor::DimWhite => t.dim@[7],
        NamedColor::BrightForeground => t.bright_foreground,
        NamedColor::DimForeground => t.dim_foreground,
    }
}

/// The colour a theme gives to palette entry `idx`: entries 0 to 15 are the
/// theme's ANSI and bright colours, the rest the fixed cube and greys.
pub open spec fn theme_indexed(t: TerminalTheme, idx: u8) -> Rgba8 {
    if idx < 16 {
        theme_named(t, named_of_index(idx))
    } else {
        extended_palette(idx)
    }
}

/// The colour a theme gives to a cell colour reference.
pub open spec fn theme_resolve(t: TerminalTheme, color: AnsiColor) -> Rgba8 {
    match color {
        AnsiColor::Named(named) => theme_named(t, named),
        AnsiColor::Spec(r, g, b) => opaque(r, g, b),
        AnsiColor::Indexed(idx) => theme_indexed(t, idx),
    }
}

impl TerminalTheme {
    /// Resolves a cell colour reference against this theme.
    pub fn resolve_color(&self, color: &AnsiColor) -> (res: Rgba8)
        ensures
            res == theme_resolve(*self, *color),
    {
        match color {
            AnsiColor::Named(named) => self.named_color(*named),
            AnsiColor::Spec(r, g, b) => Rgba8::opaque(*r, *g, *b),
            AnsiColor::Indexed(idx) => self.indexed_color(*idx),
        }
    }

    fn named_color(&self, named: NamedColor) -> (res: Rgba8)
        ensures
            res == theme_named(*self, named),
    {
        match named {
            NamedColor::Black => self.ansi[0],
            NamedColor::Red => self.ansi[1],
            NamedColor::Green => self.ansi[2],
            NamedColor::Yellow => self.ansi[3],
            NamedColor::Blue => self.ansi[4],
            NamedColor::Magenta => self.ansi[5],
            NamedColor::Cyan => self.ansi[6],
            NamedColor::White => self.ansi[7],
            NamedColor::BrightBlack => self.bright[0],
            NamedColor::BrightRed => self.bright[1],
            NamedColor::BrightGreen => self.bright[2],
            NamedColor::BrightYellow => self.bright[3],
            NamedColor::BrightBlue => self.bright[4],
            NamedColor::BrightMagenta => self.bright[5],
            NamedColor::BrightCyan => self.bright[6],
            NamedColor::BrightWhite => self.bright[7],
            NamedColor::Foreground => self.foreground,
            NamedColor::Background => self.background,
            NamedColor::Cursor => self.cursor,
            NamedColor::DimBlack => self.dim[0],
            NamedColor::DimRed => self.dim[1],
            NamedColor::DimGreen => self.dim[2],
            NamedColor::DimYellow => self.dim[3],
            NamedColor::DimBlue => self.dim[4],
            NamedColor::DimMagenta => self.dim[5],
            NamedColor::DimCyan => self.dim[6],
            NamedColor::DimWhite => self.dim[7],
            NamedColor::BrightForeground => self.bright_foreground,
            NamedColor::DimForeground => self.dim_foreground,
        }
    }

    fn indexed_color(&self, idx: u8) -> (res: Rgba8)
        ensures
            res == theme_indexed(*self, idx),
    {
        if idx < 16 {
            self.named_color(named_of_palette_index(idx))
        } else {
            extended_palette_color(idx)
        }
    }
}


/// The theme a terminal starts with. The selection colour is the eight-bit
/// form of hue 0.58, saturation 0.36, lightness 0.48 at alpha 0.55.
pub open spec fn default_theme() -> TerminalTheme {
    TerminalTheme {
        foreground: opaque(0xD4, 0xD4, 0xD4),
        background: opaque(0x1E, 0x1E, 0x1E),
        cursor: opaque(0xAE, 0xAF, 0xAD),
        selection: Rgba8 { r: 78, g: 124, b: 166, a: 140 },
        ansi: [
            opaque(0x1E, 0x1E, 0x1E),
            opaque(0xE0, 0x6C, 0x75),
            opaque(0x98, 0xC3, 0x79),
            opaque(0xE5, 0xC0, 0x7B),
            opaque(0x61, 0xAF, 0xEF),
            opaque(0xC6, 0x78, 0xDD),
            opaque(0x56, 0xB6, 0xC2),
            opaque(0xAB, 0xB2, 0xBF),
        ],
        bright: [
            opaque(0x5C, 0x63, 0x70),
            opaque(0xE0, 0x6C, 0x75),
            opaque(0x98, 0xC3, 0x79),
            opaque(0xE5, 0xC0, 0x7B),
            opaque(0x61, 0xAF, 0xEF),
            opaque(0xC6, 0x78, 0xDD),
            opaque(0x56, 0xB6, 0xC2),
            opaque(0xDF, 0xDF, 0xDF),
        ],
        dim: [
            opaque(0x1E, 0x1E, 0x1E),
            opaque(0xBE, 0x5B, 0x65),
            opaque(0x7A, 0x9F, 0x60),
            opaque(0xD1, 0x9A, 0x66),
            opaque(0x4E, 0x88, 0xB8),
            opaque(0xA0, 0x61, 0xB0),
            opaque(0x44, 0x91, 0x9B),
            opaque(0x8A, 0x8F, 0x98),
        ],
        bright_foreground: opaque(0xDF, 0xDF, 0xDF),
        dim_foreground: opaque(0x8A, 0x8F, 0x98),
    }
}

impl Default for TerminalTheme {
    fn default() -> (t: Self)
        ensures
            t == default_theme(),
    {
        let ansi = [
            Rgba8::opaque(0x1E, 0x1E, 0x1E),
            Rgba8::opaque(0xE0, 0x6C, 0x75),
            Rgba8::opaque(0x98, 0xC3, 0x79),
            Rgba8::opaque(0xE5, 0xC0, 0x7B),
            Rgba8::opaque(0x61, 0xAF, 0xEF),
            Rgba8::opaque(0xC6, 0x78, 0xDD),
            Rgba8::opaque(0x56, 0xB6, 0xC2),
            Rgba8::opaque(0xAB, 0xB2, 0xBF),
        ];
        let bright = [
            Rgba8::opaque(0x5C, 0x63, 0x70),
            Rgba8::opaque(0xE0, 0x6C, 0x75),
            Rgba8::opaque(0x98, 0xC3, 0x79),
            Rgba8::opaque(0xE5, 0xC0, 0x7B),
            Rgba8::opaque(0x61, 0xAF, 0xEF),
            Rgba8::opaque(0xC6, 0x78, 0xDD),
            Rgba8::opaque(0x56, 0xB6, 0xC2),
            Rgba8::opaque(0xDF, 0xDF, 0xDF),
        ];
        let dim = [
            Rgba8::opaque(0x1E, 0x1E, 0x1E),
            Rgba8::opaque(0xBE, 0x5B, 0x65),
            Rgba8::opaque(0x7A, 0x9F, 0x60),
            Rgba8::opaque(0xD1, 0x9A, 0x66),
            Rgba8::opaque(0x4E, 0x88, 0xB8),
            Rgba8::opaque(0xA0, 0x61, 0xB0),
            Rgba8::opaque(0x44, 0x91, 0x9B),
            Rgba8::opaque(0x8A, 0x8F, 0x98),
        ];
        let background = Rgba8::opaque(0x1E, 0x1E, 0x1E);
        TerminalTheme {
            foreground: Rgba8::opaque(0xD4, 0xD4, 0xD4),
            background,
            cursor: Rgba8::opaque(0xAE, 0xAF, 0xAD),
            selection: Rgba8 { r: 78, g: 124, b: 166, a: 140 },
            ansi,
            bright,
            dim,
            bright_foreground: Rgba8::opaque(0xDF, 0xDF, 0xDF),
            dim_foreground: Rgba8::opaque(0x8A, 0x8F, 0x98),
        }
    }
}


/// A theme as text, each colour written `#rrggbb` or `#rrggbbaa`; the dim
/// colours and the bright and dim foregrounds may be left out.
#[derive(Clone, Debug)]
pub struct TerminalThemeConfig {
    pub foreground: String,
    pub background: String,
    pub cursor: String,
    pub selection: String,
    pub ansi: [String; 8],
    pub bright: [String; 8],
    pub dim: Option<[String; 8]>,
    pub bright_foreground: Option<String>,
    pub dim_foreground: Option<String>,
}

/// The colour `value` denotes, or `fallback` when it denotes none.
pub open spec fn color_or(value: Seq<char>, fallback: Rgba8) -> Rgba8 {
    match spec_parse_hex_color(value) {
        Some(c) => c,
        None => fallback,
    }
}

/// Eight colours read element by element, each with its own fallback.
pub open spec fn colors_or(values: [String; 8], fallback: [Rgba8; 8]) -> Seq<Rgba8> {
    Seq::new(8, |i: int| color_or(values@[i]@, fallback@[i]))
}

pub open spec fn all_readable(values: [String; 8]) -> bool {
    forall|i: int| 0 <= i < 8 ==> !hex_color_slices_char(#[trigger] values@[i]@)
}

/// Every colour text of `cfg` can be read without slicing a character apart.
pub open spec fn config_is_readable(cfg: TerminalThemeConfig) -> bool {
    &&& !hex_color_slices_char(cfg.foreground@)
    &&& !hex_color_slices_char(cfg.background@)
    &&& !hex_color_slices_char(cfg.cursor@)
    &&& !hex_color_slices_char(cfg.selection@)
    &&& all_readable(cfg.ansi)
    &&& all_readable(cfg.bright)
    &&& (cfg.dim matches Some(d) ==> all_readable(d))
    &&& (cfg.bright_foreground matches Some(v) ==> !hex_color_slices_char(v@))
    &&& (cfg.dim_foreground matches Some(v) ==> !hex_color_slices_char(v@))
}

/// `t` is the theme that `cfg` describes: each colour read from its text,
/// with the default theme's colour where the text denotes none or is left
/// out.
pub open spec fn theme_of_config(t: TerminalTheme, cfg: TerminalThemeConfig) -> bool {
    let d = default_theme();
    &&& t.foreground == color_or(cfg.foreground@, d.foreground)
    &&& t.background == color_or(cfg.background@, d.background)
    &&& t.cursor == color_or(cfg.cursor@, d.cursor)
    &&& t.selection == color_or(cfg.selection@, d.selection)
    &&& t.ansi@ == colors_or(cfg.ansi, d.ansi)
    &&& t.bright@ == colors_or(cfg.bright, d.bright)
    &&& t.dim@ == (match cfg.dim {
        Some(dim) => colors_or(dim, d.dim),
        None => d.dim@,
    })
    &&& t.bright_foreground == (match cfg.bright_foreground {
        Some(v) => color_or(v@, d.bright_foreground),
        None => d.bright_foreground,
    })
    &&& t.dim_foreground == (match cfg.dim_foreground {
        Some(v) => color_or(v@, d.dim_foreground),
        None => d.dim_foreground,
    })
}

pub open spec fn hex_all(values: [String; 8], colors: [Rgba8; 8]) -> bool {
    forall|i: int| 0 <= i < 8 ==> #[trigger] values@[i]@ == spec_color_to_hex(colors@[i])
}

/// `cfg` writes out every colour of `t`, the optional ones included.
pub open spec fn config_of_theme(cfg: TerminalThemeConfig, t: TerminalTheme) -> bool {
    &&& cfg.foreground@ == spec_color_to_hex(t.foreground)
    &&& cfg.background@ == spec_color_to_hex(t.background)
    &&& cfg.cursor@ == spec_color_to_hex(t.cursor)
    &&& cfg.selection@ == spec_color_to_hex(t.selection)
    &&& hex_all(cfg.ansi, t.ansi)
    &&& hex_all(cfg.bright, t.bright)
    &&& (cfg.dim matches Some(dim) && hex_all(dim, t.dim))
    &&& (cfg.bright_foreground matches Some(v) && v@ == spec_color_to_hex(t.bright_foreground))
    &&& (cfg.dim_foreground matches Some(v) && v@ == spec_color_to_hex(t.dim_foreground))
}

fn hex_array(colors: &[Rgba8; 8]) -> (res: [String; 8])
    ensures
        hex_all(res, *colors),
{
    [
        color_to_hex(colors[0]),
        color_to_hex(colors[1]),
        color_to_hex(colors[2]),
        color_to_hex(colors[3]),
        color_to_hex(colors[4]),
        color_to_hex(colors[5]),
        color_to_hex(colors[6]),
        color_to_hex(colors[7]),
    ]
}

fn array_is_readable(values: &[String; 8]) -> (res: bool)
    ensures
        res == all_readable(*values),
{
    let mut i: usize = 0;
    while i < 8
        invariant
            i <= 8,
            forall|k: int| 0 <= k < i ==> !hex_color_slices_char(#[trigger] values@[k]@),
        decreases 8 - i,
    {
        if !hex_color_is_readable(values[i].as_str()) {
            return false;
        }
        i = i + 1;
    }
    true
}

fn optional_is_readable(value: &Option<String>) -> (res: bool)
    ensures
        res == (*value matches Some(v) ==> !hex_color_slices_char(v@)),
{
    match value {
        Some(v) => hex_color_is_readable(v.as_str()),
        None => true,
    }
}

impl TerminalThemeConfig {
    /// The text of every colour of `theme`.
    pub fn from_theme(theme: &TerminalTheme) -> (cfg: Self)
        ensures
            config_of_theme(cfg, *theme),
    {
        TerminalThemeConfig {
            foreground: color_to_hex(theme.foreground),
            background: color_to_hex(theme.background),
            cursor: color_to_hex(theme.cursor),
            selection: color_to_hex(theme.selection),
            ansi: hex_array(&theme.ansi),
            bright: hex_array(&theme.bright),
            dim: Some(hex_array(&theme.dim)),
            bright_foreground: Some(color_to_hex(theme.bright_foreground)),
            dim_foreground: Some(color_to_hex(theme.dim_foreground)),
        }
    }

    /// Whether every colour text can be read (`to_theme` may be called).
    pub fn is_readable(&self) -> (res: bool)
        ensures
            res == config_is_readable(*self),
    {
        let dim_ok = match &self.dim {
            Some(d) => array_is_readable(d),
            None => true,
        };
        hex_color_is_readable(self.foreground.as_str()) && hex_color_is_readable(self.background.as_str())
            && hex_color_is_readable(self.cursor.as_str()) && hex_color_is_readable(self.selection.as_str())
            && array_is_readable(&self.ansi) && array_is_readable(&self.bright) && dim_ok
            && optional_is_readable(&self.bright_foreground) && optional_is_readable(&self.dim_foreground)
    }

    /// Reads the theme this configuration describes.
    pub fn to_theme(&self) -> (t: TerminalTheme)
        requires
            config_is_readable(*self),
        ensures
            theme_of_config(t, *self),
    {
        let fallback = TerminalTheme::default();
        let dim = match &self.dim {
            Some(dim) => parse_color_array(dim, fallback.dim),
            None => fallback.dim,
        };
        let bright_foreground = match &self.bright_foreground {
            Some(value) => parse_color(value.as_str(), fallback.bright_foreground),
            None => fallback.bright_foreground,
        };
        let dim_foreground = match &self.dim_foreground {
            Some(value) => parse_color(value.as_str(), fallback.dim_foreground),
            None => fallback.dim_foreground,
        };
        TerminalTheme {
            foreground: parse_color(self.foreground.as_str(), fallback.foreground),
            background: parse_color(self.background.as_str(), fallback.background),
            cursor: parse_color(self.cursor.as_str(), fallback.cursor),
            selection: parse_color(self.selection.as_str(), fallback.selection),
            ansi: parse_color_array(&self.ansi, fallback.ansi),
            bright: parse_color_array(&self.bright, fallback.bright),
            dim,
            bright_foreground,
            dim_foreground,
        }
    }
}

impl Default for TerminalThemeConfig {
    fn default() -> (cfg: Self)
        ensures
            config_of_theme(cfg, default_theme()),
    {
        let theme = TerminalTheme::default();
        TerminalThemeConfig::from_theme(&theme)
    }
}

fn parse_color(value: &str, fallback: Rgba8) -> (res: Rgba8)
    requires
        !hex_color_slices_char(value@),
    ensures
        res == color_or(value@, fallback),
{
    match parse_hex_color(value) {
        Some(c) => c,
        None => fallback,
    }
}

fn parse_color_array(values: &[String; 8], fallback: [Rgba8; 8]) -> (res: [Rgba8; 8])
    requires
        all_readable(*values),
    ensures
        res@ == colors_or(*values, fallback),
{
    let mut out = fallback;
    let mut idx: usize = 0;
    while idx < 8
        invariant
            idx <= 8,
            all_readable(*values),
            forall|k: int| 0 <= k < idx ==> out@[k] == color_or(values@[k]@, fallback@[k]),
            forall|k: int| idx <= k < 8 ==> out@[k] == fallback@[k],
        decreases 8 - idx,
    {
        out[idx] = parse_color(values[idx].as_str(), fallback[idx]);
        idx = idx + 1;
    }
    assert(out@ =~= colors_or(*values, fallback));
    out
}

proof fn lemma_hex_all_round_trip(values: [String; 8], colors: [Rgba8; 8], fallback: [Rgba8; 8])
    requires
        hex_all(values, colors),
    ensures
        all_readable(values),
        colors_or(values, fallback) == colors@,
{
    assert forall|i: int| 0 <= i < 8 implies !hex_color_slices_char(#[trigger] values@[i]@)
        && colors_or(values, fallback)[i] == colors@[i] by {
        assert(values@[i]@ == spec_color_to_hex(colors@[i]));
        lemma_color_hex_round_trip(colors@[i]);
    }
    assert(colors_or(values, fallback) =~= colors@);
}

/// A theme written out as text reads back as the same theme.
pub proof fn lemma_theme_text_round_trip(t: TerminalTheme, cfg: TerminalThemeConfig)
    requires
        config_of_theme(cfg, t),
    ensures
        config_is_readable(cfg),
        theme_of_config(t, cfg),
{
    lemma_color_hex_round_trip(t.foreground);
    lemma_color_hex_round_trip(t.background);
    lemma_color_hex_round_trip(t.cursor);
    lemma_color_hex_round_trip(t.selection);
    lemma_color_hex_round_trip(t.bright_foreground);
    lemma_color_hex_round_trip(t.dim_foreground);
    let d = default_theme();
    lemma_hex_all_round_trip(cfg.ansi, t.ansi, d.ansi);
    lemma_hex_all_round_trip(cfg.bright, t.bright, d.bright);
    lemma_hex_all_round_trip(cfg.dim.unwrap(), t.dim, d.dim);
}

/// The default configuration describes the default theme.
pub proof fn lemma_default_config_reads_default_theme(cfg: TerminalThemeConfig)
    requires
        config_of_theme(cfg, default_theme()),
    ensures
        config_is_readable(cfg),
        theme_of_config(default_theme(), cfg),
{
    lemma_theme_text_round_trip(default_theme(), cfg);
}

/// The built-in palette is the default theme's.
pub proof fn lemma_builtin_palette_is_default_theme(color: AnsiColor)
    ensures
        builtin_color(color) == theme_resolve(default_theme(), color),
{
}


/// The first sixteen palette entries are the terminal's sixteen ANSI
/// colours, in their numbering: entry `i` below 8 is the theme's ANSI
/// colour `i` (black, red, green, yellow, blue, magenta, cyan, white), and
/// entry `8 + i` its bright colour `i`; so in the built-in palette too.
pub proof fn lemma_low_palette_entries_are_ansi_colors(t: TerminalTheme, idx: u8)
    ensures
        idx < 8 ==> theme_resolve(t, AnsiColor::Indexed(idx)) == t.ansi@[idx as int],
        8 <= idx < 16 ==> theme_resolve(t, AnsiColor::Indexed(idx)) == t.bright@[idx - 8],
        idx < 8 ==> builtin_color(AnsiColor::Indexed(idx)) == default_theme().ansi@[idx as int],
        8 <= idx < 16 ==> builtin_color(AnsiColor::Indexed(idx)) == default_theme().bright@[idx - 8],
{
    lemma_builtin_palette_is_default_theme(AnsiColor::Indexed(idx));
}

/// A named colour and the palette entry with its number resolve alike:
/// red is entry 1, bright red entry 9, and so on.
pub proof fn lemma_named_colors_match_palette(t: TerminalTheme)
    ensures
        theme_resolve(t, AnsiColor::Named(NamedColor::Black)) == theme_resolve(t, AnsiColor::Indexed(0)),
        theme_resolve(t, AnsiColor::Named(NamedColor::Red)) == theme_resolve(t, AnsiColor::Indexed(1)),
        theme_resolve(t, AnsiColor::Named(NamedColor::Green)) == theme_resolve(t, AnsiColor::Indexed(2)),
        theme_resolve(t, AnsiColor::Named(NamedColor::Yellow)) == theme_resolve(t, AnsiColor::Indexed(3)),
        theme_resolve(t, AnsiColor::Named(NamedColor::Blue)) == theme_resolve(t, AnsiColor::Indexed(4)),
        theme_resolve(t, AnsiColor::Named(NamedColor::Magenta)) == theme_resolve(t, AnsiColor::Indexed(5)),
        theme_resolve(t, AnsiColor::Named(NamedColor::Cyan)) == theme_resolve(t, AnsiColor::Indexed(6)),
        theme_resolve(t, AnsiColor::Named(NamedColor::White)) == theme_resolve(t, AnsiColor::Indexed(7)),
        theme_resolve(t, AnsiColor::Named(NamedColor::BrightBlack)) == theme_resolve(t, AnsiColor::Indexed(8)),
        theme_resolve(t, AnsiColor::Named(NamedColor::BrightRed)) == theme_resolve(t, AnsiColor::Indexed(9)),
        theme_resolve(t, AnsiColor::Named(NamedColor::BrightGreen)) == theme_resolve(t, AnsiColor::Indexed(10)),
        theme_resolve(t, AnsiColor::Named(NamedColor::BrightYellow)) == theme_resolve(t, AnsiColor::Indexed(11)),
        theme_resolve(t, AnsiColor::Named(NamedColor::BrightBlue)) == theme_resolve(t, AnsiColor::Indexed(12)),
        theme_resolve(t, AnsiColor::Named(NamedColor::BrightMagenta)) == theme_resolve(t, AnsiColor::Indexed(13)),
        theme_resolve(t, AnsiColor::Named(NamedColor::BrightCyan)) == theme_resolve(t, AnsiColor::Indexed(14)),
        theme_resolve(t, AnsiColor::Named(NamedColor::BrightWhite)) == theme_resolve(t, AnsiColor::Indexed(15)),
{
}

} // verus!
