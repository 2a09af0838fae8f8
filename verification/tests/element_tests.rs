use rgpui_term::ansi::{convert_color, indexed_color_to_rgba, named_color_to_rgba, AnsiColor, NamedColor};
use rgpui_term::color::{Paint, Rgba8};
use rgpui_term::fragments::CellPoint;
use rgpui_term::grid::{BatchedTextRun, RunStyle};
use rgpui_term::regions::BackgroundRegion;
use rgpui_term::selection::{DisplayCursor, GridPoint};

/// Hue, saturation, lightness and alpha of an eight-bit colour, each in 0..=1.
fn hsla(c: Rgba8) -> (f32, f32, f32, f32) {
    let r = c.r as f32 / 255.0;
    let g = c.g as f32 / 255.0;
    let b = c.b as f32 / 255.0;
    let max = r.max(g.max(b));
    let min = r.min(g.min(b));
    let delta = max - min;
    let l = (max + min) / 2.0;
    let s = if l == 0.0 || l == 1.0 {
        0.0
    } else if l < 0.5 {
        delta / (2.0 * l)
    } else {
        delta / (2.0 - 2.0 * l)
    };
    let h = if delta == 0.0 {
        0.0
    } else if max == r {
        ((g - b) / delta).rem_euclid(6.0) / 6.0
    } else if max == g {
        ((b - r) / delta + 2.0) / 6.0
    } else {
        ((r - g) / delta + 4.0) / 6.0
    };
    (h, s, l, c.a as f32 / 255.0)
}

fn red() -> Paint {
    Paint { r: 255, g: 0, b: 0, alpha: 255000 }
}

fn blue() -> Paint {
    Paint { r: 0, g: 0, b: 255, alpha: 255000 }
}

fn style(color: Paint) -> RunStyle {
    RunStyle { len: 1, color, bold: false, italic: false, underline: None, strikethrough: false }
}

#[test]
fn test_convert_named_colors_returns_valid_hsla() {
    let colors = [
        NamedColor::Black,
        NamedColor::Red,
        NamedColor::Green,
        NamedColor::Yellow,
        NamedColor::Blue,
        NamedColor::Magenta,
        NamedColor::Cyan,
        NamedColor::White,
    ];

    for color in colors {
        let (_, s, l, a) = hsla(named_color_to_rgba(color));
        assert!(a >= 0.0 && a <= 1.0, "Alpha should be in valid range for {:?}", color);
        assert!(s >= 0.0 && s <= 1.0, "Saturation should be in valid range for {:?}", color);
        assert!(l >= 0.0 && l <= 1.0, "Lightness should be in valid range for {:?}", color);
    }
}

#[test]
fn test_indexed_color_standard_colors_map_to_named() {
    let black = indexed_color_to_rgba(0);
    let named_black = named_color_to_rgba(NamedColor::Black);
    assert_eq!(black, named_black, "Index 0 should map to black");

    let bright_white = indexed_color_to_rgba(15);
    let named_bright_white = named_color_to_rgba(NamedColor::BrightWhite);
    assert_eq!(bright_white, named_bright_white, "Index 15 should map to bright white");
}

#[test]
fn test_indexed_color_cube_colors_produce_valid_hsla() {
    for idx in 16..=231u8 {
        let (_, _, _, a) = hsla(indexed_color_to_rgba(idx));
        assert!(a == 1.0, "Indexed color {} should have full alpha", idx);
    }
}

#[test]
fn test_indexed_color_grayscale_produces_valid_hsla() {
    for idx in 232..=255u8 {
        let (_, s, _, a) = hsla(indexed_color_to_rgba(idx));
        assert!(a == 1.0, "Grayscale color {} should have full alpha", idx);
        assert!(s < 0.01, "Grayscale color {} should have near-zero saturation", idx);
    }
}

#[test]
fn test_convert_spec_color_rgb_values() {
    let color = AnsiColor::Spec(255, 128, 64);
    let (_, _, _, a) = hsla(convert_color(&color));
    assert!(a == 1.0, "Spec color should have full alpha");
}

#[test]
fn test_batched_text_run_can_append_same_style() {
    let style1 = style(red());
    let style2 = style(red());
    let batch = BatchedTextRun::new_from_char(CellPoint { line: 0, column: 0 }, 'a', style1);
    assert!(batch.can_append(&style2), "Should be able to append same style");
}

#[test]
fn test_batched_text_run_cannot_append_different_color() {
    let style1 = style(red());
    let style2 = style(blue());
    let batch = BatchedTextRun::new_from_char(CellPoint { line: 0, column: 0 }, 'a', style1);
    assert!(!batch.can_append(&style2), "Should not be able to append different color");
}

#[test]
fn test_batched_text_run_append_increments_cell_count() {
    let mut batch = BatchedTextRun::new_from_char(CellPoint { line: 0, column: 0 }, 'a', style(red()));

    assert_eq!(batch.cell_count, 1, "Initial cell count should be 1");
    assert_eq!(batch.text, "a", "Initial text should be 'a'");

    batch.append_char('b');

    assert_eq!(batch.cell_count, 2, "Cell count should increment after append");
    assert_eq!(batch.text, "ab", "Text should be 'ab' after append");
}

#[test]
fn test_background_region_can_merge_horizontal_adjacent() {
    let color = red();
    let mut region1 = BackgroundRegion::new(0, 0, color);
    region1.end_col = 2;
    let region2 = BackgroundRegion::new(0, 3, color);

    assert!(
        region1.can_merge_with(&region2),
        "Adjacent horizontal regions with same color should merge"
    );
}

#[test]
fn test_background_region_cannot_merge_different_colors() {
    let region1 = BackgroundRegion::new(0, 0, red());
    let region2 = BackgroundRegion::new(0, 1, blue());

    assert!(
        !region1.can_merge_with(&region2),
        "Regions with different colors should not merge"
    );
}

#[test]
fn test_display_cursor_calculates_offset_correctly() {
    let cursor_point = GridPoint { line: 5, column: 10 };
    let display_offset = 3usize;

    let display_cursor = DisplayCursor::from(cursor_point, display_offset);

    assert_eq!(display_cursor.line(), 8, "Line should be cursor line + display offset");
    assert_eq!(display_cursor.col(), 10, "Column should match cursor column");
}
