use rgpui_term::ansi::{convert_color, extended_palette_color, AnsiColor, NamedColor};
use rgpui_term::color::{color_to_hex, hex_color_is_readable, parse_hex_color, Paint, Rgba8};
use rgpui_term::font::{font_family_candidates, name_looks_monospace, pick_font_family};
use rgpui_term::fragments::{
    is_block_element_char, push_block_fragments, push_box_fragments, push_powerline_fragments, BlockPoint,
    BlockRect, CellPoint,
};
use rgpui_term::grid::{is_blank, layout_grid, CellFlags, GridStyle, IndexedCell};
use rgpui_term::input::{focus_report, grid_text, is_command_submit, paste_text, InputOrigin};
use rgpui_term::regions::{merge_background_regions, region_rects, BackgroundRegion};
use rgpui_term::selection::{cursor_plan, cursor_shape, cursor_visible, selection_rects, DisplayCursor, CursorShape, GridPoint, SelectionRange, TermCursorShape};
use rgpui_term::terminal::{
    bell_after, scrolling_history, Event, EventBatch, EventEffect, InternalEvent, Scroll, SelectionPhase, SelectionType, Side,
    TermEvent, TermMode, Terminal, TerminalContent, WheelAction,
};
use rgpui_term::theme::{TerminalTheme, TerminalThemeConfig};
use rgpui_term::theme_manager::{ThemeDefinition, ThemeManager};

fn opaque_paint(r: u8, g: u8, b: u8) -> Paint {
    Paint { r, g, b, alpha: 255000 }
}

fn same_theme(a: &TerminalTheme, b: &TerminalTheme) -> bool {
    a.foreground == b.foreground
        && a.background == b.background
        && a.cursor == b.cursor
        && a.selection == b.selection
        && a.ansi == b.ansi
        && a.bright == b.bright
        && a.dim == b.dim
        && a.bright_foreground == b.bright_foreground
        && a.dim_foreground == b.dim_foreground
}

fn no_flags() -> CellFlags {
    CellFlags {
        inverse: false,
        wide_char_spacer: false,
        dim: false,
        underline: false,
        undercurl: false,
        strikeout: false,
        bold: false,
        italic: false,
    }
}

fn cell(line: i32, column: usize, c: char) -> IndexedCell {
    IndexedCell {
        point: GridPoint { line, column },
        c,
        fg: AnsiColor::Named(NamedColor::Foreground),
        bg: AnsiColor::Named(NamedColor::Background),
        flags: no_flags(),
        zerowidth: Vec::new(),
    }
}

fn plain_mode() -> TermMode {
    TermMode {
        alt_screen: false,
        alternate_scroll: false,
        bracketed_paste: false,
        focus_in_out: false,
        mouse_mode: false,
    }
}

fn content(mode: TermMode, display_offset: usize) -> TerminalContent<u32> {
    TerminalContent::new(
        Vec::new(),
        mode,
        display_offset,
        None,
        None,
        TermCursorShape::Block,
        GridPoint { line: 0, column: 0 },
        ' ',
        0,
        100,
    )
}

fn terminal(mode: TermMode, display_offset: usize) -> Terminal<u32, (i32, i32)> {
    Terminal::new(content(mode, display_offset))
}

fn strings(names: &[&str]) -> Vec<String> {
    names.iter().map(|n| n.to_string()).collect()
}

// Colours as text.

#[test]
fn parse_hex_color_reads_six_and_eight_digits() {
    assert_eq!(parse_hex_color("#1e1e1e"), Some(Rgba8 { r: 30, g: 30, b: 30, a: 255 }));
    assert_eq!(parse_hex_color("  #FF000080 "), Some(Rgba8 { r: 255, g: 0, b: 0, a: 128 }));
    assert_eq!(parse_hex_color("00ff7f"), Some(Rgba8 { r: 0, g: 255, b: 127, a: 255 }));
}

#[test]
fn parse_hex_color_refuses_other_lengths_and_digits() {
    assert_eq!(parse_hex_color("#fff"), None);
    assert_eq!(parse_hex_color("#ff00"), None);
    assert_eq!(parse_hex_color("##ff0000"), None);
    assert_eq!(parse_hex_color("#gg0000"), None);
    assert_eq!(parse_hex_color(""), None);
}

#[test]
fn parse_hex_color_takes_a_plus_sign_in_a_pair() {
    assert_eq!(parse_hex_color("+f0000"), Some(Rgba8 { r: 15, g: 0, b: 0, a: 255 }));
    assert_eq!(parse_hex_color("#00+a00"), Some(Rgba8 { r: 0, g: 10, b: 0, a: 255 }));
    assert_eq!(parse_hex_color("#-10000"), None);
}

#[test]
fn hex_color_readability_follows_byte_boundaries() {
    assert!(hex_color_is_readable("#ff0000"));
    assert!(hex_color_is_readable("#éééé"));
    assert_eq!(parse_hex_color("#éééé"), None);
    assert!(!hex_color_is_readable("#aébbbbb"));
    assert!(hex_color_is_readable("#aébbbb"));
}

#[test]
fn color_to_hex_writes_eight_lower_case_digits() {
    assert_eq!(color_to_hex(Rgba8 { r: 255, g: 0, b: 0, a: 255 }), "#ff0000ff");
    assert_eq!(color_to_hex(Rgba8 { r: 78, g: 124, b: 166, a: 140 }), "#4e7ca68c");
}

#[test]
fn hex_round_trip_gives_the_colour_back() {
    let colors = [
        Rgba8 { r: 0, g: 0, b: 0, a: 0 },
        Rgba8 { r: 1, g: 2, b: 3, a: 4 },
        Rgba8 { r: 255, g: 255, b: 255, a: 255 },
        Rgba8 { r: 171, g: 205, b: 239, a: 16 },
    ];
    for c in colors {
        assert_eq!(parse_hex_color(&color_to_hex(c)), Some(c));
    }
}

#[test]
fn paint_scaling_is_exact() {
    let p = Paint::from_rgba(Rgba8 { r: 10, g: 20, b: 30, a: 255 });
    assert_eq!(p, opaque_paint(10, 20, 30));
    assert_eq!(p.scaled(7, 10).alpha, 178500);
    assert_eq!(p.scaled(1, 4).alpha, 63750);
    assert_eq!(p.scaled(4, 4), p);
}

// Palettes and themes.

#[test]
fn extended_palette_cube_and_grey_ramp() {
    assert_eq!(extended_palette_color(16), Rgba8 { r: 0, g: 0, b: 0, a: 255 });
    assert_eq!(extended_palette_color(21), Rgba8 { r: 0, g: 0, b: 255, a: 255 });
    assert_eq!(extended_palette_color(196), Rgba8 { r: 255, g: 0, b: 0, a: 255 });
    assert_eq!(extended_palette_color(232), Rgba8 { r: 8, g: 8, b: 8, a: 255 });
    assert_eq!(extended_palette_color(255), Rgba8 { r: 238, g: 238, b: 238, a: 255 });
}

#[test]
fn builtin_palette_matches_default_theme() {
    let theme = TerminalTheme::default();
    for idx in 0u8..=255 {
        assert_eq!(
            convert_color(&AnsiColor::Indexed(idx)),
            theme.resolve_color(&AnsiColor::Indexed(idx)),
            "index {}",
            idx
        );
    }
    assert_eq!(
        theme.resolve_color(&AnsiColor::Spec(1, 2, 3)),
        Rgba8 { r: 1, g: 2, b: 3, a: 255 }
    );
    assert_eq!(theme.resolve_color(&AnsiColor::Named(NamedColor::Foreground)), theme.foreground);
    assert_eq!(theme.resolve_color(&AnsiColor::Named(NamedColor::BrightRed)), theme.bright[1]);
    assert_eq!(theme.resolve_color(&AnsiColor::Named(NamedColor::DimBlue)), theme.dim[4]);
}

#[test]
fn default_theme_colours() {
    let theme = TerminalTheme::default();
    assert_eq!(theme.foreground, Rgba8 { r: 0xD4, g: 0xD4, b: 0xD4, a: 255 });
    assert_eq!(theme.background, Rgba8 { r: 0x1E, g: 0x1E, b: 0x1E, a: 255 });
    assert_eq!(theme.selection, Rgba8 { r: 78, g: 124, b: 166, a: 140 });
}

#[test]
fn default_config_reads_as_default_theme() {
    let cfg = TerminalThemeConfig::default();
    assert_eq!(cfg.foreground, "#d4d4d4ff");
    assert!(same_theme(&cfg.to_theme(), &TerminalTheme::default()));
}

#[test]
fn theme_text_round_trip() {
    let mut theme = TerminalTheme::default();
    theme.cursor = Rgba8 { r: 1, g: 2, b: 3, a: 4 };
    theme.dim[3] = Rgba8 { r: 9, g: 8, b: 7, a: 6 };
    let cfg = TerminalThemeConfig::from_theme(&theme);
    assert!(same_theme(&cfg.to_theme(), &theme));
}

#[test]
fn config_falls_back_per_colour() {
    let mut cfg = TerminalThemeConfig::default();
    cfg.background = "not a colour".to_string();
    cfg.ansi[2] = "#010203".to_string();
    cfg.dim = None;
    cfg.bright_foreground = Some("#zz".to_string());
    let theme = cfg.to_theme();
    let fallback = TerminalTheme::default();
    assert_eq!(theme.background, fallback.background);
    assert_eq!(theme.ansi[2], Rgba8 { r: 1, g: 2, b: 3, a: 255 });
    assert_eq!(theme.dim, fallback.dim);
    assert_eq!(theme.bright_foreground, fallback.bright_foreground);
}

// The theme manager.

#[test]
fn theme_manager_lists_presets_in_order() {
    let manager = ThemeManager::new(None);
    assert_eq!(manager.current_theme_name(), "One Dark");
    assert_eq!(
        manager.available_themes(),
        strings(&[
            "Dracula",
            "GitHub Light",
            "Gruvbox Dark",
            "Gruvbox Light",
            "Nord",
            "One Dark",
            "One Light",
            "Solarized Dark",
            "Solarized Light",
        ])
    );
    assert!(!manager.contains("Custom"));
}

#[test]
fn theme_manager_switches_only_to_held_themes() {
    let mut manager = ThemeManager::new(None);
    assert!(manager.set_theme("Nord"));
    assert_eq!(manager.current_theme_name(), "Nord");
    assert!(same_theme(manager.current_theme(), manager.get_theme("Nord").unwrap()));
    assert!(!manager.set_theme("Missing"));
    assert_eq!(manager.current_theme_name(), "Nord");
    assert!(manager.get_theme("Missing").is_none());
}

#[test]
fn theme_manager_takes_custom_theme_from_config() {
    let mut cfg = TerminalThemeConfig::default();
    cfg.foreground = "#123456".to_string();
    let manager = ThemeManager::new(Some(cfg));
    assert!(manager.contains("Custom"));
    assert_eq!(manager.get_theme("Custom").unwrap().foreground, Rgba8 { r: 0x12, g: 0x34, b: 0x56, a: 255 });
    assert_eq!(manager.available_themes().len(), 10);
}

#[test]
fn theme_manager_add_replaces_by_name() {
    let mut manager = ThemeManager::new(None);
    let mut theme = TerminalTheme::default();
    theme.cursor = Rgba8 { r: 7, g: 7, b: 7, a: 255 };
    manager.add_theme(ThemeDefinition { name: "One Dark".to_string(), theme });
    assert_eq!(manager.available_themes().len(), 9);
    assert_eq!(manager.current_theme().cursor, Rgba8 { r: 7, g: 7, b: 7, a: 255 });
    manager.add_theme(ThemeDefinition { name: "Mine".to_string(), theme });
    assert_eq!(manager.available_themes().len(), 10);
    assert_eq!(manager.current_theme_name(), "One Dark");
}

// Background regions and selections.

#[test]
fn merge_background_regions_joins_a_square() {
    let red = opaque_paint(255, 0, 0);
    let regions = vec![
        BackgroundRegion::new(0, 0, red),
        BackgroundRegion::new(0, 1, red),
        BackgroundRegion::new(1, 0, red),
        BackgroundRegion::new(1, 1, red),
    ];
    let merged = merge_background_regions(regions);
    assert_eq!(merged.len(), 1);
    assert_eq!((merged[0].start_line, merged[0].start_col, merged[0].end_line, merged[0].end_col), (0, 0, 1, 1));
    let rects = region_rects(&merged);
    assert_eq!(rects.len(), 2);
    assert_eq!((rects[0].point, rects[0].num_of_cells), (CellPoint { line: 0, column: 0 }, 2));
    assert_eq!((rects[1].point, rects[1].num_of_cells), (CellPoint { line: 1, column: 0 }, 2));
}

#[test]
fn merge_background_regions_keeps_colours_apart() {
    let regions = vec![
        BackgroundRegion::new(0, 0, opaque_paint(255, 0, 0)),
        BackgroundRegion::new(0, 1, opaque_paint(0, 0, 255)),
        BackgroundRegion::new(0, 3, opaque_paint(255, 0, 0)),
    ];
    let merged = merge_background_regions(regions.clone());
    assert_eq!(merged, regions);
    assert_eq!(merge_background_regions(Vec::new()), Vec::new());
}

#[test]
fn merged_region_reaches_further() {
    let red = opaque_paint(255, 0, 0);
    let mut a = BackgroundRegion::new(2, 3, red);
    let b = BackgroundRegion::new(2, 4, red);
    assert!(a.can_merge_with(&b));
    a.merge_with(&b);
    assert_eq!((a.start_line, a.start_col, a.end_line, a.end_col), (2, 3, 2, 4));
    assert!(!a.can_merge_with(&BackgroundRegion::new(3, 4, red)));
}

#[test]
fn stream_selection_rects() {
    let color = opaque_paint(1, 2, 3);
    let sel = SelectionRange {
        start: GridPoint { line: 0, column: 2 },
        end: GridPoint { line: 2, column: 3 },
        is_block: false,
    };
    let rects = selection_rects(&sel, 0, 5, 10, color);
    let got: Vec<(i32, i32, usize)> = rects.iter().map(|r| (r.point.line, r.point.column, r.num_of_cells)).collect();
    assert_eq!(got, vec![(0, 2, 8), (1, 0, 10), (2, 0, 4)]);
}

#[test]
fn selection_rects_clip_to_the_display() {
    let color = opaque_paint(1, 2, 3);
    let sel = SelectionRange {
        start: GridPoint { line: -3, column: 5 },
        end: GridPoint { line: 1, column: 2 },
        is_block: false,
    };
    let rects = selection_rects(&sel, 0, 5, 10, color);
    let got: Vec<(i32, i32, usize)> = rects.iter().map(|r| (r.point.line, r.point.column, r.num_of_cells)).collect();
    assert_eq!(got, vec![(0, 5, 5), (1, 0, 3)]);
    let hidden = SelectionRange {
        start: GridPoint { line: -9, column: 0 },
        end: GridPoint { line: -8, column: 4 },
        is_block: false,
    };
    assert!(selection_rects(&hidden, 0, 5, 10, color).is_empty());
    assert!(selection_rects(&sel, 0, 0, 10, color).is_empty());
}

#[test]
fn block_selection_rects() {
    let color = opaque_paint(1, 2, 3);
    let sel = SelectionRange {
        start: GridPoint { line: 1, column: 5 },
        end: GridPoint { line: 3, column: 2 },
        is_block: true,
    };
    let rects = selection_rects(&sel, 0, 5, 10, color);
    let got: Vec<(i32, i32, usize)> = rects.iter().map(|r| (r.point.line, r.point.column, r.num_of_cells)).collect();
    assert_eq!(got, vec![(1, 2, 4), (2, 2, 4), (3, 2, 4)]);
}

#[test]
fn cursor_shapes() {
    assert_eq!(cursor_shape(TermCursorShape::Block, true), Some((CursorShape::Block, true)));
    assert_eq!(cursor_shape(TermCursorShape::Block, false), Some((CursorShape::Hollow, false)));
    assert_eq!(cursor_shape(TermCursorShape::Beam, true), Some((CursorShape::Bar, false)));
    assert_eq!(cursor_shape(TermCursorShape::Underline, false), Some((CursorShape::Underline, false)));
    assert_eq!(cursor_shape(TermCursorShape::HollowBlock, true), Some((CursorShape::Hollow, false)));
    assert_eq!(cursor_shape(TermCursorShape::Hidden, true), None);
}

// Glyph fragments.

#[test]
fn box_drawing_strokes() {
    let color = opaque_paint(9, 9, 9);
    let point = CellPoint { line: 1, column: 2 };
    let mut out = Vec::new();
    assert!(push_box_fragments(&mut out, point, color, '─'));
    assert_eq!(out.len(), 1);
    assert_eq!(out[0].rect, BlockRect { x: 0, y: 35, width: 80, height: 10 });
    assert!(push_box_fragments(&mut out, point, color, '│'));
    assert_eq!(out[1].rect, BlockRect { x: 35, y: 0, width: 10, height: 80 });
    assert!(!push_box_fragments(&mut out, point, color, 'a'));
    assert_eq!(out.len(), 2);
}

#[test]
fn block_elements_and_shades() {
    let color = opaque_paint(9, 9, 9);
    let point = CellPoint { line: 0, column: 0 };
    let mut out = Vec::new();
    assert!(push_block_fragments(&mut out, point, color, '█'));
    assert_eq!(out[0].rect, BlockRect { x: 0, y: 0, width: 80, height: 80 });
    assert!(push_block_fragments(&mut out, point, color, '░'));
    assert_eq!(out[1].color.alpha, 63750);
    assert!(push_block_fragments(&mut out, point, color, '▄'));
    assert_eq!(out[2].rect, BlockRect { x: 0, y: 40, width: 80, height: 40 });
    assert!(push_block_fragments(&mut out, point, color, '▟'));
    assert_eq!(out.len(), 6);
    assert!(!push_block_fragments(&mut out, point, color, 'x'));
    assert!(is_block_element_char('▀'));
    assert!(!is_block_element_char('a'));
}

#[test]
fn powerline_separators() {
    let color = opaque_paint(9, 9, 9);
    let point = CellPoint { line: 0, column: 4 };
    let mut rects = Vec::new();
    let mut polys = Vec::new();
    assert!(push_powerline_fragments(&mut rects, &mut polys, point, color, '\u{E0B0}'));
    assert_eq!(
        polys[0].points,
        [BlockPoint { x: 0, y: 0 }, BlockPoint { x: 80, y: 40 }, BlockPoint { x: 0, y: 80 }]
    );
    assert!(push_powerline_fragments(&mut rects, &mut polys, point, color, '\u{E0B1}'));
    assert_eq!(rects[0].rect, BlockRect { x: 35, y: 0, width: 10, height: 80 });
    assert!(!push_powerline_fragments(&mut rects, &mut polys, point, color, 'a'));
    assert_eq!((rects.len(), polys.len()), (1, 1));
}

// Grid layout.

#[test]
fn layout_grid_batches_text_and_skips_blanks() {
    let style = GridStyle { theme: TerminalTheme::default(), bold_base: false };
    let grid = vec![cell(0, 0, 'a'), cell(0, 1, 'b'), cell(0, 2, ' '), cell(1, 0, 'c')];
    assert!(is_blank(&grid[2]));
    let (rects, blocks, polys, runs) = layout_grid(&grid, &style, None);
    assert!(rects.is_empty() && blocks.is_empty() && polys.is_empty());
    assert_eq!(runs.len(), 2);
    assert_eq!(runs[0].text, "ab");
    assert_eq!(runs[0].cell_count, 2);
    assert_eq!(runs[0].start_point, CellPoint { line: 0, column: 0 });
    assert_eq!(runs[0].style.color, opaque_paint(0xD4, 0xD4, 0xD4));
    assert_eq!(runs[1].text, "c");
    assert_eq!(runs[1].start_point, CellPoint { line: 1, column: 0 });
}

#[test]
fn layout_grid_paints_backgrounds_and_honours_viewport() {
    let style = GridStyle { theme: TerminalTheme::default(), bold_base: true };
    let mut a = cell(5, 0, ' ');
    a.bg = AnsiColor::Spec(200, 0, 0);
    let mut b = cell(5, 1, ' ');
    b.bg = AnsiColor::Spec(200, 0, 0);
    let c = cell(9, 0, 'z');
    let (rects, _, _, runs) = layout_grid(&vec![a, b, c], &style, Some((5, 6)));
    assert_eq!(rects.len(), 1);
    assert_eq!(rects[0].point, CellPoint { line: 0, column: 0 });
    assert_eq!(rects[0].num_of_cells, 2);
    assert_eq!(rects[0].color, opaque_paint(200, 0, 0));
    assert_eq!(runs.len(), 1);
    assert_eq!(runs[0].text, "  ");
    assert_eq!(runs[0].cell_count, 2);
    assert!(runs[0].style.bold);
}

#[test]
fn layout_grid_dims_and_inverts() {
    let style = GridStyle { theme: TerminalTheme::default(), bold_base: false };
    let mut a = cell(0, 0, 'x');
    a.flags.dim = true;
    a.flags.bold = true;
    let mut b = cell(0, 1, 'y');
    b.flags.inverse = true;
    let (rects, _, _, runs) = layout_grid(&vec![a, b], &style, None);
    assert_eq!(runs.len(), 2);
    assert_eq!(runs[0].style.color.alpha, 178500);
    assert!(runs[0].style.bold);
    assert_eq!(runs[1].style.color, opaque_paint(0x1E, 0x1E, 0x1E));
    assert_eq!(rects.len(), 1);
    assert_eq!(rects[0].color, opaque_paint(0xD4, 0xD4, 0xD4));
}

// Input.

#[test]
fn bracketed_paste_wraps_text_without_escapes() {
    assert_eq!(paste_text("a\u{1b}b", true), "\u{1b}[200~ab\u{1b}[201~");
    assert_eq!(paste_text("", true), "\u{1b}[200~\u{1b}[201~");
}

#[test]
fn plain_paste_turns_line_breaks_into_returns() {
    assert_eq!(paste_text("a\r\nb\nc", false), "a\rb\rc");
    assert_eq!(paste_text("\r\r\n", false), "\r\r");
}

#[test]
fn focus_reports() {
    assert_eq!(focus_report(true, true), Some("\u{1b}[I".to_string()));
    assert_eq!(focus_report(true, false), Some("\u{1b}[O".to_string()));
    assert_eq!(focus_report(false, true), None);
}

#[test]
fn grid_text_trims_rows() {
    let rows = vec![vec!['a', ' ', 'b', ' ', '\t'], vec![' ', ' '], vec!['c']];
    assert_eq!(grid_text(&rows), "a b\n\nc\n");
    assert_eq!(grid_text(&Vec::new()), "");
}

#[test]
fn enter_from_the_user_submits() {
    assert!(is_command_submit(b"\r", InputOrigin::Keystroke));
    assert!(is_command_submit(b"\r", InputOrigin::Text));
    assert!(!is_command_submit(b"\r", InputOrigin::Paste));
    assert!(!is_command_submit(b"\r\n", InputOrigin::Keystroke));
}

// The terminal's state.

#[test]
fn queued_changes_come_out_in_order() {
    let mut t = terminal(plain_mode(), 0);
    t.scroll_line_up();
    t.clear();
    t.copy(Some(true));
    assert!(matches!(t.next_event(), Some(InternalEvent::Scroll(Scroll::Delta(1)))));
    assert!(matches!(t.next_event(), Some(InternalEvent::Clear)));
    assert!(matches!(t.next_event(), Some(InternalEvent::Copy(Some(true)))));
    assert!(t.next_event().is_none());
}

#[test]
fn input_scrolls_to_bottom_and_clears_selection() {
    let mut t = terminal(plain_mode(), 0);
    t.input_sent();
    assert!(matches!(t.next_event(), Some(InternalEvent::Scroll(Scroll::Bottom))));
    assert!(matches!(t.next_event(), Some(InternalEvent::SetSelection(None))));
}

#[test]
fn scroll_to_offset_queues_the_difference() {
    let mut t = terminal(plain_mode(), 5);
    t.scroll_to_offset(2);
    assert!(matches!(t.next_event(), Some(InternalEvent::Scroll(Scroll::Delta(-3)))));
    t.scroll_to_offset(5);
    assert!(t.next_event().is_none());
}

#[test]
fn select_all_spans_the_grid() {
    let mut t = terminal(plain_mode(), 0);
    t.select_all(-10, 23, 79);
    match t.next_event() {
        Some(InternalEvent::SetSelection(Some((sel, head)))) => {
            assert_eq!(sel.ty, SelectionType::Simple);
            assert_eq!(sel.anchor, GridPoint { line: -10, column: 0 });
            assert_eq!(sel.anchor_side, Side::Left);
            assert_eq!(sel.head, GridPoint { line: 23, column: 79 });
            assert_eq!(sel.head_side, Side::Right);
            assert_eq!(head, GridPoint { line: 23, column: 79 });
        }
        _ => panic!("expected a selection"),
    }
}

#[test]
fn clicks_start_selections_by_count() {
    let mut t = terminal(plain_mode(), 0);
    let point = GridPoint { line: 2, column: 3 };
    assert!(!t.mouse_down(true, 2, false, point, Side::Right, (0, 0)));
    match t.next_event() {
        Some(InternalEvent::SetSelection(Some((sel, head)))) => {
            assert_eq!(sel.ty, SelectionType::Semantic);
            assert_eq!(head, point);
        }
        _ => panic!("expected a selection"),
    }
    assert!(!t.mouse_down(true, 1, true, point, Side::Left, (4, 5)));
    assert!(matches!(t.next_event(), Some(InternalEvent::UpdateSelection((4, 5)))));
    assert!(!t.mouse_down(true, 4, false, point, Side::Left, (4, 5)));
    assert!(!t.mouse_down(false, 1, false, point, Side::Left, (4, 5)));
    assert!(t.next_event().is_none());
}

#[test]
fn mouse_mode_reports_instead_of_selecting() {
    let mut mode = plain_mode();
    mode.mouse_mode = true;
    let mut t = terminal(mode, 0);
    let point = GridPoint { line: 0, column: 0 };
    assert!(t.mouse_down(true, 1, false, point, Side::Left, (0, 0)));
    assert!(t.next_event().is_none());
    assert!(t.mouse_move(false, point, Side::Left));
    assert!(!t.mouse_move(false, point, Side::Left));
    assert!(t.mouse_move(false, point, Side::Right));
    assert!(!t.mouse_move(true, GridPoint { line: 1, column: 1 }, Side::Right));
    assert!(!t.mouse_drag(false, (1, 1), Some(2)));
    assert!(t.mouse_up(false));
    assert!(!t.selection_started());
}

#[test]
fn dragging_selects_and_scrolls() {
    let mut t = terminal(plain_mode(), 0);
    assert!(t.mouse_drag(false, (7, 8), Some(-2)));
    assert!(t.selection_started());
    assert_eq!(t.selection_phase, SelectionPhase::Selecting);
    assert!(matches!(t.next_event(), Some(InternalEvent::UpdateSelection((7, 8)))));
    assert!(matches!(t.next_event(), Some(InternalEvent::Scroll(Scroll::Delta(-2)))));
    assert!(!t.mouse_up(false));
    assert!(!t.selection_started());
}

#[test]
fn wheel_turns() {
    let mut t = terminal(plain_mode(), 0);
    assert_eq!(t.scroll_wheel(false, None), WheelAction::Nothing);
    assert_eq!(t.scroll_wheel(false, Some(0)), WheelAction::Nothing);
    assert_eq!(t.scroll_wheel(false, Some(3)), WheelAction::Scrolled);
    assert!(matches!(t.next_event(), Some(InternalEvent::Scroll(Scroll::Delta(3)))));
    let mut mode = plain_mode();
    mode.alt_screen = true;
    mode.alternate_scroll = true;
    let mut alt = terminal(mode, 0);
    assert_eq!(alt.scroll_wheel(false, Some(-2)), WheelAction::AlternateScroll(-2));
    assert_eq!(alt.scroll_wheel(true, Some(-2)), WheelAction::Scrolled);
    mode.mouse_mode = true;
    let mut reporting = terminal(mode, 0);
    assert_eq!(reporting.scroll_wheel(false, Some(1)), WheelAction::Report(1));
    assert!(reporting.next_event().is_none());
}

#[test]
fn terminal_focus_and_paste_follow_modes() {
    let mut mode = plain_mode();
    let t = terminal(mode, 0);
    assert_eq!(t.focus_in(), None);
    assert_eq!(t.paste("a\nb"), "a\rb");
    mode.focus_in_out = true;
    mode.bracketed_paste = true;
    let t = terminal(mode, 0);
    assert_eq!(t.focus_out(), Some("\u{1b}[O".to_string()));
    assert_eq!(t.paste("a\nb"), "\u{1b}[200~a\nb\u{1b}[201~");
}

#[test]
fn emulator_events_are_answered() {
    let mut t = terminal(plain_mode(), 0);
    let (event, effect) = t.process_event(TermEvent::Title("shell".to_string()));
    assert_eq!(event, Some(Event::TitleChanged));
    assert!(matches!(effect, EventEffect::Nothing));
    assert_eq!(t.breadcrumb_text, "shell");
    let (event, _) = t.process_event(TermEvent::ResetTitle);
    assert_eq!(event, Some(Event::TitleChanged));
    assert_eq!(t.breadcrumb_text, "");
    let (event, effect) = t.process_event(TermEvent::PtyWrite("ok".to_string()));
    assert_eq!(event, None);
    assert!(matches!(effect, EventEffect::Write(s) if s == "ok"));
    let (event, effect) = t.process_event(TermEvent::ColorRequest(12));
    assert_eq!(event, None);
    assert!(matches!(effect, EventEffect::ReportColor(12)));
    let (event, _) = t.process_event(TermEvent::ChildExit);
    assert_eq!(event, Some(Event::CloseTerminal));
    let (event, _) = t.process_event(TermEvent::CursorBlinkingChange(true));
    assert_eq!(event, Some(Event::BlinkChanged(true)));
}

#[test]
fn copy_and_selection_results() {
    let mut t = terminal(plain_mode(), 0);
    t.copy_applied(None, true);
    assert!(matches!(t.next_event(), Some(InternalEvent::SetSelection(None))));
    t.copy_applied(Some(true), true);
    t.copy_applied(None, false);
    assert!(t.next_event().is_none());
    let head = GridPoint { line: 1, column: 1 };
    assert_eq!(t.selection_applied(Some(head)), Event::SelectionsChanged);
    assert_eq!(t.selection_head, Some(head));
    t.selection_applied(None);
    assert_eq!(t.selection_head, Some(head));
}

#[test]
fn content_knows_its_scroll_ends() {
    let top = content(plain_mode(), 100);
    assert!(top.scrolled_to_top && !top.scrolled_to_bottom);
    let bottom = content(plain_mode(), 0);
    assert!(bottom.scrolled_to_bottom && !bottom.scrolled_to_top);
}

#[test]
fn scroll_history_is_bounded() {
    assert_eq!(scrolling_history(None), 10_000);
    assert_eq!(scrolling_history(Some(5)), 5);
    assert_eq!(scrolling_history(Some(250_000)), 100_000);
}

#[test]
fn event_batches_fold_wakeups() {
    let mut batch: EventBatch<u32> = EventBatch::new();
    assert!(batch.is_idle());
    assert!(batch.add(0, true));
    assert!(batch.wakeup && batch.events.is_empty() && !batch.is_idle());
    for i in 0..99 {
        assert!(batch.add(i, false));
    }
    assert!(batch.add(99, false));
    assert!(!batch.add(100, false));
    assert_eq!(batch.events.len(), 101);
}

// Font choice.

#[test]
fn font_candidates_prefer_the_configured_then_listed_families() {
    let available = strings(&["Arial", "Menlo", "Fira Code", "Ubuntu Mono"]);
    assert_eq!(font_family_candidates(&available, "Source Code Pro"), strings(&["Fira Code", "Menlo"]));
    assert_eq!(font_family_candidates(&available, "Menlo"), strings(&["Menlo", "Fira Code"]));
    assert_eq!(font_family_candidates(&available, "Arial"), strings(&["Arial", "Fira Code", "Menlo"]));
}

#[test]
fn font_candidates_fall_back_to_monospace_looking_names() {
    let available = strings(&["Arial", "Ubuntu MONO", "Consolas", "Lucida Console", "Source Code Pro"]);
    assert_eq!(
        font_family_candidates(&available, "Nothing"),
        strings(&["Ubuntu MONO", "Lucida Console", "Source Code Pro"])
    );
    assert!(font_family_candidates(&strings(&["Arial"]), "Nothing").is_empty());
    assert!(name_looks_monospace("CODE"));
    assert!(!name_looks_monospace("Consolas"));
}

#[test]
fn font_pick_takes_the_first_even_family() {
    let candidates = strings(&["A", "B", "C"]);
    assert_eq!(pick_font_family(&candidates, &vec![false, true, true], "Base"), "B");
    assert_eq!(pick_font_family(&candidates, &vec![false, false, false], "Base"), "Base");
    assert_eq!(pick_font_family(&Vec::new(), &Vec::new(), "Base"), "Base");
}

#[test]
fn merging_merged_regions_changes_nothing() {
    let red = opaque_paint(255, 0, 0);
    let blue = opaque_paint(0, 0, 255);
    let regions = vec![
        BackgroundRegion::new(0, 0, red),
        BackgroundRegion::new(0, 1, red),
        BackgroundRegion::new(1, 0, blue),
        BackgroundRegion::new(2, 0, blue),
        BackgroundRegion::new(0, 2, red),
    ];
    let once = merge_background_regions(regions);
    let twice = merge_background_regions(once.clone());
    assert_eq!(once, twice);
    assert_eq!(once.len(), 2);
}

#[test]
fn added_theme_is_read_back() {
    let mut manager = ThemeManager::new(None);
    let mut theme = TerminalTheme::default();
    theme.background = Rgba8 { r: 1, g: 1, b: 1, a: 255 };
    manager.add_theme(ThemeDefinition { name: "Mine".to_string(), theme });
    assert!(same_theme(manager.get_theme("Mine").unwrap(), &theme));
    assert!(same_theme(manager.get_theme("Nord").unwrap(), ThemeManager::new(None).get_theme("Nord").unwrap()));
    assert!(manager.set_theme("Mine"));
    assert!(same_theme(manager.current_theme(), &theme));
}

#[test]
fn queue_changes_leave_the_rest_alone() {
    let mut t = terminal(plain_mode(), 3);
    t.selection_phase = SelectionPhase::Selecting;
    t.breadcrumb_text = "title".to_string();
    t.last_mouse = Some((GridPoint { line: 1, column: 2 }, Side::Right));
    t.selection_head = Some(GridPoint { line: 4, column: 5 });
    t.scroll_line_up();
    t.scroll_to_offset(1);
    t.select_all(0, 9, 9);
    t.copy(None);
    t.clear();
    t.input_sent();
    t.copy_applied(None, true);
    assert_eq!(t.scroll_wheel(false, Some(2)), WheelAction::Scrolled);
    assert_eq!(t.selection_phase, SelectionPhase::Selecting);
    assert_eq!(t.breadcrumb_text, "title");
    assert_eq!(t.last_mouse, Some((GridPoint { line: 1, column: 2 }, Side::Right)));
    assert_eq!(t.selection_head, Some(GridPoint { line: 4, column: 5 }));
    assert_eq!(t.last_content.display_offset, 3);
    let (_, _) = t.process_event(TermEvent::Bell);
    assert_eq!(t.selection_phase, SelectionPhase::Selecting);
    assert_eq!(t.selection_head, Some(GridPoint { line: 4, column: 5 }));
}

#[test]
fn bell_lights_and_stays() {
    assert!(bell_after(false, &Event::Bell));
    assert!(bell_after(true, &Event::Wakeup));
    assert!(!bell_after(false, &Event::TitleChanged));
}

fn run_summary(runs: &[rgpui_term::grid::BatchedTextRun]) -> Vec<(i32, i32, usize, String)> {
    runs.iter().map(|r| (r.start_point.line, r.start_point.column, r.cell_count, r.text.clone())).collect()
}

#[test]
fn viewport_layout_equals_layout_of_its_lines() {
    let style = GridStyle { theme: TerminalTheme::default(), bold_base: false };
    let mut grid = Vec::new();
    for line in 0..4 {
        for col in 0..3usize {
            let mut c = cell(line, col, (b'a' + (line as u8) * 3 + col as u8) as char);
            if col == 1 {
                c.bg = AnsiColor::Indexed(1);
            }
            grid.push(c);
        }
    }
    let (rects_v, _, _, runs_v) = layout_grid(&grid, &style, Some((1, 3)));
    let filtered: Vec<IndexedCell> = grid.iter().filter(|c| 1 <= c.point.line && c.point.line < 3).cloned().collect();
    let (rects_f, _, _, runs_f) = layout_grid(&filtered, &style, None);
    assert_eq!(rects_v, rects_f);
    assert_eq!(run_summary(&runs_v), run_summary(&runs_f));
    assert_eq!(run_summary(&runs_v), vec![(0, 0, 3, "def".to_string()), (1, 0, 3, "ghi".to_string())]);
}

#[test]
fn runs_come_in_order_and_hold_the_drawn_text() {
    let style = GridStyle { theme: TerminalTheme::default(), bold_base: false };
    let mut a = cell(0, 0, 'a');
    a.zerowidth = vec!['\u{301}'];
    let skipped = cell(0, 1, ' ');
    let b = cell(0, 2, 'b');
    let mut bold = cell(0, 3, 'c');
    bold.flags.bold = true;
    let boxed = cell(0, 4, '─');
    let d = cell(2, 0, 'é');
    let (_, blocks, _, runs) = layout_grid(&vec![a, skipped, b, bold, boxed, d], &style, None);
    assert_eq!(blocks.len(), 1);
    assert_eq!(
        run_summary(&runs),
        vec![
            (0, 0, 1, "a\u{301}".to_string()),
            (0, 2, 1, "b".to_string()),
            (0, 3, 1, "c".to_string()),
            (1, 0, 1, "é".to_string()),
        ]
    );
    for r in &runs {
        assert!(r.cell_count >= 1);
        assert_eq!(r.style.len, r.text.len());
        assert!(r.text.chars().count() >= r.cell_count);
    }
    for w in runs.windows(2) {
        let (x, y) = (&w[0], &w[1]);
        assert!(
            x.start_point.line < y.start_point.line
                || (x.start_point.line == y.start_point.line
                    && x.start_point.column + x.cell_count as i32 <= y.start_point.column)
        );
    }
    let all: String = runs.iter().map(|r| r.text.as_str()).collect();
    assert_eq!(all, "a\u{301}bcé");
}

#[test]
fn merged_regions_share_no_cell() {
    let red = opaque_paint(255, 0, 0);
    let blue = opaque_paint(0, 0, 255);
    let mut regions = Vec::new();
    for line in 0..3 {
        for col in 0..4 {
            regions.push(BackgroundRegion::new(line, col, if col < 2 { red } else { blue }));
        }
    }
    let merged = merge_background_regions(regions);
    for i in 0..merged.len() {
        for j in (i + 1)..merged.len() {
            let (a, b) = (merged[i], merged[j]);
            assert!(a.end_line < b.start_line || b.end_line < a.start_line || a.end_col < b.start_col || b.end_col < a.start_col);
        }
    }
    let cells: usize = merged.iter().map(|r| ((r.end_line - r.start_line + 1) * (r.end_col - r.start_col + 1)) as usize).sum();
    assert_eq!(cells, 12);
}

#[test]
fn stream_selection_covers_exactly_the_selected_cells() {
    let color = opaque_paint(1, 2, 3);
    let sel = SelectionRange {
        start: GridPoint { line: 1, column: 6 },
        end: GridPoint { line: 3, column: 2 },
        is_block: false,
    };
    let rects = selection_rects(&sel, 1, 6, 8, color);
    for l in 0..6i32 {
        for c in 0..8i32 {
            let covered = rects
                .iter()
                .any(|r| r.point.line == l && r.point.column <= c && c < r.point.column + r.num_of_cells as i32);
            let selected = (2 < l || (l == 2 && 6 <= c)) && (l < 4 || (l == 4 && c <= 2));
            assert_eq!(covered, selected, "line {} column {}", l, c);
        }
    }
}

#[test]
fn background_covers_exactly_the_coloured_cells() {
    let style = GridStyle { theme: TerminalTheme::default(), bold_base: false };
    let mut grid = Vec::new();
    for line in 3..6 {
        for col in 0..4usize {
            let mut c = cell(line, col, 'x');
            if (line + col as i32) % 2 == 0 {
                c.bg = AnsiColor::Spec(9, 9, 9);
            }
            grid.push(c);
        }
    }
    let (rects, _, _, _) = layout_grid(&grid, &style, None);
    for l in 0..3i32 {
        for c in 0..4i32 {
            let covered = rects
                .iter()
                .any(|r| r.point.line == l && r.point.column <= c && c < r.point.column + r.num_of_cells as i32);
            assert_eq!(covered, (l + 3 + c) % 2 == 0, "line {} column {}", l, c);
        }
    }
    assert!(rects.iter().all(|r| r.color == opaque_paint(9, 9, 9)));
}

#[test]
fn cursor_is_drawn_only_on_the_display() {
    let p = GridPoint { line: 3, column: 7 };
    let (shape, text, c) = cursor_plan(TermCursorShape::Block, true, p, 1, 5).unwrap();
    assert_eq!((shape, text, c.line(), c.col()), (CursorShape::Block, true, 4, 7));
    assert!(cursor_plan(TermCursorShape::Block, true, p, 2, 5).is_none());
    assert!(cursor_plan(TermCursorShape::Hidden, true, GridPoint { line: 0, column: 0 }, 0, 5).is_none());
    let (shape, text, _) = cursor_plan(TermCursorShape::Beam, false, GridPoint { line: -2, column: 0 }, 2, 5).unwrap();
    assert_eq!((shape, text), (CursorShape::Bar, false));
    assert!(cursor_visible(&DisplayCursor::from(p, 0), 4));
    assert!(!cursor_visible(&DisplayCursor::from(p, 1), 4));
}

#[test]
fn bell_is_lit_since_the_last_clear() {
    let mut lit = false;
    lit = bell_after(lit, &Event::Wakeup);
    assert!(!lit);
    lit = bell_after(lit, &Event::Bell);
    lit = bell_after(lit, &Event::TitleChanged);
    assert!(lit);
    lit = false;
    lit = bell_after(lit, &Event::SelectionsChanged);
    assert!(!lit);
}

#[test]
fn batches_keep_non_wakeups_in_order() {
    let mut batch: EventBatch<u32> = EventBatch::new();
    let items = [(1, false), (0, true), (2, false), (0, true), (3, false)];
    for (e, w) in items {
        assert!(batch.add(e, w));
    }
    assert_eq!(batch.events, vec![1, 2, 3]);
    assert!(batch.wakeup);
    let mut gathered = 0;
    let mut full: EventBatch<u32> = EventBatch::new();
    loop {
        gathered += 1;
        if !full.add(gathered, false) {
            break;
        }
    }
    assert_eq!(full.events.len(), 101);
}
