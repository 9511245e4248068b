//! End-to-end tests of the stylesheet interpreter: tokenizing, parsing,
//! variable resolution, evaluation and the cascade over the style record.
use system_theme::ThemeError;
use system_theme::color::Rgba8;
use system_theme::engine::extract_from_files;
use system_theme::record::StyleRecord;

fn files(entries: &[(&str, &str)]) -> Vec<(Vec<u8>, Vec<u8>)> {
    entries.iter().map(|(p, t)| (p.as_bytes().to_vec(), t.as_bytes().to_vec())).collect()
}

fn extract(css: &str, dark: bool) -> Result<StyleRecord, ThemeError> {
    let fs = files(&[("theme/gtk.css", css)]);
    extract_from_files(&fs, &b"theme/gtk.css".to_vec(), dark)
}

fn rgb(r: u8, g: u8, b: u8) -> Rgba8 {
    Rgba8 { r, g, b, a: 255 }
}

#[test]
fn background_rule_sets_panel_and_window_fill() {
    let rec = extract(".background { background-color: #202020; }", true).unwrap();
    assert_eq!(rec.panel_fill, rgb(32, 32, 32));
    assert_eq!(rec.window_fill, rgb(32, 32, 32));
}

#[test]
fn redefined_variable_resolves_to_latest_binding() {
    let css = "@define-color a red;\n@define-color a blue;\n.background { background-color: @a; }";
    let rec = extract(css, true).unwrap();
    assert_eq!(rec.panel_fill, rgb(0, 0, 255));
}

#[test]
fn variable_alias_resolves_at_definition_time() {
    let css = "@define-color base #336699;\n@define-color alias @base;\n@define-color base #000000;\n.background { background-color: @alias; }";
    let rec = extract(css, true).unwrap();
    assert_eq!(rec.panel_fill, rgb(0x33, 0x66, 0x99));
}

#[test]
fn forward_reference_leaves_field_at_prior_value() {
    let baseline = StyleRecord::baseline(true);
    let rec = extract(".background { background-color: @missing; }", true).unwrap();
    assert_eq!(rec.panel_fill, baseline.panel_fill);
    assert_eq!(rec.window_fill, baseline.window_fill);
}

#[test]
fn later_background_rule_overrides_earlier_one() {
    let css = ".background { background-color: #101010; }\n.background { background-color: #505050; }";
    let rec = extract(css, true).unwrap();
    assert_eq!(rec.panel_fill, rgb(0x50, 0x50, 0x50));
}

#[test]
fn import_completes_before_dependent_rule() {
    let fs = files(&[
        ("theme/gtk.css", "@import url(colors.css);\n.background { background-color: @accent; }"),
        ("theme/colors.css", "@define-color accent #102030;"),
    ]);
    let rec = extract_from_files(&fs, &b"theme/gtk.css".to_vec(), true).unwrap();
    assert_eq!(rec.panel_fill, rgb(0x10, 0x20, 0x30));
}

#[test]
fn import_path_resolves_relative_to_importer() {
    let fs = files(&[
        ("a/b/gtk.css", "@import url(sub.css);"),
        ("a/b/sub.css", ".background { background-color: #040506; }"),
    ]);
    let rec = extract_from_files(&fs, &b"a/b/gtk.css".to_vec(), false).unwrap();
    assert_eq!(rec.panel_fill, rgb(4, 5, 6));
}

#[test]
fn missing_root_file_is_an_io_error() {
    let fs = files(&[("other.css", ".background { background-color: red; }")]);
    let r = extract_from_files(&fs, &b"gtk.css".to_vec(), true);
    assert_eq!(r, Err(ThemeError::IoError));
}

#[test]
fn missing_import_is_an_io_error() {
    let fs = files(&[("gtk.css", "@import url(absent.css);")]);
    let r = extract_from_files(&fs, &b"gtk.css".to_vec(), true);
    assert_eq!(r, Err(ThemeError::IoError));
}

#[test]
fn malformed_stylesheet_is_a_parse_error() {
    let fs = files(&[("gtk.css", "button { color: red;")]);
    let r = extract_from_files(&fs, &b"gtk.css".to_vec(), true);
    assert_eq!(r, Err(ThemeError::ParseError));
}

#[test]
fn linear_gradient_selects_middle_stop() {
    let css = "button { background-color: linear-gradient(to right, #111111 0, #222222 1, #333333 2); }";
    let rec = extract(css, true).unwrap();
    assert_eq!(rec.inactive.bg_fill, rgb(0x22, 0x22, 0x22));
    assert_eq!(rec.hovered.bg_fill, rgb(0x22, 0x22, 0x22));
    assert_eq!(rec.active.bg_fill, rgb(0x22, 0x22, 0x22));
}

#[test]
fn end_to_end_snippet() {
    let css = "@define-color bg_color #202020;\n.background { background-color: @bg_color; color: #ffffff; }\nbutton { background-color: mix(#000000, #ffffff, 0.5); }";
    let rec = extract(css, true).unwrap();
    assert_eq!(rec.panel_fill, rgb(32, 32, 32));
    assert_eq!(rec.noninteractive.fg_stroke.color, rgb(255, 255, 255));
    for c in [rec.inactive.bg_fill, rec.hovered.bg_fill, rec.active.bg_fill] {
        assert!((c.r as i32 - 127).abs() <= 1, "got {:?}", c);
        assert!((c.g as i32 - 127).abs() <= 1);
        assert!((c.b as i32 - 127).abs() <= 1);
        assert_eq!(c.a, 255);
    }
}

#[test]
fn alpha_function_replaces_alpha_channel() {
    let css = ".background { background-color: alpha(#204060, 0.5); }";
    let rec = extract(css, true).unwrap();
    assert_eq!(rec.panel_fill, Rgba8 { r: 0x20, g: 0x40, b: 0x60, a: 128 });
}

#[test]
fn foreground_drives_selection_stroke() {
    let css = "selection { background-color: #112233; color: #445566; }";
    let rec = extract(css, true).unwrap();
    assert_eq!(rec.selection_bg_fill, rgb(0x11, 0x22, 0x33));
    assert_eq!(rec.hyperlink_color, rgb(0x11, 0x22, 0x33));
    assert_eq!(rec.selection_stroke.color, rgb(0x44, 0x55, 0x66));
    assert_eq!(rec.selection_stroke.width, 1000);
}

#[test]
fn descendant_selection_selector_matches() {
    let css = "entry > text > selection { background-color: #010203; }";
    let rec = extract(css, true).unwrap();
    assert_eq!(rec.selection_bg_fill, rgb(1, 2, 3));
}

#[test]
fn entry_rule_drives_code_background() {
    let css = "entry { background-color: #0a0b0c; }";
    let rec = extract(css, true).unwrap();
    assert_eq!(rec.code_bg_color, rgb(0x0a, 0x0b, 0x0c));
    assert_eq!(rec.extreme_bg_color, rgb(0x0a, 0x0b, 0x0c));
}

#[test]
fn border_shorthand_first_match_is_colour() {
    let css = "button { border: 1px solid white; }";
    let rec = extract(css, true).unwrap();
    let base = StyleRecord::baseline(true);
    assert_eq!(rec.inactive.bg_stroke.color, rgb(255, 255, 255));
    // A colour match leaves the width alone.
    assert_eq!(rec.inactive.bg_stroke.width, base.inactive.bg_stroke.width);
}

#[test]
fn border_radius_expands_per_corner() {
    let css = ".frame { border-radius: 4px 8px; }";
    let rec = extract(css, true).unwrap();
    assert_eq!(rec.noninteractive.rounding.nw, 4000);
    assert_eq!(rec.noninteractive.rounding.ne, 8000);
    assert_eq!(rec.noninteractive.rounding.se, 4000);
    assert_eq!(rec.noninteractive.rounding.sw, 8000);
}

#[test]
fn box_shadow_fills_window_shadow() {
    let css = "window { box-shadow: 1px 2px 3px 4px #05060708; }";
    let rec = extract(css, true).unwrap();
    assert_eq!(rec.window_shadow.dx, 1000);
    assert_eq!(rec.window_shadow.dy, 2000);
    assert_eq!(rec.window_shadow.blur, 3000);
    assert_eq!(rec.window_shadow.spread, 4000);
    assert_eq!(rec.window_shadow.color, Rgba8 { r: 5, g: 6, b: 7, a: 8 });
}

#[test]
fn inset_shadow_is_skipped() {
    let base = StyleRecord::baseline(false);
    let css = "window { box-shadow: inset 1px 2px #010101; }";
    let rec = extract(css, false).unwrap();
    assert_eq!(rec.window_shadow, base.window_shadow);
}

#[test]
fn unknown_selector_changes_nothing() {
    let base = StyleRecord::baseline(true);
    let rec = extract("treeview { background-color: #ff0000; color: #00ff00; }", true).unwrap();
    assert_eq!(rec, base);
}

#[test]
fn important_flag_is_stripped_without_changing_priority() {
    let css = ".background { background-color: #102030 !important; }\n.background { background-color: #405060; }";
    let rec = extract(css, true).unwrap();
    assert_eq!(rec.panel_fill, rgb(0x40, 0x50, 0x60));
}

#[test]
fn light_dark_picks_side_by_mode() {
    let css = ".background { background-color: light-dark(#111111, #222222); }";
    let light = extract(css, false).unwrap();
    let dark = extract(css, true).unwrap();
    assert_eq!(light.panel_fill, rgb(0x11, 0x11, 0x11));
    assert_eq!(dark.panel_fill, rgb(0x22, 0x22, 0x22));
}

#[test]
fn comments_and_whitespace_are_ignored() {
    let css = "/* a theme */ .background/* x */{ background-color /* y */ : #030201 ; }";
    let rec = extract(css, true).unwrap();
    assert_eq!(rec.panel_fill, rgb(3, 2, 1));
}

#[test]
fn headerbar_drives_open_state_and_faint_background() {
    let css = "headerbar { background-color: #212223; color: #a0a1a2; }";
    let rec = extract(css, true).unwrap();
    assert_eq!(rec.opened.bg_fill, rgb(0x21, 0x22, 0x23));
    assert_eq!(rec.opened.weak_bg_fill, rgb(0x21, 0x22, 0x23));
    assert_eq!(rec.faint_bg_color, rgb(0x21, 0x22, 0x23));
    assert_eq!(rec.opened.fg_stroke.color, rgb(0xa0, 0xa1, 0xa2));
}

#[test]
fn button_hover_only_touches_the_hovered_state() {
    let base = StyleRecord::baseline(true);
    let css = "button:hover { background-color: #313233; }";
    let rec = extract(css, true).unwrap();
    assert_eq!(rec.hovered.bg_fill, rgb(0x31, 0x32, 0x33));
    assert_eq!(rec.inactive.bg_fill, base.inactive.bg_fill);
    assert_eq!(rec.active.bg_fill, base.active.bg_fill);
}

#[test]
fn button_active_border_also_writes_the_open_state() {
    let css = "button:active { border-color: #414243; }";
    let rec = extract(css, true).unwrap();
    assert_eq!(rec.active.bg_stroke.color, rgb(0x41, 0x42, 0x43));
    assert_eq!(rec.opened.bg_stroke.color, rgb(0x41, 0x42, 0x43));
}

#[test]
fn define_color_accepts_functional_literals() {
    let css = "@define-color a rgb(7, 8, 9);\n.background { background-color: @a; }";
    let rec = extract(css, true).unwrap();
    assert_eq!(rec.panel_fill, rgb(7, 8, 9));
}

#[test]
fn unknown_at_rules_are_skipped() {
    let css = "@keyframes spin { from { color: red; } to { color: blue; } }\n.background { background-color: #102030; }";
    let rec = extract(css, true).unwrap();
    assert_eq!(rec.panel_fill, rgb(0x10, 0x20, 0x30));
}
