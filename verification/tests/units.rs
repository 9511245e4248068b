//! Unit tests of the colour pipeline and the platform styling rules.
use system_theme::ThemeError;
use system_theme::color::{mix, Rgba8};
use system_theme::convert::convert;
use system_theme::engine::{candidate_paths, exec_dirname, exec_join_path, Extraction, RunOutcome};
use system_theme::kde::{ini_color, IniData};
use system_theme::macos::{color32_to_macos_color, set_accent, AccentColor};
use system_theme::record::StyleRecord;
use system_theme::spaces::{hex_color, named_color, word_color, ColorSpec};
use system_theme::windows::{is_windows_eleven_kernel, unpack_0bgr, SystemColors};

fn rgb(r: u8, g: u8, b: u8) -> Rgba8 {
    Rgba8 { r, g, b, a: 255 }
}

#[test]
fn hex_literals_convert_exactly() {
    assert_eq!(hex_color(&b"202020".to_vec()), Some(rgb(32, 32, 32)));
    assert_eq!(hex_color(&b"abcdef12".to_vec()), Some(Rgba8 { r: 0xab, g: 0xcd, b: 0xef, a: 0x12 }));
    assert_eq!(hex_color(&b"fff".to_vec()), Some(rgb(255, 255, 255)));
    assert_eq!(hex_color(&b"f00a".to_vec()), Some(Rgba8 { r: 255, g: 0, b: 0, a: 0xaa }));
    assert_eq!(hex_color(&b"12345".to_vec()), None);
    assert_eq!(hex_color(&b"zzzzzz".to_vec()), None);
}

#[test]
fn mix_endpoints_are_exact_and_midpoint_averages() {
    let c1 = Rgba8 { r: 10, g: 200, b: 77, a: 255 };
    let c2 = Rgba8 { r: 240, g: 5, b: 78, a: 1 };
    assert_eq!(mix(c1, c2, 0), c1);
    assert_eq!(mix(c1, c2, 1000), c2);
    let m = mix(c1, c2, 500);
    for (got, (a, b)) in [
        (m.r, (c1.r, c2.r)),
        (m.g, (c1.g, c2.g)),
        (m.b, (c1.b, c2.b)),
        (m.a, (c1.a, c2.a)),
    ] {
        let avg = (a as i32 + b as i32) as f64 / 2.0;
        assert!((got as f64 - avg).abs() <= 1.0);
    }
}

#[test]
fn named_and_word_tables_give_their_colours() {
    assert_eq!(named_color(&b"red".to_vec()), Some(rgb(255, 0, 0)));
    assert_eq!(named_color(&b"rebeccapurple".to_vec()), Some(rgb(102, 51, 153)));
    assert_eq!(named_color(&b"transparent".to_vec()), Some(Rgba8 { r: 0, g: 0, b: 0, a: 0 }));
    assert_eq!(named_color(&b"nosuchcolor".to_vec()), None);
    assert_eq!(word_color(&b"dark_gray".to_vec()), Some(rgb(96, 96, 96)));
    assert_eq!(word_color(&b"blank".to_vec()), Some(Rgba8 { r: 0, g: 0, b: 0, a: 0 }));
    assert_eq!(word_color(&b"gold".to_vec()), Some(rgb(255, 215, 0)));
    assert_eq!(word_color(&b"magenta".to_vec()), None);
}

#[test]
fn hsl_converts_through_the_colour_engine() {
    // hsl(0 100% 50%) is pure red; an unchanged hand-back would return
    // the raw components instead.
    let c = convert(&ColorSpec::Hsl { h: 0, s: 1000, l: 500, alpha: 1000 }, false);
    assert_eq!(c, rgb(255, 0, 0));
    let g = convert(&ColorSpec::Hsl { h: 120000, s: 1000, l: 250, alpha: 1000 }, false);
    assert_eq!(g, rgb(0, 128, 0));
}

#[test]
fn lab_white_converts_to_white() {
    let c = convert(&ColorSpec::Lab { l: 100000, a: 0, b: 0, alpha: 1000 }, false);
    assert_eq!(c, rgb(255, 255, 255));
    let black = convert(&ColorSpec::Lab { l: 0, a: 0, b: 0, alpha: 1000 }, false);
    assert_eq!(black, rgb(0, 0, 0));
}

#[test]
fn srgb_fractions_quantize_exactly() {
    let c = convert(&ColorSpec::Srgb { r: 1000, g: 0, b: 500, alpha: 1000 }, true);
    assert_eq!(c, Rgba8 { r: 255, g: 0, b: 128, a: 255 });
}

#[test]
fn unsupported_spaces_fall_back_to_dark_gray() {
    assert_eq!(convert(&ColorSpec::OtherSpace, true), rgb(96, 96, 96));
    assert_eq!(convert(&ColorSpec::Current, false), rgb(96, 96, 96));
}

#[test]
fn ini_colors_parse_with_optional_alpha() {
    assert_eq!(ini_color(&b"61,174,233".to_vec()), Some(rgb(61, 174, 233)));
    assert_eq!(ini_color(&b" 1 , 2 , 3 , 4 ".to_vec()), Some(Rgba8 { r: 1, g: 2, b: 3, a: 4 }));
    assert_eq!(ini_color(&b"1,2".to_vec()), None);
    assert_eq!(ini_color(&b"300,2,3".to_vec()), None);
    assert_eq!(ini_color(&b"1,2,3,bad".to_vec()), Some(Rgba8 { r: 1, g: 2, b: 3, a: 255 }));
}

#[test]
fn kde_lookup_reports_missing_and_malformed_entries() {
    let ini = IniData {
        entries: vec![
            (b"Colors:Window".to_vec(), b"BackgroundNormal".to_vec(), b"10,20,30".to_vec()),
            (b"WM".to_vec(), b"activeForeground".to_vec(), b"oops".to_vec()),
        ],
    };
    assert_eq!(ini.get_color("Colors:Window", "BackgroundNormal"), Ok(rgb(10, 20, 30)));
    assert_eq!(ini.get_color("Colors:View", "BackgroundNormal"), Err(ThemeError::LookupError));
    assert_eq!(ini.get_color("WM", "activeForeground"), Err(ThemeError::ParseError));
}

#[test]
fn kde_styling_writes_looked_up_colours() {
    let ini = IniData {
        entries: vec![
            (b"Colors:Window".to_vec(), b"BackgroundNormal".to_vec(), b"10,20,30".to_vec()),
            (b"Colors:Selection".to_vec(), b"BackgroundAlternate".to_vec(), b"40,50,60".to_vec()),
        ],
    };
    let mut rec = StyleRecord::baseline(true);
    system_theme::kde::style_kde(&mut rec, &ini).unwrap();
    assert_eq!(rec.panel_fill, rgb(10, 20, 30));
    assert_eq!(rec.window_fill, rgb(10, 20, 30));
    assert_eq!(rec.selection_bg_fill, rgb(40, 50, 60));
    assert_eq!(rec.window_rounding.nw, 2000);
    assert_eq!(rec.window_shadow.blur, 30000);
}

#[test]
fn unpack_reads_bgr_order() {
    let c = unpack_0bgr(0x00FF8040);
    assert_eq!(c, rgb(0x40, 0x80, 0xFF));
}

#[test]
fn kernel_version_decides_the_generation() {
    assert!(is_windows_eleven_kernel(&b"22621".to_vec()));
    assert!(is_windows_eleven_kernel(&b"22000".to_vec()));
    assert!(!is_windows_eleven_kernel(&b"19045".to_vec()));
    assert!(!is_windows_eleven_kernel(&b"6.1.7601".to_vec()));
    assert!(!is_windows_eleven_kernel(&b"".to_vec()));
}

#[test]
fn windows_styling_flattens_and_squares_corners() {
    let colors = SystemColors {
        window_background: rgb(240, 240, 240),
        window_text: rgb(0, 0, 0),
        inactive: rgb(109, 109, 109),
        highlight_text: rgb(255, 255, 255),
        highlight: rgb(0, 120, 215),
        widget_text: rgb(0, 0, 0),
        widget_background: rgb(240, 240, 240),
    };
    let mut rec = StyleRecord::baseline(false);
    system_theme::windows::style(&mut rec, &colors, false).unwrap();
    assert_eq!(rec.active.bg_fill, colors.highlight);
    assert_eq!(rec.hyperlink_color, colors.highlight);
    assert_eq!(rec.window_rounding.nw, 0);
    assert_eq!(rec.inactive.rounding.se, 0);
    let mut rec11 = StyleRecord::baseline(false);
    system_theme::windows::style(&mut rec11, &colors, true).unwrap();
    assert_ne!(rec11.window_rounding.nw, 0);
}

#[test]
fn macos_palette_maps_basic_colours() {
    assert_eq!(color32_to_macos_color(rgb(0, 0, 255), true), rgb(10, 132, 255));
    assert_eq!(color32_to_macos_color(rgb(0, 0, 255), false), rgb(0, 122, 255));
    assert_eq!(color32_to_macos_color(rgb(0, 0, 139), true), rgb(0, 64, 221));
    assert_eq!(color32_to_macos_color(rgb(7, 7, 7), false), rgb(7, 7, 7));
}

#[test]
fn macos_accent_darkens_for_fills() {
    assert_eq!(AccentColor::from_index(4), Some(AccentColor::Blue));
    assert_eq!(AccentColor::from_index(9), None);
    let mut rec = StyleRecord::baseline(true);
    set_accent(&mut rec, Some(AccentColor::Blue));
    let highlight = AccentColor::Blue.color();
    assert_eq!(rec.active.bg_fill, highlight);
    // The weak fill was nudged toward black, so an unchanged hand-back
    // of the mixed colour would fail here.
    assert_ne!(rec.active.weak_bg_fill, highlight);
    assert!(rec.active.weak_bg_fill.r < highlight.r + 1);
    assert_eq!(rec.hyperlink_color, rec.active.weak_bg_fill);
}

#[test]
fn macos_style_sets_dark_fills() {
    let mut rec = StyleRecord::baseline(true);
    system_theme::macos::style(&mut rec, true, None).unwrap();
    assert_eq!(rec.panel_fill, rgb(42, 42, 42));
    assert_eq!(rec.extreme_bg_color, rgb(54, 54, 54));
}

#[test]
fn candidate_paths_probe_user_then_system() {
    let paths = candidate_paths(&b"/home/u".to_vec(), &b"Adwaita".to_vec(), 4, true);
    let texts: Vec<String> =
        paths.iter().map(|p| String::from_utf8(p.clone()).unwrap()).collect();
    assert_eq!(texts[0], "/home/u/.themes/Adwaita/gtk-4.0/gtk-dark.css");
    assert_eq!(texts[1], "/home/u/.themes/Adwaita/gtk-4.0/gtk.css");
    assert_eq!(texts[2], "/usr/share/themes/Adwaita/gtk-4.0/gtk-dark.css");
    assert_eq!(texts[3], "/usr/share/themes/Adwaita/gtk-4.0/gtk.css");
    let light = candidate_paths(&b"/home/u".to_vec(), &b"Breeze".to_vec(), 3, false);
    assert_eq!(String::from_utf8(light[0].clone()).unwrap(), "/home/u/.themes/Breeze/gtk-3.0/gtk.css");
}

#[test]
fn path_helpers_join_and_strip() {
    assert_eq!(exec_dirname(&b"a/b/c.css".to_vec()), b"a/b".to_vec());
    assert_eq!(exec_dirname(&b"c.css".to_vec()), b"".to_vec());
    assert_eq!(exec_join_path(&b"a/b".to_vec(), &b"x.css".to_vec()), b"a/b/x.css".to_vec());
    assert_eq!(exec_join_path(&b"a/b".to_vec(), &b"/abs.css".to_vec()), b"/abs.css".to_vec());
    assert_eq!(exec_join_path(&b"".to_vec(), &b"x.css".to_vec()), b"x.css".to_vec());
}

#[test]
fn extraction_machine_asks_for_the_root_first() {
    let mut ex = Extraction::new(true, b"gtk.css".to_vec());
    match ex.run() {
        RunOutcome::NeedFile(p) => assert_eq!(p, b"gtk.css".to_vec()),
        other => panic!("unexpected outcome: {:?}", other),
    }
    assert!(ex.supply_file(&b".background { background-color: #0000ff; }".to_vec()).is_ok());
    match ex.run() {
        RunOutcome::Done => {},
        other => panic!("unexpected outcome: {:?}", other),
    }
    assert_eq!(ex.record.panel_fill, rgb(0, 0, 255));
}

#[test]
fn extraction_machine_records_io_failure() {
    let mut ex = Extraction::new(false, b"gtk.css".to_vec());
    ex.supply_missing();
    match ex.run() {
        RunOutcome::Failed(e) => assert_eq!(e, ThemeError::IoError),
        other => panic!("unexpected outcome: {:?}", other),
    }
}

#[test]
fn titlebar_picks_fill_by_focus() {
    let rec = StyleRecord::baseline(true);
    assert_eq!(rec.titlebar(true), rec.noninteractive.weak_bg_fill);
    assert_eq!(rec.titlebar(false), rec.panel_fill);
}

#[test]
fn error_taxonomy_is_distinct() {
    let all = [
        ThemeError::IoError,
        ThemeError::ParseError,
        ThemeError::MinifyError,
        ThemeError::LookupError,
    ];
    for (i, a) in all.iter().enumerate() {
        for (j, b) in all.iter().enumerate() {
            assert_eq!(i == j, a == b);
        }
    }
}
