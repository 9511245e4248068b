//! The structured style record that extraction fills in: per-widget-state
//! slots plus a handful of scalar fields. Lengths (stroke widths, corner
//! radii, shadow geometry) are kept in thousandths of a pixel so the record
//! is exact integer data.
use vstd::prelude::*;

use crate::color::Rgba8;

verus! {

/// A stroke: a width in thousandths of a pixel and a colour.
#[derive(Clone, Copy, Debug, PartialEq, Eq, Structural)]
pub struct Stroke {
    pub width: i64,
    pub color: Rgba8,
}

impl Stroke {
    /// A one-pixel stroke of the given colour, the shape every extracted
    /// foreground or border stroke takes.
    pub fn one(color: Rgba8) -> (s: Stroke)
        ensures
            s == spec_stroke_one(color),
    {
        Stroke { width: 1000, color }
    }
}

pub open spec fn spec_stroke_one(color: Rgba8) -> Stroke {
    Stroke { width: 1000, color }
}

/// Corner rounding, one radius per corner, in thousandths of a pixel.
#[derive(Clone, Copy, Debug, PartialEq, Eq, Structural)]
pub struct Rounding {
    pub nw: i64,
    pub ne: i64,
    pub sw: i64,
    pub se: i64,
}

pub open spec fn spec_rounding_same(v: i64) -> Rounding {
    Rounding { nw: v, ne: v, sw: v, se: v }
}

impl Rounding {
    pub fn same(v: i64) -> (r: Rounding)
        ensures
            r == spec_rounding_same(v),
    {
        Rounding { nw: v, ne: v, sw: v, se: v }
    }
}

/// A drop shadow: offset, blur and spread in thousandths of a pixel.
#[derive(Clone, Copy, Debug, PartialEq, Eq, Structural)]
pub struct Shadow {
    pub dx: i64,
    pub dy: i64,
    pub blur: i64,
    pub spread: i64,
    pub color: Rgba8,
}

/// The slots kept for one widget interaction state.
#[derive(Clone, Copy, Debug, PartialEq, Eq, Structural)]
pub struct WidgetStyle {
    pub bg_fill: Rgba8,
    pub weak_bg_fill: Rgba8,
    pub fg_stroke: Stroke,
    pub bg_stroke: Stroke,
    pub rounding: Rounding,
}

/// The output of one extraction call. Fields are overwritten in rule
/// document order and never read back and blended.
#[derive(Clone, Copy, Debug, PartialEq, Eq, Structural)]
pub struct StyleRecord {
    pub noninteractive: WidgetStyle,
    pub inactive: WidgetStyle,
    pub hovered: WidgetStyle,
    pub active: WidgetStyle,
    pub opened: WidgetStyle,
    pub panel_fill: Rgba8,
    pub window_fill: Rgba8,
    pub hyperlink_color: Rgba8,
    pub selection_bg_fill: Rgba8,
    pub selection_stroke: Stroke,
    pub code_bg_color: Rgba8,
    pub extreme_bg_color: Rgba8,
    pub faint_bg_color: Rgba8,
    pub window_stroke: Stroke,
    pub window_rounding: Rounding,
    pub window_shadow: Shadow,
    pub popup_shadow: Shadow,
}

pub open spec fn spec_gray(l: u8) -> Rgba8 {
    Rgba8 { r: l, g: l, b: l, a: 255 }
}

/// The platform-neutral dark baseline set before any rule is applied.
pub open spec fn spec_baseline_dark() -> StyleRecord {
    StyleRecord {
        noninteractive: WidgetStyle {
            bg_fill: spec_gray(27),
            weak_bg_fill: spec_gray(27),
            fg_stroke: Stroke { width: 1000, color: spec_gray(140) },
            bg_stroke: Stroke { width: 1000, color: spec_gray(60) },
            rounding: spec_rounding_same(2000),
        },
        inactive: WidgetStyle {
            bg_fill: spec_gray(60),
            weak_bg_fill: spec_gray(60),
            fg_stroke: Stroke { width: 1000, color: spec_gray(180) },
            bg_stroke: Stroke { width: 0, color: Rgba8 { r: 0, g: 0, b: 0, a: 0 } },
            rounding: spec_rounding_same(2000),
        },
        hovered: WidgetStyle {
            bg_fill: spec_gray(70),
            weak_bg_fill: spec_gray(70),
            fg_stroke: Stroke { width: 1500, color: spec_gray(240) },
            bg_stroke: Stroke { width: 1000, color: spec_gray(150) },
            rounding: spec_rounding_same(3000),
        },
        active: WidgetStyle {
            bg_fill: spec_gray(55),
            weak_bg_fill: spec_gray(55),
            fg_stroke: Stroke { width: 2000, color: spec_gray(255) },
            bg_stroke: Stroke { width: 1000, color: spec_gray(255) },
            rounding: spec_rounding_same(2000),
        },
        opened: WidgetStyle {
            bg_fill: spec_gray(27),
            weak_bg_fill: spec_gray(45),
            fg_stroke: Stroke { width: 1000, color: spec_gray(210) },
            bg_stroke: Stroke { width: 1000, color: spec_gray(60) },
            rounding: spec_rounding_same(2000),
        },
        panel_fill: spec_gray(27),
        window_fill: spec_gray(27),
        hyperlink_color: Rgba8 { r: 90, g: 170, b: 255, a: 255 },
        selection_bg_fill: Rgba8 { r: 0, g: 92, b: 128, a: 255 },
        selection_stroke: Stroke { width: 1000, color: Rgba8 { r: 192, g: 222, b: 255, a: 255 } },
        code_bg_color: spec_gray(64),
        extreme_bg_color: spec_gray(10),
        faint_bg_color: Rgba8 { r: 5, g: 5, b: 5, a: 0 },
        window_stroke: Stroke { width: 1000, color: spec_gray(60) },
        window_rounding: spec_rounding_same(6000),
        window_shadow: Shadow {
            dx: 10000,
            dy: 20000,
            blur: 15000,
            spread: 0,
            color: Rgba8 { r: 0, g: 0, b: 0, a: 96 },
        },
        popup_shadow: Shadow {
            dx: 6000,
            dy: 10000,
            blur: 8000,
            spread: 0,
            color: Rgba8 { r: 0, g: 0, b: 0, a: 96 },
        },
    }
}

/// The platform-neutral light baseline.
pub open spec fn spec_baseline_light() -> StyleRecord {
    StyleRecord {
        noninteractive: WidgetStyle {
            bg_fill: spec_gray(248),
            weak_bg_fill: spec_gray(248),
            fg_stroke: Stroke { width: 1000, color: spec_gray(80) },
            bg_stroke: Stroke { width: 1000, color: spec_gray(190) },
            rounding: spec_rounding_same(2000),
        },
        inactive: WidgetStyle {
            bg_fill: spec_gray(230),
            weak_bg_fill: spec_gray(230),
            fg_stroke: Stroke { width: 1000, color: spec_gray(60) },
            bg_stroke: Stroke { width: 0, color: Rgba8 { r: 0, g: 0, b: 0, a: 0 } },
            rounding: spec_rounding_same(2000),
        },
        hovered: WidgetStyle {
            bg_fill: spec_gray(220),
            weak_bg_fill: spec_gray(220),
            fg_stroke: Stroke { width: 1500, color: spec_gray(0) },
            bg_stroke: Stroke { width: 1000, color: spec_gray(105) },
            rounding: spec_rounding_same(3000),
        },
        active: WidgetStyle {
            bg_fill: spec_gray(165),
            weak_bg_fill: spec_gray(165),
            fg_stroke: Stroke { width: 2000, color: spec_gray(0) },
            bg_stroke: Stroke { width: 1000, color: spec_gray(0) },
            rounding: spec_rounding_same(2000),
        },
        opened: WidgetStyle {
            bg_fill: spec_gray(220),
            weak_bg_fill: spec_gray(220),
            fg_stroke: Stroke { width: 1000, color: spec_gray(0) },
            bg_stroke: Stroke { width: 1000, color: spec_gray(160) },
            rounding: spec_rounding_same(2000),
        },
        panel_fill: spec_gray(248),
        window_fill: spec_gray(248),
        hyperlink_color: Rgba8 { r: 0, g: 155, b: 255, a: 255 },
        selection_bg_fill: Rgba8 { r: 144, g: 209, b: 255, a: 255 },
        selection_stroke: Stroke { width: 1000, color: Rgba8 { r: 0, g: 83, b: 125, a: 255 } },
        code_bg_color: spec_gray(230),
        extreme_bg_color: spec_gray(255),
        faint_bg_color: Rgba8 { r: 5, g: 5, b: 5, a: 0 },
        window_stroke: Stroke { width: 1000, color: spec_gray(190) },
        window_rounding: spec_rounding_same(6000),
        window_shadow: Shadow {
            dx: 10000,
            dy: 20000,
            blur: 15000,
            spread: 0,
            color: Rgba8 { r: 0, g: 0, b: 0, a: 25 },
        },
        popup_shadow: Shadow {
            dx: 6000,
            dy: 10000,
            blur: 8000,
            spread: 0,
            color: Rgba8 { r: 0, g: 0, b: 0, a: 25 },
        },
    }
}

pub open spec fn spec_baseline(dark: bool) -> StyleRecord {
    if dark {
        spec_baseline_dark()
    } else {
        spec_baseline_light()
    }
}

impl StyleRecord {
    /// The baseline record for the ambient mode, before any rule applies.
    pub fn baseline(dark: bool) -> (r: StyleRecord)
        ensures
            r == spec_baseline(dark),
    {
        let gray0 = Rgba8 { r: 0, g: 0, b: 0, a: 255 };
        let none_stroke = Stroke { width: 0, color: Rgba8 { r: 0, g: 0, b: 0, a: 0 } };
        if dark {
            let base = Rgba8 { r: 27, g: 27, b: 27, a: 255 };
            StyleRecord {
                noninteractive: WidgetStyle {
                    bg_fill: base,
                    weak_bg_fill: base,
                    fg_stroke: Stroke { width: 1000, color: Rgba8 { r: 140, g: 140, b: 140, a: 255 } },
                    bg_stroke: Stroke { width: 1000, color: Rgba8 { r: 60, g: 60, b: 60, a: 255 } },
                    rounding: Rounding { nw: 2000, ne: 2000, sw: 2000, se: 2000 },
                },
                inactive: WidgetStyle {
                    bg_fill: Rgba8 { r: 60, g: 60, b: 60, a: 255 },
                    weak_bg_fill: Rgba8 { r: 60, g: 60, b: 60, a: 255 },
                    fg_stroke: Stroke { width: 1000, color: Rgba8 { r: 180, g: 180, b: 180, a: 255 } },
                    bg_stroke: none_stroke,
                    rounding: Rounding { nw: 2000, ne: 2000, sw: 2000, se: 2000 },
                },
                hovered: WidgetStyle {
                    bg_fill: Rgba8 { r: 70, g: 70, b: 70, a: 255 },
                    weak_bg_fill: Rgba8 { r: 70, g: 70, b: 70, a: 255 },
                    fg_stroke: Stroke { width: 1500, color: Rgba8 { r: 240, g: 240, b: 240, a: 255 } },
                    bg_stroke: Stroke { width: 1000, color: Rgba8 { r: 150, g: 150, b: 150, a: 255 } },
                    rounding: Rounding { nw: 3000, ne: 3000, sw: 3000, se: 3000 },
                },
                active: WidgetStyle {
                    bg_fill: Rgba8 { r: 55, g: 55, b: 55, a: 255 },
                    weak_bg_fill: Rgba8 { r: 55, g: 55, b: 55, a: 255 },
                    fg_stroke: Stroke { width: 2000, color: Rgba8 { r: 255, g: 255, b: 255, a: 255 } },
                    bg_stroke: Stroke { width: 1000, color: Rgba8 { r: 255, g: 255, b: 255, a: 255 } },
                    rounding: Rounding { nw: 2000, ne: 2000, sw: 2000, se: 2000 },
                },
                opened: WidgetStyle {
                    bg_fill: base,
                    weak_bg_fill: Rgba8 { r: 45, g: 45, b: 45, a: 255 },
                    fg_stroke: Stroke { width: 1000, color: Rgba8 { r: 210, g: 210, b: 210, a: 255 } },
                    bg_stroke: Stroke { width: 1000, color: Rgba8 { r: 60, g: 60, b: 60, a: 255 } },
                    rounding: Rounding { nw: 2000, ne: 2000, sw: 2000, se: 2000 },
                },
                panel_fill: base,
                window_fill: base,
                hyperlink_color: Rgba8 { r: 90, g: 170, b: 255, a: 255 },
                selection_bg_fill: Rgba8 { r: 0, g: 92, b: 128, a: 255 },
                selection_stroke: Stroke {
                    width: 1000,
                    color: Rgba8 { r: 192, g: 222, b: 255, a: 255 },
                },
                code_bg_color: Rgba8 { r: 64, g: 64, b: 64, a: 255 },
                extreme_bg_color: Rgba8 { r: 10, g: 10, b: 10, a: 255 },
                faint_bg_color: Rgba8 { r: 5, g: 5, b: 5, a: 0 },
                window_stroke: Stroke { width: 1000, color: Rgba8 { r: 60, g: 60, b: 60, a: 255 } },
                window_rounding: Rounding { nw: 6000, ne: 6000, sw: 6000, se: 6000 },
                window_shadow: Shadow {
                    dx: 10000,
                    dy: 20000,
                    blur: 15000,
                    spread: 0,
                    color: Rgba8 { r: 0, g: 0, b: 0, a: 96 },
                },
                popup_shadow: Shadow {
                    dx: 6000,
                    dy: 10000,
                    blur: 8000,
                    spread: 0,
                    color: Rgba8 { r: 0, g: 0, b: 0, a: 96 },
                },
            }
        } else {
            let base = Rgba8 { r: 248, g: 248, b: 248, a: 255 };
            StyleRecord {
                noninteractive: WidgetStyle {
                    bg_fill: base,
                    weak_bg_fill: base,
                    fg_stroke: Stroke { width: 1000, color: Rgba8 { r: 80, g: 80, b: 80, a: 255 } },
                    bg_stroke: Stroke { width: 1000, color: Rgba8 { r: 190, g: 190, b: 190, a: 255 } },
                    rounding: Rounding { nw: 2000, ne: 2000, sw: 2000, se: 2000 },
                },
                inactive: WidgetStyle {
                    bg_fill: Rgba8 { r: 230, g: 230, b: 230, a: 255 },
                    weak_bg_fill: Rgba8 { r: 230, g: 230, b: 230, a: 255 },
                    fg_stroke: Stroke { width: 1000, color: Rgba8 { r: 60, g: 60, b: 60, a: 255 } },
                    bg_stroke: none_stroke,
                    rounding: Rounding { nw: 2000, ne: 2000, sw: 2000, se: 2000 },
                },
                hovered: WidgetStyle {
                    bg_fill: Rgba8 { r: 220, g: 220, b: 220, a: 255 },
                    weak_bg_fill: Rgba8 { r: 220, g: 220, b: 220, a: 255 },
                    fg_stroke: Stroke { width: 1500, color: gray0 },
                    bg_stroke: Stroke { width: 1000, color: Rgba8 { r: 105, g: 105, b: 105, a: 255 } },
                    rounding: Rounding { nw: 3000, ne: 3000, sw: 3000, se: 3000 },
                },
                active: WidgetStyle {
                    bg_fill: Rgba8 { r: 165, g: 165, b: 165, a: 255 },
                    weak_bg_fill: Rgba8 { r: 165, g: 165, b: 165, a: 255 },
                    fg_stroke: Stroke { width: 2000, color: gray0 },
                    bg_stroke: Stroke { width: 1000, color: gray0 },
                    rounding: Rounding { nw: 2000, ne: 2000, sw: 2000, se: 2000 },
                },
                opened: WidgetStyle {
                    bg_fill: Rgba8 { r: 220, g: 220, b: 220, a: 255 },
                    weak_bg_fill: Rgba8 { r: 220, g: 220, b: 220, a: 255 },
                    fg_stroke: Stroke { width: 1000, color: gray0 },
                    bg_stroke: Stroke { width: 1000, color: Rgba8 { r: 160, g: 160, b: 160, a: 255 } },
                    rounding: Rounding { nw: 2000, ne: 2000, sw: 2000, se: 2000 },
                },
                panel_fill: base,
                window_fill: base,
                hyperlink_color: Rgba8 { r: 0, g: 155, b: 255, a: 255 },
                selection_bg_fill: Rgba8 { r: 144, g: 209, b: 255, a: 255 },
                selection_stroke: Stroke { width: 1000, color: Rgba8 { r: 0, g: 83, b: 125, a: 255 } },
                code_bg_color: Rgba8 { r: 230, g: 230, b: 230, a: 255 },
                extreme_bg_color: Rgba8 { r: 255, g: 255, b: 255, a: 255 },
                faint_bg_color: Rgba8 { r: 5, g: 5, b: 5, a: 0 },
                window_stroke: Stroke { width: 1000, color: Rgba8 { r: 190, g: 190, b: 190, a: 255 } },
                window_rounding: Rounding { nw: 6000, ne: 6000, sw: 6000, se: 6000 },
                window_shadow: Shadow {
                    dx: 10000,
                    dy: 20000,
                    blur: 15000,
                    spread: 0,
                    color: Rgba8 { r: 0, g: 0, b: 0, a: 25 },
                },
                popup_shadow: Shadow {
                    dx: 6000,
                    dy: 10000,
                    blur: 8000,
                    spread: 0,
                    color: Rgba8 { r: 0, g: 0, b: 0, a: 25 },
                },
            }
        }
    }

    /// The titlebar colour: the noninteractive weak background when the
    /// window is focused, else the panel fill.
    pub fn titlebar(&self, focused: bool) -> (c: Rgba8)
        ensures
            c == (if focused {
                self.noninteractive.weak_bg_fill
            } else {
                self.panel_fill
            }),
    {
        if focused {
            self.noninteractive.weak_bg_fill
        } else {
            self.panel_fill
        }
    }
}

} // verus!
