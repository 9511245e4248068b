//! The macOS styling rules: the accent-colour palette and the static
//! dark-mode adjustments. Reading the system's accent preference is the
//! caller's business; the decisions on the values read are made here.
use vstd::prelude::*;

use crate::ThemeError;
use crate::color::Rgba8;
use crate::color::spec_rgb;
use crate::convert::MixTarget;
use crate::convert::spec_mutated;
use crate::convert::mutate;
use crate::record::Stroke;
use crate::record::StyleRecord;
use crate::record::WidgetStyle;
use crate::record::spec_stroke_one;

verus! {

/// The system accent colours a user can choose.
#[non_exhaustive]
#[derive(Copy, Clone, Debug, PartialEq, Eq, Structural)]
pub enum AccentColor {
    Graphite,
    Red,
    Orange,
    Yellow,
    Green,
    Blue,
    Purple,
    Pink,
}

pub open spec fn spec_accent_rgba(a: AccentColor) -> Rgba8 {
    match a {
        AccentColor::Graphite => spec_rgb(140, 140, 140),
        AccentColor::Red => spec_rgb(236, 95, 93),
        AccentColor::Orange => spec_rgb(232, 136, 58),
        AccentColor::Yellow => spec_rgb(246, 200, 68),
        AccentColor::Green => spec_rgb(120, 184, 86),
        AccentColor::Blue => spec_rgb(52, 120, 246),
        AccentColor::Purple => spec_rgb(155, 85, 163),
        AccentColor::Pink => spec_rgb(228, 92, 156),
    }
}

impl AccentColor {
    /// The accent's colour value, from the settings samples.
    pub fn color(self) -> (c: Rgba8)
        ensures
            c == spec_accent_rgba(self),
    {
        match self {
            AccentColor::Graphite => Rgba8::rgb(140, 140, 140),
            AccentColor::Red => Rgba8::rgb(236, 95, 93),
            AccentColor::Orange => Rgba8::rgb(232, 136, 58),
            AccentColor::Yellow => Rgba8::rgb(246, 200, 68),
            AccentColor::Green => Rgba8::rgb(120, 184, 86),
            AccentColor::Blue => Rgba8::rgb(52, 120, 246),
            AccentColor::Purple => Rgba8::rgb(155, 85, 163),
            AccentColor::Pink => Rgba8::rgb(228, 92, 156),
        }
    }

    /// The accent a preference integer stands for, if it names one.
    pub fn from_index(i: i8) -> (r: Option<AccentColor>)
        ensures
            r == spec_accent_from_index(i),
    {
        if i == -1 {
            Some(AccentColor::Graphite)
        } else if i == 0 {
            Some(AccentColor::Red)
        } else if i == 1 {
            Some(AccentColor::Orange)
        } else if i == 2 {
            Some(AccentColor::Yellow)
        } else if i == 3 {
            Some(AccentColor::Green)
        } else if i == 4 {
            Some(AccentColor::Blue)
        } else if i == 5 {
            Some(AccentColor::Purple)
        } else if i == 6 {
            Some(AccentColor::Pink)
        } else {
            None
        }
    }
}

pub open spec fn spec_accent_from_index(i: i8) -> Option<AccentColor> {
    if i == -1 {
        Some(AccentColor::Graphite)
    } else if i == 0 {
        Some(AccentColor::Red)
    } else if i == 1 {
        Some(AccentColor::Orange)
    } else if i == 2 {
        Some(AccentColor::Yellow)
    } else if i == 3 {
        Some(AccentColor::Green)
    } else if i == 4 {
        Some(AccentColor::Blue)
    } else if i == 5 {
        Some(AccentColor::Purple)
    } else if i == 6 {
        Some(AccentColor::Pink)
    } else {
        None
    }
}

/// The dark-mode replacements for the basic palette colours, and their
/// accessible counterparts for the darker and lighter shades; a colour
/// outside the tables stays unchanged.
pub open spec fn spec_match_dark_light(c: Rgba8) -> Rgba8 {
    if c == spec_rgb(0, 0, 139) {
        spec_rgb(0, 64, 221)
    } else if c == spec_rgb(96, 96, 96) {
        spec_rgb(105, 105, 110)
    } else if c == spec_rgb(0, 100, 0) {
        spec_rgb(0, 125, 27)
    } else if c == spec_rgb(139, 0, 0) {
        spec_rgb(215, 0, 21)
    } else if c == spec_rgb(173, 216, 230) {
        spec_rgb(90, 200, 245)
    } else if c == spec_rgb(220, 220, 220) {
        spec_rgb(152, 152, 157)
    } else if c == spec_rgb(255, 128, 128) {
        spec_rgb(255, 105, 97)
    } else if c == spec_rgb(255, 255, 224) {
        spec_rgb(255, 212, 38)
    } else {
        c
    }
}

/// Maps the darker and lighter palette shades to their accessible
/// system counterparts.
pub fn match_dark_light_colors(c: Rgba8) -> (r: Rgba8)
    ensures
        r == spec_match_dark_light(c),
{
    if c == Rgba8::rgb(0, 0, 139) {
        Rgba8::rgb(0, 64, 221)
    } else if c == Rgba8::rgb(96, 96, 96) {
        Rgba8::rgb(105, 105, 110)
    } else if c == Rgba8::rgb(0, 100, 0) {
        Rgba8::rgb(0, 125, 27)
    } else if c == Rgba8::rgb(139, 0, 0) {
        Rgba8::rgb(215, 0, 21)
    } else if c == Rgba8::rgb(173, 216, 230) {
        Rgba8::rgb(90, 200, 245)
    } else if c == Rgba8::rgb(220, 220, 220) {
        Rgba8::rgb(152, 152, 157)
    } else if c == Rgba8::rgb(255, 128, 128) {
        Rgba8::rgb(255, 105, 97)
    } else if c == Rgba8::rgb(255, 255, 224) {
        Rgba8::rgb(255, 212, 38)
    } else {
        c
    }
}

pub open spec fn spec_macos_color(c: Rgba8, dark: bool) -> Rgba8 {
    if dark {
        if c == spec_rgb(0, 0, 255) {
            spec_rgb(10, 132, 255)
        } else if c == spec_rgb(165, 42, 42) {
            spec_rgb(172, 142, 104)
        } else if c == spec_rgb(160, 160, 160) {
            spec_rgb(152, 152, 157)
        } else if c == spec_rgb(0, 255, 0) {
            spec_rgb(50, 215, 75)
        } else if c == spec_rgb(255, 165, 0) {
            spec_rgb(255, 159, 10)
        } else if c == spec_rgb(255, 0, 0) {
            spec_rgb(255, 69, 58)
        } else if c == spec_rgb(255, 255, 0) {
            spec_rgb(255, 214, 10)
        } else {
            spec_match_dark_light(c)
        }
    } else {
        if c == spec_rgb(0, 0, 255) {
            spec_rgb(0, 122, 255)
        } else if c == spec_rgb(165, 42, 42) {
            spec_rgb(162, 132, 94)
        } else if c == spec_rgb(160, 160, 160) {
            spec_rgb(142, 142, 147)
        } else if c == spec_rgb(0, 255, 0) {
            spec_rgb(40, 205, 65)
        } else if c == spec_rgb(255, 165, 0) {
            spec_rgb(255, 149, 0)
        } else if c == spec_rgb(255, 0, 0) {
            spec_rgb(255, 59, 48)
        } else if c == spec_rgb(255, 255, 0) {
            spec_rgb(255, 204, 0)
        } else {
            spec_match_dark_light(c)
        }
    }
}

/// Takes a basic palette colour to the system's specified version for
/// the ambient mode; other colours pass to the shade tables unchanged.
pub fn color32_to_macos_color(c: Rgba8, dark: bool) -> (r: Rgba8)
    ensures
        r == spec_macos_color(c, dark),
{
    if dark {
        if c == Rgba8::rgb(0, 0, 255) {
            Rgba8::rgb(10, 132, 255)
        } else if c == Rgba8::rgb(165, 42, 42) {
            Rgba8::rgb(172, 142, 104)
        } else if c == Rgba8::rgb(160, 160, 160) {
            Rgba8::rgb(152, 152, 157)
        } else if c == Rgba8::rgb(0, 255, 0) {
            Rgba8::rgb(50, 215, 75)
        } else if c == Rgba8::rgb(255, 165, 0) {
            Rgba8::rgb(255, 159, 10)
        } else if c == Rgba8::rgb(255, 0, 0) {
            Rgba8::rgb(255, 69, 58)
        } else if c == Rgba8::rgb(255, 255, 0) {
            Rgba8::rgb(255, 214, 10)
        } else {
            match_dark_light_colors(c)
        }
    } else {
        if c == Rgba8::rgb(0, 0, 255) {
            Rgba8::rgb(0, 122, 255)
        } else if c == Rgba8::rgb(165, 42, 42) {
            Rgba8::rgb(162, 132, 94)
        } else if c == Rgba8::rgb(160, 160, 160) {
            Rgba8::rgb(142, 142, 147)
        } else if c == Rgba8::rgb(0, 255, 0) {
            Rgba8::rgb(40, 205, 65)
        } else if c == Rgba8::rgb(255, 165, 0) {
            Rgba8::rgb(255, 149, 0)
        } else if c == Rgba8::rgb(255, 0, 0) {
            Rgba8::rgb(255, 59, 48)
        } else if c == Rgba8::rgb(255, 255, 0) {
            Rgba8::rgb(255, 204, 0)
        } else {
            match_dark_light_colors(c)
        }
    }
}

/// What applying the accent does: the highlight colour and a slightly
/// darkened fill drive the interactive slots. A missing preference, as on
/// a multicolour setting, falls back to blue.
pub open spec fn spec_set_accent(rec: StyleRecord, accent: Option<AccentColor>) -> StyleRecord {
    let highlight = spec_accent_rgba(
        match accent {
            Some(a) => a,
            None => AccentColor::Blue,
        },
    );
    let fill = spec_mutated(highlight, MixTarget::Black, 100);
    StyleRecord {
        hovered: WidgetStyle { bg_stroke: spec_stroke_one(highlight), ..rec.hovered },
        active: WidgetStyle {
            bg_fill: highlight,
            weak_bg_fill: fill,
            bg_stroke: spec_stroke_one(highlight),
            ..rec.active
        },
        opened: WidgetStyle {
            bg_fill: fill,
            bg_stroke: spec_stroke_one(highlight),
            ..rec.opened
        },
        hyperlink_color: fill,
        selection_bg_fill: fill,
        ..rec
    }
}

/// Applies the accent colour to the interactive widget slots.
pub fn set_accent(rec: &mut StyleRecord, accent: Option<AccentColor>)
    ensures
        *final(rec) == spec_set_accent(*old(rec), accent),
{
    let a = match accent {
        Some(a) => a,
        None => AccentColor::Blue,
    };
    let highlight = a.color();
    let fill = mutate(highlight, &MixTarget::Black, 100);
    let cur = *rec;
    *rec = StyleRecord {
        hovered: WidgetStyle { bg_stroke: Stroke::one(highlight), ..cur.hovered },
        active: WidgetStyle {
            bg_fill: highlight,
            weak_bg_fill: fill,
            bg_stroke: Stroke::one(highlight),
            ..cur.active
        },
        opened: WidgetStyle { bg_fill: fill, bg_stroke: Stroke::one(highlight), ..cur.opened },
        hyperlink_color: fill,
        selection_bg_fill: fill,
        ..cur
    };
}

/// The static dark-mode adjustments before the accent is applied: fills
/// and strokes take the system application background values.
pub open spec fn spec_static_style(rec: StyleRecord, dark: bool) -> StyleRecord {
    if dark {
        let fill = spec_rgb(42, 42, 42);
        StyleRecord {
            panel_fill: fill,
            window_fill: fill,
            window_stroke: spec_stroke_one(fill),
            noninteractive: WidgetStyle {
                bg_fill: spec_mutated(fill, MixTarget::Black, 100),
                weak_bg_fill: fill,
                ..rec.noninteractive
            },
            inactive: WidgetStyle {
                bg_fill: fill,
                weak_bg_fill: fill,
                fg_stroke: spec_stroke_one(
                    spec_mutated(spec_rgb(160, 160, 160), MixTarget::White, 100),
                ),
                bg_stroke: spec_stroke_one(spec_rgb(87, 87, 87)),
                ..rec.inactive
            },
            extreme_bg_color: spec_rgb(54, 54, 54),
            ..rec
        }
    } else {
        rec
    }
}

/// The macOS styling: the static adjustments for the mode, then the
/// accent. Always succeeds; the result type mirrors the other platform
/// entries.
pub fn style(rec: &mut StyleRecord, dark: bool, accent: Option<AccentColor>) -> (r: Result<
    (),
    ThemeError,
>)
    ensures
        r is Ok,
        *final(rec) == spec_set_accent(spec_static_style(*old(rec), dark), accent),
{
    if dark {
        let fill = Rgba8::rgb(42, 42, 42);
        let cur = *rec;
        *rec = StyleRecord {
            panel_fill: fill,
            window_fill: fill,
            window_stroke: Stroke::one(fill),
            noninteractive: WidgetStyle {
                bg_fill: mutate(fill, &MixTarget::Black, 100),
                weak_bg_fill: fill,
                ..cur.noninteractive
            },
            inactive: WidgetStyle {
                bg_fill: fill,
                weak_bg_fill: fill,
                fg_stroke: Stroke::one(mutate(Rgba8::rgb(160, 160, 160), &MixTarget::White, 100)),
                bg_stroke: Stroke::one(Rgba8::rgb(87, 87, 87)),
                ..cur.inactive
            },
            extreme_bg_color: Rgba8::rgb(54, 54, 54),
            ..cur
        };
    }
    set_accent(rec, accent);
    Ok(())
}

} // verus!
