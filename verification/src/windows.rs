//! The Windows styling rules: composing the record from the system
//! colours and build version. Reading those from the system is the
//! caller's business; the decisions on the values read are made here.
use vstd::prelude::*;

use crate::ThemeError;
use crate::color::Rgba8;
use crate::convert::MixTarget;
use crate::convert::spec_mutated;
use crate::convert::mutate;
use crate::record::Rounding;
use crate::record::Shadow;
use crate::record::Stroke;
use crate::record::StyleRecord;
use crate::record::WidgetStyle;
use crate::record::spec_stroke_one;
use crate::record::spec_rounding_same;
use crate::token::digits_end;
use crate::token::digits_val;
use crate::token::is_digit;
use crate::token::lemma_digits_all;
use crate::token::lemma_digits_end;
use crate::token::lemma_digits_val_bound;
use crate::token::lemma_pow10_mono;
use crate::token::pow10;

verus! {

/// Unpacks a `0x00BBGGRR` system colour value.
pub open spec fn spec_unpack_0bgr(packed: u32) -> Rgba8 {
    Rgba8 {
        r: (packed & 0xff) as u8,
        g: ((packed >> 8) & 0xff) as u8,
        b: ((packed >> 16) & 0xff) as u8,
        a: 255,
    }
}

pub fn unpack_0bgr(packed: u32) -> (c: Rgba8)
    ensures
        c == spec_unpack_0bgr(packed),
{
    proof {
        assert((packed & 0xff) < 256 && ((packed >> 8) & 0xff) < 256 && ((packed >> 16) & 0xff)
            < 256) by (bit_vector);
    }
    Rgba8 {
        r: (packed & 0xff) as u8,
        g: ((packed >> 8) & 0xff) as u8,
        b: ((packed >> 16) & 0xff) as u8,
        a: 255,
    }
}

/// The kernel build number a version text names: the decimal value when
/// the whole text is one number of reasonable length, zero otherwise.
pub open spec fn spec_build_number(v: Seq<u8>) -> int {
    if v.len() >= 1 && v.len() <= 9 && digits_end(v, 0) == v.len() {
        digits_val(v, 0, v.len() as int)
    } else {
        0
    }
}

/// Whether a kernel version text names a build at or past the first
/// build of the newer generation.
pub open spec fn spec_is_eleven(v: Seq<u8>) -> bool {
    spec_build_number(v) >= 22000
}

pub fn is_windows_eleven_kernel(v: &Vec<u8>) -> (r: bool)
    ensures
        r == spec_is_eleven(v@),
{
    let n = v.len();
    if n < 1 || n > 9 {
        return false;
    }
    let mut i: usize = 0;
    while i < n
        invariant
            i <= n,
            n == v@.len(),
            digits_end(v@, 0) == digits_end(v@, i as int),
        decreases n - i,
    {
        let d = 48 <= v[i] && v[i] <= 57;
        if !d {
            proof {
                lemma_digits_end(v@, i as int);
                assert(digits_end(v@, i as int) == i);
            }
            return false;
        }
        i += 1;
    }
    proof {
        lemma_digits_end(v@, n as int);
        assert(digits_end(v@, 0) == n);
        lemma_digits_all(v@, 0);
        lemma_digits_val_bound(v@, 0, n as int);
        lemma_pow10_mono(n as nat, 9);
        assert(pow10(9) == 1000000000) by {
            reveal_with_fuel(pow10, 11);
        }
    }
    let mut val: u64 = 0;
    let mut k: usize = 0;
    while k < n
        invariant
            k <= n,
            1 <= n <= 9,
            n == v@.len(),
            forall|x: int| 0 <= x < n ==> is_digit(v@[x]),
            val == digits_val(v@, 0, k as int),
            0 <= digits_val(v@, 0, n as int) < 1000000000,
        decreases n - k,
    {
        proof {
            lemma_digits_val_bound(v@, 0, k as int);
            lemma_pow10_mono(k as nat, 9);
            assert(pow10(9) == 1000000000) by {
                reveal_with_fuel(pow10, 11);
            }
            assert(digits_val(v@, 0, k as int + 1) == digits_val(v@, 0, k as int) * 10 + (v@[k as int]
                - 48));
        }
        val = val * 10 + (v[k] - 48) as u64;
        k += 1;
    }
    val >= 22000
}

/// The system colours the styling reads, already unpacked.
#[derive(Debug, Clone, Copy, PartialEq, Eq, Structural)]
pub struct SystemColors {
    pub window_background: Rgba8,
    pub window_text: Rgba8,
    pub inactive: Rgba8,
    pub highlight_text: Rgba8,
    pub highlight: Rgba8,
    pub widget_text: Rgba8,
    pub widget_background: Rgba8,
}

/// The record the system colours compose: flat fills, one-pixel strokes,
/// hover states blended toward the highlight, and square corners before
/// the newer generation.
pub open spec fn spec_style_windows(
    rec: StyleRecord,
    c: SystemColors,
    eleven: bool,
) -> StyleRecord {
    let widget_background_darker = spec_mutated(c.widget_background, MixTarget::Black, 100);
    let divider = spec_mutated(c.window_background, MixTarget::Black, 200);
    let hovered_background = spec_mutated(
        c.widget_background,
        MixTarget::Color(c.highlight),
        400,
    );
    let faint = spec_mutated(c.window_background, MixTarget::MidGray, 200);
    let shadow = Shadow {
        dx: 0,
        dy: 10000,
        blur: 30000,
        spread: 10000,
        color: Rgba8 { r: 0, g: 0, b: 0, a: 50 },
    };
    let base = StyleRecord {
        noninteractive: WidgetStyle {
            bg_fill: divider,
            weak_bg_fill: c.window_background,
            fg_stroke: spec_stroke_one(c.window_text),
            bg_stroke: spec_stroke_one(divider),
            ..rec.noninteractive
        },
        inactive: WidgetStyle {
            bg_fill: divider,
            weak_bg_fill: c.widget_background,
            fg_stroke: spec_stroke_one(c.widget_text),
            bg_stroke: spec_stroke_one(c.inactive),
            ..rec.inactive
        },
        hovered: WidgetStyle {
            bg_fill: hovered_background,
            weak_bg_fill: hovered_background,
            fg_stroke: spec_stroke_one(c.widget_text),
            bg_stroke: spec_stroke_one(c.highlight),
            ..rec.hovered
        },
        active: WidgetStyle {
            bg_fill: c.highlight,
            weak_bg_fill: c.highlight,
            fg_stroke: spec_stroke_one(c.highlight_text),
            bg_stroke: spec_stroke_one(c.highlight),
            ..rec.active
        },
        opened: WidgetStyle {
            bg_fill: c.highlight,
            weak_bg_fill: c.widget_background,
            fg_stroke: spec_stroke_one(c.highlight_text),
            bg_stroke: spec_stroke_one(c.highlight),
            ..rec.opened
        },
        hyperlink_color: c.highlight,
        panel_fill: widget_background_darker,
        window_fill: widget_background_darker,
        window_stroke: spec_stroke_one(c.widget_text),
        code_bg_color: c.window_background,
        extreme_bg_color: c.window_background,
        faint_bg_color: faint,
        selection_stroke: spec_stroke_one(c.highlight_text),
        selection_bg_fill: c.highlight,
        window_shadow: shadow,
        popup_shadow: shadow,
        ..rec
    };
    if !eleven {
        StyleRecord {
            noninteractive: WidgetStyle { rounding: spec_rounding_same(0), ..base.noninteractive },
            inactive: WidgetStyle { rounding: spec_rounding_same(0), ..base.inactive },
            hovered: WidgetStyle { rounding: spec_rounding_same(0), ..base.hovered },
            active: WidgetStyle { rounding: spec_rounding_same(0), ..base.active },
            opened: WidgetStyle { rounding: spec_rounding_same(0), ..base.opened },
            window_rounding: spec_rounding_same(0),
            ..base
        }
    } else {
        base
    }
}

/// Composes the record from the system colours.
pub fn style(rec: &mut StyleRecord, c: &SystemColors, eleven: bool) -> (r: Result<(), ThemeError>)
    ensures
        r is Ok,
        *final(rec) == spec_style_windows(*old(rec), *c, eleven),
{
    let widget_background_darker = mutate(c.widget_background, &MixTarget::Black, 100);
    let divider = mutate(c.window_background, &MixTarget::Black, 200);
    let hovered_background = mutate(c.widget_background, &MixTarget::Color(c.highlight), 400);
    let faint = mutate(c.window_background, &MixTarget::MidGray, 200);
    let shadow = Shadow {
        dx: 0,
        dy: 10000,
        blur: 30000,
        spread: 10000,
        color: Rgba8 { r: 0, g: 0, b: 0, a: 50 },
    };
    let cur = *rec;
    let mut base = StyleRecord {
        noninteractive: WidgetStyle {
            bg_fill: divider,
            weak_bg_fill: c.window_background,
            fg_stroke: Stroke::one(c.window_text),
            bg_stroke: Stroke::one(divider),
            ..cur.noninteractive
        },
        inactive: WidgetStyle {
            bg_fill: divider,
            weak_bg_fill: c.widget_background,
            fg_stroke: Stroke::one(c.widget_text),
            bg_stroke: Stroke::one(c.inactive),
            ..cur.inactive
        },
        hovered: WidgetStyle {
            bg_fill: hovered_background,
            weak_bg_fill: hovered_background,
            fg_stroke: Stroke::one(c.widget_text),
            bg_stroke: Stroke::one(c.highlight),
            ..cur.hovered
        },
        active: WidgetStyle {
            bg_fill: c.highlight,
            weak_bg_fill: c.highlight,
            fg_stroke: Stroke::one(c.highlight_text),
            bg_stroke: Stroke::one(c.highlight),
            ..cur.active
        },
        opened: WidgetStyle {
            bg_fill: c.highlight,
            weak_bg_fill: c.widget_background,
            fg_stroke: Stroke::one(c.highlight_text),
            bg_stroke: Stroke::one(c.highlight),
            ..cur.opened
        },
        hyperlink_color: c.highlight,
        panel_fill: widget_background_darker,
        window_fill: widget_background_darker,
        window_stroke: Stroke::one(c.widget_text),
        code_bg_color: c.window_background,
        extreme_bg_color: c.window_background,
        faint_bg_color: faint,
        selection_stroke: Stroke::one(c.highlight_text),
        selection_bg_fill: c.highlight,
        window_shadow: shadow,
        popup_shadow: shadow,
        ..cur
    };
    if !eleven {
        base = StyleRecord {
            noninteractive: WidgetStyle { rounding: Rounding::same(0), ..base.noninteractive },
            inactive: WidgetStyle { rounding: Rounding::same(0), ..base.inactive },
            hovered: WidgetStyle { rounding: Rounding::same(0), ..base.hovered },
            active: WidgetStyle { rounding: Rounding::same(0), ..base.active },
            opened: WidgetStyle { rounding: Rounding::same(0), ..base.opened },
            window_rounding: Rounding::same(0),
            ..base
        };
    }
    *rec = base;
    Ok(())
}

} // verus!
