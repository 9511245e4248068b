//! Colour-space conversion. Direct RGBA and `color(srgb ...)` forms are
//! converted by exact integer arithmetic; the lab family, HSL, HWB and
//! linear sRGB go through the CSS colour engine of an outside crate, fed
//! with an exactly specified serialization of the parsed components.
use vstd::prelude::*;

use lightningcss::traits::Parse;

use crate::color::Rgba8;
use crate::color::bytes_chars;
use crate::color::spec_dark_gray;
use crate::digits::format_milli;
use crate::digits::spec_milli_text;
use crate::spaces::ColorSpec;
use crate::spaces::byte_of_frac;
use crate::spaces::byte_from_frac;

verus! {

/// The 8-bit sRGB colour that the CSS colour engine computes for a colour
/// written as this text, if the text parses as a resolvable colour. The
/// result depends on the text alone.
pub uninterp spec fn css_rgba_of(text: Seq<char>) -> Option<(u8, u8, u8, u8)>;

/// Relies on lightningcss `CssColor::parse_string` (the CSS Color 4/5
/// parser, which also evaluates `color-mix()` to a concrete colour) and
/// `CssColor::to_rgb` (conversion into 8-bit sRGB). Both are pure
/// functions of the text.
#[verifier::external_body]
fn css_color_to_rgba(text: &Vec<u8>) -> (r: Option<(u8, u8, u8, u8)>)
    ensures
        r == css_rgba_of(bytes_chars(text@)),
{
    let s = match core::str::from_utf8(text.as_slice()) {
        Ok(s) => s,
        Err(_) => return None,
    };
    let c = match lightningcss::values::color::CssColor::parse_string(s) {
        Ok(c) => c,
        Err(_) => return None,
    };
    match c.to_rgb() {
        Ok(lightningcss::values::color::CssColor::RGBA(v)) => Some((v.red, v.green, v.blue, v.alpha)),
        _ => None,
    }
}

pub open spec fn milli_chars(m: int) -> Seq<char> {
    bytes_chars(spec_milli_text(m))
}

pub open spec fn rgba_from_opt(o: Option<(u8, u8, u8, u8)>) -> Rgba8 {
    match o {
        Some(t) => Rgba8 { r: t.0, g: t.1, b: t.2, a: t.3 },
        None => spec_dark_gray(),
    }
}

// The texts handed to the colour engine, one per supported form.

pub open spec fn lab_css_text(l: int, a: int, b: int, alpha: int) -> Seq<char> {
    "lab("@ + milli_chars(l) + " "@ + milli_chars(a) + " "@ + milli_chars(b) + " / "@ + milli_chars(
        alpha,
    ) + ")"@
}

pub open spec fn lch_css_text(l: int, c: int, h: int, alpha: int) -> Seq<char> {
    "lch("@ + milli_chars(l) + " "@ + milli_chars(c) + " "@ + milli_chars(h) + " / "@ + milli_chars(
        alpha,
    ) + ")"@
}

pub open spec fn oklab_css_text(l: int, a: int, b: int, alpha: int) -> Seq<char> {
    "oklab("@ + milli_chars(l) + " "@ + milli_chars(a) + " "@ + milli_chars(b) + " / "@
        + milli_chars(alpha) + ")"@
}

pub open spec fn oklch_css_text(l: int, c: int, h: int, alpha: int) -> Seq<char> {
    "oklch("@ + milli_chars(l) + " "@ + milli_chars(c) + " "@ + milli_chars(h) + " / "@
        + milli_chars(alpha) + ")"@
}

pub open spec fn linear_css_text(r: int, g: int, b: int, alpha: int) -> Seq<char> {
    "color(srgb-linear "@ + milli_chars(r) + " "@ + milli_chars(g) + " "@ + milli_chars(b) + " / "@
        + milli_chars(alpha) + ")"@
}

/// Saturation and lightness are fractions in thousandths; they are
/// written as percentages, scaled by one hundred.
pub open spec fn hsl_css_text(h: int, s: int, l: int, alpha: int) -> Seq<char> {
    "hsl("@ + milli_chars(h) + " "@ + milli_chars(s * 100) + "% "@ + milli_chars(l * 100) + "% / "@
        + milli_chars(alpha) + ")"@
}

pub open spec fn hwb_css_text(h: int, w: int, b: int, alpha: int) -> Seq<char> {
    "hwb("@ + milli_chars(h) + " "@ + milli_chars(w * 100) + "% "@ + milli_chars(b * 100) + "% / "@
        + milli_chars(alpha) + ")"@
}

/// An exact 8-bit colour as CSS text; the alpha is written as a
/// percentage in thousandths of a percent.
pub open spec fn rgb_css_text(c: Rgba8) -> Seq<char> {
    "rgb("@ + milli_chars(c.r * 1000) + " "@ + milli_chars(c.g * 1000) + " "@ + milli_chars(
        c.b * 1000,
    ) + " / "@ + milli_chars((c.a * 100000) / 255) + "%)"@
}

/// Components are capped before serialization, so that the converter is
/// total; parser-produced components are already within these bounds and
/// pass through unchanged.
pub open spec fn cl9(v: int) -> int {
    if v < -1000000000 {
        -1000000000
    } else if v > 1000000000 {
        1000000000
    } else {
        v
    }
}

pub open spec fn cl7(v: int) -> int {
    if v < -10000000 {
        -10000000
    } else if v > 10000000 {
        10000000
    } else {
        v
    }
}

fn e_cl9(v: i64) -> (r: i64)
    ensures
        r as int == cl9(v as int),
{
    if v < -1000000000 {
        -1000000000
    } else if v > 1000000000 {
        1000000000
    } else {
        v
    }
}

fn e_cl7(v: i64) -> (r: i64)
    ensures
        r as int == cl7(v as int),
{
    if v < -10000000 {
        -10000000
    } else if v > 10000000 {
        10000000
    } else {
        v
    }
}

/// What the converter returns for every colour form, resolved against the
/// ambient dark/light mode. Total: unsupported forms yield the neutral
/// dark gray, never an error.
pub open spec fn spec_convert(c: ColorSpec, dark: bool) -> Rgba8
    decreases c,
{
    match c {
        ColorSpec::Rgba(x) => x,
        ColorSpec::Lab { l, a, b, alpha } => rgba_from_opt(
            css_rgba_of(lab_css_text(cl9(l as int), cl9(a as int), cl9(b as int), cl9(alpha as int))),
        ),
        ColorSpec::Lch { l, c, h, alpha } => rgba_from_opt(
            css_rgba_of(lch_css_text(cl9(l as int), cl9(c as int), cl9(h as int), cl9(alpha as int))),
        ),
        ColorSpec::Oklab { l, a, b, alpha } => rgba_from_opt(
            css_rgba_of(oklab_css_text(cl9(l as int), cl9(a as int), cl9(b as int), cl9(alpha as int))),
        ),
        ColorSpec::Oklch { l, c, h, alpha } => rgba_from_opt(
            css_rgba_of(oklch_css_text(cl9(l as int), cl9(c as int), cl9(h as int), cl9(alpha as int))),
        ),
        ColorSpec::Srgb { r, g, b, alpha } => Rgba8 {
            r: byte_of_frac(r as int),
            g: byte_of_frac(g as int),
            b: byte_of_frac(b as int),
            a: byte_of_frac(alpha as int),
        },
        ColorSpec::LinearSrgb { r, g, b, alpha } => rgba_from_opt(
            css_rgba_of(linear_css_text(cl9(r as int), cl9(g as int), cl9(b as int), cl9(alpha as int))),
        ),
        ColorSpec::Hsl { h, s, l, alpha } => rgba_from_opt(
            css_rgba_of(hsl_css_text(cl9(h as int), cl7(s as int), cl7(l as int), cl9(alpha as int))),
        ),
        ColorSpec::Hwb { h, w, b, alpha } => rgba_from_opt(
            css_rgba_of(hwb_css_text(cl9(h as int), cl7(w as int), cl7(b as int), cl9(alpha as int))),
        ),
        ColorSpec::LightDark(light, darkc) => if dark {
            spec_convert(*darkc, dark)
        } else {
            spec_convert(*light, dark)
        },
        ColorSpec::OtherSpace => spec_dark_gray(),
        ColorSpec::Current => spec_dark_gray(),
    }
}

/// Appends an ASCII literal to a byte text.
pub fn push_lit_pub(out: Vec<u8>, s: &str) -> (r: Vec<u8>)
    requires
        s.is_ascii(),
    ensures
        bytes_chars(r@) == bytes_chars(out@) + s@,
{
    push_lit(out, s)
}

fn push_lit(out: Vec<u8>, s: &str) -> (r: Vec<u8>)
    requires
        s.is_ascii(),
    ensures
        bytes_chars(r@) == bytes_chars(out@) + s@,
{
    broadcast use vstd::string::is_ascii_spec_bytes;

    let ghost base = out@;
    let mut acc = out;
    let bs = s.as_bytes();
    let mut i: usize = 0;
    while i < bs.len()
        invariant
            i <= bs@.len(),
            bs@.len() == s@.len(),
            forall|k: int| 0 <= k < bs@.len() ==> bs@[k] == s@[k] as u8 && (s@[k] as u32) < 128,
            bytes_chars(acc@) == bytes_chars(base) + s@.take(i as int),
        decreases bs@.len() - i,
    {
        let ghost prev = acc@;
        acc.push(bs[i]);
        proof {
            let c = s@[i as int];
            vstd::utf8::char_u32_cast(c, c as u32);
            assert(bs@[i as int] as u32 == c as u32);
            assert(bs@[i as int] as char == s@[i as int]);
            assert(bytes_chars(acc@) =~= bytes_chars(prev).push(s@[i as int]));
            assert(s@.take(i + 1) =~= s@.take(i as int).push(s@[i as int]));
            assert(bytes_chars(acc@) =~= bytes_chars(base) + s@.take(i + 1));
        }
        i += 1;
    }
    proof {
        assert(s@.take(s@.len() as int) =~= s@);
    }
    acc
}

/// Appends the decimal text of a value in thousandths.
fn push_milli(out: Vec<u8>, m: i64) -> (r: Vec<u8>)
    requires
        -10000000000 <= m <= 10000000000,
    ensures
        bytes_chars(r@) == bytes_chars(out@) + milli_chars(m as int),
{
    let ghost base = out@;
    let mut acc = out;
    let t = format_milli(m);
    let mut i: usize = 0;
    while i < t.len()
        invariant
            i <= t@.len(),
            t@ == spec_milli_text(m as int),
            bytes_chars(acc@) == bytes_chars(base) + bytes_chars(t@.take(i as int)),
        decreases t@.len() - i,
    {
        let ghost prev = acc@;
        acc.push(t[i]);
        proof {
            assert(bytes_chars(acc@) =~= bytes_chars(prev).push(t@[i as int] as char));
            assert(bytes_chars(t@.take(i + 1)) =~= bytes_chars(t@.take(i as int)).push(
                t@[i as int] as char,
            ));
            assert(bytes_chars(acc@) =~= bytes_chars(base) + bytes_chars(t@.take(i + 1)));
        }
        i += 1;
    }
    proof {
        assert(t@.take(t@.len() as int) =~= t@);
        assert(bytes_chars(t@) == milli_chars(m as int));
    }
    acc
}

/// Builds one of the component texts: a name, up to four values with
/// separators, a closing parenthesis.
fn build_space_text(kind: u8, v1: i64, v2: i64, v3: i64, alpha: i64) -> (r: Vec<u8>)
    requires
        1 <= kind <= 7,
        -1000000000 <= v1 <= 1000000000,
        -1000000000 <= alpha <= 1000000000,
        (kind == 6 || kind == 7) ==> -10000000 <= v2 <= 10000000 && -10000000 <= v3 <= 10000000,
        !(kind == 6 || kind == 7) ==> -1000000000 <= v2 <= 1000000000 && -1000000000 <= v3
            <= 1000000000,
    ensures
        bytes_chars(r@) == (match kind {
            1u8 => lab_css_text(v1 as int, v2 as int, v3 as int, alpha as int),
            2u8 => lch_css_text(v1 as int, v2 as int, v3 as int, alpha as int),
            3u8 => oklab_css_text(v1 as int, v2 as int, v3 as int, alpha as int),
            4u8 => oklch_css_text(v1 as int, v2 as int, v3 as int, alpha as int),
            5u8 => linear_css_text(v1 as int, v2 as int, v3 as int, alpha as int),
            6u8 => hsl_css_text(v1 as int, v2 as int, v3 as int, alpha as int),
            _ => hwb_css_text(v1 as int, v2 as int, v3 as int, alpha as int),
        }),
{
    let mut out: Vec<u8> = Vec::new();
    proof {
        reveal_strlit("lab(");
        reveal_strlit("lch(");
        reveal_strlit("oklab(");
        reveal_strlit("oklch(");
        reveal_strlit("color(srgb-linear ");
        reveal_strlit("hsl(");
        reveal_strlit("hwb(");
        reveal_strlit(" ");
        reveal_strlit("% ");
        reveal_strlit("% / ");
        reveal_strlit(" / ");
        reveal_strlit(")");
        assert(bytes_chars(out@) =~= Seq::<char>::empty());
    }
    let pct = kind == 6 || kind == 7;
    if kind == 1 {
        out = push_lit(out, "lab(");
    } else if kind == 2 {
        out = push_lit(out, "lch(");
    } else if kind == 3 {
        out = push_lit(out, "oklab(");
    } else if kind == 4 {
        out = push_lit(out, "oklch(");
    } else if kind == 5 {
        out = push_lit(out, "color(srgb-linear ");
    } else if kind == 6 {
        out = push_lit(out, "hsl(");
    } else {
        out = push_lit(out, "hwb(");
    }
    out = push_milli(out, v1);
    if pct {
        out = push_lit(out, " ");
        out = push_milli(out, v2 * 100);
        out = push_lit(out, "% ");
        out = push_milli(out, v3 * 100);
        out = push_lit(out, "% / ");
    } else {
        out = push_lit(out, " ");
        out = push_milli(out, v2);
        out = push_lit(out, " ");
        out = push_milli(out, v3);
        out = push_lit(out, " / ");
    }
    out = push_milli(out, alpha);
    out = push_lit(out, ")");
    proof {
        assert(Seq::<char>::empty() + "lab("@ =~= "lab("@);
        assert(Seq::<char>::empty() + "lch("@ =~= "lch("@);
        assert(Seq::<char>::empty() + "oklab("@ =~= "oklab("@);
        assert(Seq::<char>::empty() + "oklch("@ =~= "oklch("@);
        assert(Seq::<char>::empty() + "color(srgb-linear "@ =~= "color(srgb-linear "@);
        assert(Seq::<char>::empty() + "hsl("@ =~= "hsl("@);
        assert(Seq::<char>::empty() + "hwb("@ =~= "hwb("@);
    }
    out
}

/// Converts any parsed colour literal to one 8-bit RGBA value; total.
pub fn convert(c: &ColorSpec, dark: bool) -> (r: Rgba8)
    ensures
        r == spec_convert(*c, dark),
    decreases *c,
{
    match c {
        ColorSpec::Rgba(x) => *x,
        ColorSpec::Lab { l, a, b, alpha } => {
            let t = build_space_text(1, e_cl9(*l), e_cl9(*a), e_cl9(*b), e_cl9(*alpha));
            rgba_or_gray(css_color_to_rgba(&t))
        },
        ColorSpec::Lch { l, c, h, alpha } => {
            let t = build_space_text(2, e_cl9(*l), e_cl9(*c), e_cl9(*h), e_cl9(*alpha));
            rgba_or_gray(css_color_to_rgba(&t))
        },
        ColorSpec::Oklab { l, a, b, alpha } => {
            let t = build_space_text(3, e_cl9(*l), e_cl9(*a), e_cl9(*b), e_cl9(*alpha));
            rgba_or_gray(css_color_to_rgba(&t))
        },
        ColorSpec::Oklch { l, c, h, alpha } => {
            let t = build_space_text(4, e_cl9(*l), e_cl9(*c), e_cl9(*h), e_cl9(*alpha));
            rgba_or_gray(css_color_to_rgba(&t))
        },
        ColorSpec::Srgb { r, g, b, alpha } => Rgba8 {
            r: byte_from_frac(*r),
            g: byte_from_frac(*g),
            b: byte_from_frac(*b),
            a: byte_from_frac(*alpha),
        },
        ColorSpec::LinearSrgb { r, g, b, alpha } => {
            let t = build_space_text(5, e_cl9(*r), e_cl9(*g), e_cl9(*b), e_cl9(*alpha));
            rgba_or_gray(css_color_to_rgba(&t))
        },
        ColorSpec::Hsl { h, s, l, alpha } => {
            let t = build_space_text(6, e_cl9(*h), e_cl7(*s), e_cl7(*l), e_cl9(*alpha));
            rgba_or_gray(css_color_to_rgba(&t))
        },
        ColorSpec::Hwb { h, w, b, alpha } => {
            let t = build_space_text(7, e_cl9(*h), e_cl7(*w), e_cl7(*b), e_cl9(*alpha));
            rgba_or_gray(css_color_to_rgba(&t))
        },
        ColorSpec::LightDark(light, darkc) => {
            if dark {
                convert(&**darkc, dark)
            } else {
                convert(&**light, dark)
            }
        },
        ColorSpec::OtherSpace => crate::color::dark_gray(),
        ColorSpec::Current => crate::color::dark_gray(),
    }
}

fn rgba_or_gray(o: Option<(u8, u8, u8, u8)>) -> (r: Rgba8)
    ensures
        r == rgba_from_opt(o),
{
    match o {
        Some(t) => Rgba8 { r: t.0, g: t.1, b: t.2, a: t.3 },
        None => crate::color::dark_gray(),
    }
}

// --- nudging a colour toward another ---

/// The second operand of a colour nudge: pure white, pure black, the
/// mid-gray of linear space, or an arbitrary 8-bit colour.
#[derive(Debug, Clone, Copy, PartialEq, Eq, Structural)]
pub enum MixTarget {
    White,
    Black,
    MidGray,
    Color(Rgba8),
}

pub open spec fn target_chars(t: MixTarget) -> Seq<char> {
    match t {
        MixTarget::White => "color(srgb-linear 1 1 1)"@,
        MixTarget::Black => "color(srgb-linear 0 0 0)"@,
        MixTarget::MidGray => "color(srgb-linear 0.5 0.5 0.5)"@,
        MixTarget::Color(c) => rgb_css_text(c),
    }
}

pub open spec fn clamp_unit(a: int) -> int {
    if a < 0 {
        0
    } else if a > 1000 {
        1000
    } else {
        a
    }
}

/// The `color-mix()` text that nudges `c` toward the target by `amount`
/// thousandths, interpolating in linear sRGB.
pub open spec fn mix_css_text(c: Rgba8, t: MixTarget, amount: int) -> Seq<char> {
    "color-mix(in srgb-linear,"@ + rgb_css_text(c) + " "@ + milli_chars(
        (1000 - clamp_unit(amount)) * 100,
    ) + "%,"@ + target_chars(t) + " "@ + milli_chars(clamp_unit(amount) * 100) + "%)"@
}

/// The nudged colour; if the colour engine cannot evaluate the mix, the
/// colour stays as it was.
pub open spec fn spec_mutated(c: Rgba8, t: MixTarget, amount: int) -> Rgba8 {
    match css_rgba_of(mix_css_text(c, t, amount)) {
        Some(v) => Rgba8 { r: v.0, g: v.1, b: v.2, a: v.3 },
        None => c,
    }
}

fn build_rgb_text(out: Vec<u8>, c: Rgba8) -> (r: Vec<u8>)
    ensures
        bytes_chars(r@) == bytes_chars(out@) + rgb_css_text(c),
{
    proof {
        reveal_strlit("rgb(");
        reveal_strlit(" ");
        reveal_strlit(" / ");
        reveal_strlit("%)");
    }
    let mut acc = out;
    acc = push_lit(acc, "rgb(");
    acc = push_milli(acc, c.r as i64 * 1000);
    acc = push_lit(acc, " ");
    acc = push_milli(acc, c.g as i64 * 1000);
    acc = push_lit(acc, " ");
    acc = push_milli(acc, c.b as i64 * 1000);
    acc = push_lit(acc, " / ");
    acc = push_milli(acc, (c.a as i64 * 100000) / 255);
    acc = push_lit(acc, "%)");
    acc
}

/// Nudges a colour toward a target in linear sRGB, through the CSS
/// colour engine's `color-mix` evaluation.
pub fn mutate(c: Rgba8, t: &MixTarget, amount: i64) -> (r: Rgba8)
    ensures
        r == spec_mutated(c, *t, amount as int),
{
    proof {
        reveal_strlit("color-mix(in srgb-linear,");
        reveal_strlit(" ");
        reveal_strlit("%,");
        reveal_strlit("%)");
        reveal_strlit("color(srgb-linear 1 1 1)");
        reveal_strlit("color(srgb-linear 0 0 0)");
        reveal_strlit("color(srgb-linear 0.5 0.5 0.5)");
    }
    let am: i64 = if amount < 0 {
        0
    } else if amount > 1000 {
        1000
    } else {
        amount
    };
    let mut text: Vec<u8> = Vec::new();
    proof {
        assert(bytes_chars(text@) =~= Seq::<char>::empty());
        assert(Seq::<char>::empty() + "color-mix(in srgb-linear,"@ =~= "color-mix(in srgb-linear,"@);
    }
    text = push_lit(text, "color-mix(in srgb-linear,");
    text = build_rgb_text(text, c);
    text = push_lit(text, " ");
    text = push_milli(text, (1000 - am) * 100);
    text = push_lit(text, "%,");
    match t {
        MixTarget::White => {
            text = push_lit(text, "color(srgb-linear 1 1 1)");
        },
        MixTarget::Black => {
            text = push_lit(text, "color(srgb-linear 0 0 0)");
        },
        MixTarget::MidGray => {
            text = push_lit(text, "color(srgb-linear 0.5 0.5 0.5)");
        },
        MixTarget::Color(c2) => {
            text = build_rgb_text(text, *c2);
        },
    }
    text = push_lit(text, " ");
    text = push_milli(text, am * 100);
    text = push_lit(text, "%)");
    match css_color_to_rgba(&text) {
        Some(v) => Rgba8 { r: v.0, g: v.1, b: v.2, a: v.3 },
        None => c,
    }
}

/// A direct RGBA literal converts to itself, in either mode.
pub proof fn lemma_convert_rgba_identity(c: Rgba8, dark: bool)
    ensures
        spec_convert(ColorSpec::Rgba(c), dark) == c,
{
}

} // verus!
