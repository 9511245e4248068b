//! Colour literals: the supported colour-space forms, hex and named
//! colours, and the parser that reads a literal colour from a
//! whitespace-free token sequence.
use vstd::prelude::*;

use crate::color::Rgba8;
use crate::color::bytes_chars;
use crate::color::clamp255;
use crate::color::name_eq;
use crate::token::TokenV;
use crate::token::toks_view;
use crate::token::Token;

verus! {

/// A parsed colour literal. Components are in thousandths of their CSS
/// unit (degrees for hues, the unit interval for fractions, the CSS axis
/// scale for the lab family).
#[derive(Debug)]
pub enum ColorSpec {
    Rgba(Rgba8),
    Lab { l: i64, a: i64, b: i64, alpha: i64 },
    Lch { l: i64, c: i64, h: i64, alpha: i64 },
    Oklab { l: i64, a: i64, b: i64, alpha: i64 },
    Oklch { l: i64, c: i64, h: i64, alpha: i64 },
    Srgb { r: i64, g: i64, b: i64, alpha: i64 },
    LinearSrgb { r: i64, g: i64, b: i64, alpha: i64 },
    Hsl { h: i64, s: i64, l: i64, alpha: i64 },
    Hwb { h: i64, w: i64, b: i64, alpha: i64 },
    /// `light-dark(c1, c2)`, resolved against the ambient mode later.
    LightDark(Box<ColorSpec>, Box<ColorSpec>),
    /// A `color()` form in a space the converter does not support.
    OtherSpace,
    /// `currentColor` and system colours, unsupported by design.
    Current,
}

// --- hex colours ---

pub open spec fn is_hex_digit(b: u8) -> bool {
    (48 <= b <= 57) || (97 <= b <= 102) || (65 <= b <= 70)
}

pub open spec fn hex_val(b: u8) -> int {
    if 48 <= b <= 57 {
        b - 48
    } else if 97 <= b <= 102 {
        b - 87
    } else if 65 <= b <= 70 {
        b - 55
    } else {
        0
    }
}

pub open spec fn all_hex(h: Seq<u8>) -> bool {
    forall|i: int| 0 <= i < h.len() ==> is_hex_digit(h[i])
}

/// The colour denoted by the digits of a hex literal: six or eight digits
/// give channel pairs, three or four are doubled.
pub open spec fn spec_hex_color(h: Seq<u8>) -> Option<Rgba8> {
    if !all_hex(h) {
        None
    } else if h.len() == 6 {
        Some(
            Rgba8 {
                r: (hex_val(h[0]) * 16 + hex_val(h[1])) as u8,
                g: (hex_val(h[2]) * 16 + hex_val(h[3])) as u8,
                b: (hex_val(h[4]) * 16 + hex_val(h[5])) as u8,
                a: 255,
            },
        )
    } else if h.len() == 8 {
        Some(
            Rgba8 {
                r: (hex_val(h[0]) * 16 + hex_val(h[1])) as u8,
                g: (hex_val(h[2]) * 16 + hex_val(h[3])) as u8,
                b: (hex_val(h[4]) * 16 + hex_val(h[5])) as u8,
                a: (hex_val(h[6]) * 16 + hex_val(h[7])) as u8,
            },
        )
    } else if h.len() == 3 {
        Some(
            Rgba8 {
                r: (hex_val(h[0]) * 17) as u8,
                g: (hex_val(h[1]) * 17) as u8,
                b: (hex_val(h[2]) * 17) as u8,
                a: 255,
            },
        )
    } else if h.len() == 4 {
        Some(
            Rgba8 {
                r: (hex_val(h[0]) * 17) as u8,
                g: (hex_val(h[1]) * 17) as u8,
                b: (hex_val(h[2]) * 17) as u8,
                a: (hex_val(h[3]) * 17) as u8,
            },
        )
    } else {
        None
    }
}

fn hex_digit_val(b: u8) -> (r: Option<u8>)
    ensures
        match r {
            Some(v) => is_hex_digit(b) && v == hex_val(b),
            None => !is_hex_digit(b),
        },
{
    if 48 <= b && b <= 57 {
        Some(b - 48)
    } else if 97 <= b && b <= 102 {
        Some(b - 87)
    } else if 65 <= b && b <= 70 {
        Some(b - 55)
    } else {
        None
    }
}

pub fn hex_color(h: &Vec<u8>) -> (r: Option<Rgba8>)
    ensures
        r == spec_hex_color(h@),
{
    let n = h.len();
    if n != 3 && n != 4 && n != 6 && n != 8 {
        proof {
            if all_hex(h@) {
            }
        }
        return None;
    }
    let mut vals: Vec<u8> = Vec::new();
    let mut i: usize = 0;
    while i < n
        invariant
            i <= n,
            n == h@.len(),
            vals@.len() == i,
            all_hex(h@.subrange(0, i as int)),
            forall|k: int| 0 <= k < i ==> vals@[k] == hex_val(h@[k]) && 0 <= vals@[k] < 16,
        decreases n - i,
    {
        match hex_digit_val(h[i]) {
            Some(v) => {
                vals.push(v);
                proof {
                    assert(all_hex(h@.subrange(0, i + 1)));
                }
            },
            None => {
                proof {
                    assert(!is_hex_digit(h@[i as int]));
                    assert(!all_hex(h@));
                }
                return None;
            },
        }
        i += 1;
    }
    proof {
        assert(h@.subrange(0, n as int) =~= h@);
        assert(all_hex(h@));
    }
    if n == 6 {
        Some(
            Rgba8 {
                r: vals[0] * 16 + vals[1],
                g: vals[2] * 16 + vals[3],
                b: vals[4] * 16 + vals[5],
                a: 255,
            },
        )
    } else if n == 8 {
        Some(
            Rgba8 {
                r: vals[0] * 16 + vals[1],
                g: vals[2] * 16 + vals[3],
                b: vals[4] * 16 + vals[5],
                a: vals[6] * 16 + vals[7],
            },
        )
    } else if n == 3 {
        Some(Rgba8 { r: vals[0] * 17, g: vals[1] * 17, b: vals[2] * 17, a: 255 })
    } else {
        Some(Rgba8 { r: vals[0] * 17, g: vals[1] * 17, b: vals[2] * 17, a: vals[3] * 17 })
    }
}

// --- rgb() channel conversions ---

/// A channel given as a plain number (0..255, possibly fractional, in
/// thousandths): rounded to the nearest byte and clamped.
pub open spec fn byte_of_num(v: int) -> u8 {
    clamp255((v + 500) / 1000)
}

/// A channel given as a fraction in thousandths (a percentage or an alpha
/// value): scaled to 0..255, rounded and clamped.
pub open spec fn byte_of_frac(p: int) -> u8 {
    clamp255((p * 255 + 500) / 1000)
}

pub fn byte_from_num(v: i64) -> (r: u8)
    ensures
        r == byte_of_num(v as int),
{
    if v < 0 {
        proof {
            vstd::arithmetic::div_mod::lemma_div_is_ordered(v as int + 500, 500, 1000);
        }
        0
    } else if v >= 255500 {
        proof {
            vstd::arithmetic::div_mod::lemma_div_is_ordered(256000int, v as int + 500, 1000);
        }
        255
    } else {
        let q = (v + 500) / 1000;
        proof {
            vstd::arithmetic::div_mod::lemma_div_is_ordered(0int, v as int + 500, 1000);
            vstd::arithmetic::div_mod::lemma_div_is_ordered(v as int + 500, 255999, 1000);
            vstd::arithmetic::div_mod::lemma_fundamental_div_mod(v as int + 500, 1000);
        }
        q as u8
    }
}

pub fn byte_from_frac(p: i64) -> (r: u8)
    ensures
        r == byte_of_frac(p as int),
{
    if p <= 0 {
        proof {
            assert(p as int * 255 <= 0) by (nonlinear_arith)
                requires
                    p as int <= 0,
            ;
            vstd::arithmetic::div_mod::lemma_div_is_ordered(p as int * 255 + 500, 500, 1000);
        }
        0
    } else if p >= 1000 {
        proof {
            assert(p as int * 255 >= 255000) by (nonlinear_arith)
                requires
                    p as int >= 1000,
            ;
            vstd::arithmetic::div_mod::lemma_div_is_ordered(255500int, p as int * 255 + 500, 1000);
        }
        255
    } else {
        let q = (p * 255 + 500) / 1000;
        proof {
            vstd::arithmetic::div_mod::lemma_div_is_ordered(0int, p as int * 255 + 500, 1000);
            vstd::arithmetic::div_mod::lemma_div_is_ordered(p as int * 255 + 500, 255500 - 255, 1000);
        }
        q as u8
    }
}

// --- parsing colour literals from tokens ---

/// Numeric arguments are capped to a generous range before they are
/// stored, so that every component of a `ColorSpec` is a bounded integer.
pub open spec fn clamp_arg(v: int) -> int {
    if v < -10000000 {
        -10000000
    } else if v > 10000000 {
        10000000
    } else {
        v
    }
}

/// Skips one argument separator (a comma, or the `/` before an alpha).
pub open spec fn skip_sep(ts: Seq<TokenV>, i: int) -> int {
    if 0 <= i < ts.len() && (ts[i] is Comma || ts[i] == TokenV::Delim(47)) {
        i + 1
    } else {
        i
    }
}

/// Reads one numeric argument: a number or a percentage.
pub open spec fn get_num(ts: Seq<TokenV>, i: int) -> Option<(bool, int, int)> {
    if 0 <= i < ts.len() {
        match ts[i] {
            TokenV::Number(v) => Some((false, v, i + 1)),
            TokenV::Percentage(v) => Some((true, v, i + 1)),
            _ => None,
        }
    } else {
        None
    }
}

/// Reads an angle: a plain number or a `deg` dimension, in thousandths of
/// a degree.
pub open spec fn get_angle(ts: Seq<TokenV>, i: int) -> Option<(int, int)> {
    if 0 <= i < ts.len() {
        match ts[i] {
            TokenV::Number(v) => Some((clamp_arg(v), i + 1)),
            TokenV::Dimension(v, u) => if bytes_chars(u) == "deg"@ {
                Some((clamp_arg(v), i + 1))
            } else {
                None
            },
            _ => None,
        }
    } else {
        None
    }
}

pub open spec fn get_pct(ts: Seq<TokenV>, i: int) -> Option<(int, int)> {
    if 0 <= i < ts.len() && (ts[i] is Percentage) {
        Some((clamp_arg(ts[i]->Percentage_0), i + 1))
    } else {
        None
    }
}

pub open spec fn get_plain(ts: Seq<TokenV>, i: int) -> Option<(int, int)> {
    if 0 <= i < ts.len() && (ts[i] is Number) {
        Some((clamp_arg(ts[i]->Number_0), i + 1))
    } else {
        None
    }
}

/// A lightness for the lab family: a number, or a percentage scaled by
/// the axis bound (100 for `lab()`/`lch()`, 1 for the ok variants).
pub open spec fn get_lightness(ts: Seq<TokenV>, i: int, scale: int) -> Option<(int, int)> {
    if 0 <= i < ts.len() {
        match ts[i] {
            TokenV::Number(v) => Some((clamp_arg(v), i + 1)),
            TokenV::Percentage(v) => Some((clamp_arg(v) * scale, i + 1)),
            _ => None,
        }
    } else {
        None
    }
}

pub open spec fn chan_byte(is_pct: bool, v: int) -> u8 {
    if is_pct {
        byte_of_frac(v)
    } else {
        byte_of_num(v)
    }
}

/// The optional ` / alpha)` tail of a colour function: either a closing
/// parenthesis, or one more numeric argument before it. The alpha is a
/// fraction in thousandths, 1000 when absent.
pub open spec fn get_alpha_tail(ts: Seq<TokenV>, i: int) -> Option<(int, int)> {
    let j = skip_sep(ts, i);
    if 0 <= j < ts.len() && ts[j] is RParen {
        Some((1000, j + 1))
    } else {
        match get_num(ts, j) {
            None => None,
            Some((p, v, j2)) => if 0 <= j2 < ts.len() && ts[j2] is RParen {
                Some((clamp_arg(v), j2 + 1))
            } else {
                None
            },
        }
    }
}

/// First `)` at or after `i`; the argument lists this is used for carry
/// no nested parentheses.
pub open spec fn rparen_end(ts: Seq<TokenV>, i: int) -> Option<int>
    decreases ts.len() - i when 0 <= i
{
    if 0 <= i && i < ts.len() {
        if ts[i] is RParen {
            Some(i + 1)
        } else {
            rparen_end(ts, i + 1)
        }
    } else {
        None
    }
}

pub proof fn lemma_rparen_end(ts: Seq<TokenV>, i: int)
    requires
        0 <= i <= ts.len(),
    ensures
        match rparen_end(ts, i) {
            Some(j) => i < j <= ts.len(),
            None => true,
        },
    decreases ts.len() - i,
{
    if 0 <= i && i < ts.len() && !(ts[i] is RParen) {
        lemma_rparen_end(ts, i + 1);
    }
}

/// Reads the argument list of a colour function other than
/// `light-dark()`, the cursor standing on the first argument; `name` is
/// the function's name. Returns the colour and the position past `)`.
#[verifier::opaque]
pub open spec fn parse_fn_color(name: Seq<u8>, ts: Seq<TokenV>, i: int) -> Option<(ColorSpec, int)> {
    let nm = bytes_chars(name);
    if nm == "rgb"@ || nm == "rgba"@ {
        match get_num(ts, i) {
            None => None,
            Some((p1, v1, i1)) => match get_num(ts, skip_sep(ts, i1)) {
                None => None,
                Some((p2, v2, i2)) => match get_num(ts, skip_sep(ts, i2)) {
                    None => None,
                    Some((p3, v3, i3)) => match get_alpha_tail(ts, i3) {
                        None => None,
                        Some((al, k)) => Some(
                            (
                                ColorSpec::Rgba(
                                    Rgba8 {
                                        r: chan_byte(p1, v1),
                                        g: chan_byte(p2, v2),
                                        b: chan_byte(p3, v3),
                                        a: byte_of_frac(al),
                                    },
                                ),
                                k,
                            ),
                        ),
                    },
                },
            },
        }
    } else if nm == "hsl"@ || nm == "hsla"@ || nm == "hwb"@ {
        match get_angle(ts, i) {
            None => None,
            Some((h, i1)) => match get_pct(ts, skip_sep(ts, i1)) {
                None => None,
                Some((s, i2)) => match get_pct(ts, skip_sep(ts, i2)) {
                    None => None,
                    Some((l, i3)) => match get_alpha_tail(ts, i3) {
                        None => None,
                        Some((al, k)) => Some(
                            (
                                if nm == "hwb"@ {
                                    ColorSpec::Hwb { h: h as i64, w: s as i64, b: l as i64, alpha: al as i64 }
                                } else {
                                    ColorSpec::Hsl { h: h as i64, s: s as i64, l: l as i64, alpha: al as i64 }
                                },
                                k,
                            ),
                        ),
                    },
                },
            },
        }
    } else if nm == "lab"@ || nm == "oklab"@ {
        let scale: int = if nm == "lab"@ {
            100
        } else {
            1
        };
        match get_lightness(ts, i, scale) {
            None => None,
            Some((l, i1)) => match get_plain(ts, skip_sep(ts, i1)) {
                None => None,
                Some((a, i2)) => match get_plain(ts, skip_sep(ts, i2)) {
                    None => None,
                    Some((b, i3)) => match get_alpha_tail(ts, i3) {
                        None => None,
                        Some((al, k)) => Some(
                            (
                                if nm == "lab"@ {
                                    ColorSpec::Lab { l: l as i64, a: a as i64, b: b as i64, alpha: al as i64 }
                                } else {
                                    ColorSpec::Oklab { l: l as i64, a: a as i64, b: b as i64, alpha: al as i64 }
                                },
                                k,
                            ),
                        ),
                    },
                },
            },
        }
    } else if nm == "lch"@ || nm == "oklch"@ {
        let scale: int = if nm == "lch"@ {
            100
        } else {
            1
        };
        match get_lightness(ts, i, scale) {
            None => None,
            Some((l, i1)) => match get_plain(ts, skip_sep(ts, i1)) {
                None => None,
                Some((c, i2)) => match get_angle(ts, skip_sep(ts, i2)) {
                    None => None,
                    Some((h, i3)) => match get_alpha_tail(ts, i3) {
                        None => None,
                        Some((al, k)) => Some(
                            (
                                if nm == "lch"@ {
                                    ColorSpec::Lch { l: l as i64, c: c as i64, h: h as i64, alpha: al as i64 }
                                } else {
                                    ColorSpec::Oklch { l: l as i64, c: c as i64, h: h as i64, alpha: al as i64 }
                                },
                                k,
                            ),
                        ),
                    },
                },
            },
        }
    } else if nm == "color"@ {
        if 0 <= i < ts.len() && ts[i] is Ident {
            let space = bytes_chars(ts[i]->Ident_0);
            if space == "srgb"@ || space == "srgb-linear"@ {
                match get_num(ts, i + 1) {
                    None => None,
                    Some((p1, r, i1)) => match get_num(ts, skip_sep(ts, i1)) {
                        None => None,
                        Some((p2, g, i2)) => match get_num(ts, skip_sep(ts, i2)) {
                            None => None,
                            Some((p3, b, i3)) => match get_alpha_tail(ts, i3) {
                                None => None,
                                Some((al, k)) => Some(
                                    (
                                        if space == "srgb"@ {
                                            ColorSpec::Srgb { r: clamp_arg(r) as i64, g: clamp_arg(g) as i64, b: clamp_arg(b) as i64, alpha: al as i64 }
                                        } else {
                                            ColorSpec::LinearSrgb { r: clamp_arg(r) as i64, g: clamp_arg(g) as i64, b: clamp_arg(b) as i64, alpha: al as i64 }
                                        },
                                        k,
                                    ),
                                ),
                            },
                        },
                    },
                }
            } else {
                match rparen_end(ts, i + 1) {
                    None => None,
                    Some(k) => Some((ColorSpec::OtherSpace, k)),
                }
            }
        } else {
            None
        }
    } else {
        None
    }
}

/// Reads a colour literal at `i`. `light-dark()` is read only at the top
/// level; its two arguments are plain colour literals.
pub open spec fn parse_color_at(ts: Seq<TokenV>, i: int, allow_ld: bool) -> Option<(ColorSpec, int)>
    decreases (if allow_ld { 1int } else { 0int })
{
    if !(0 <= i < ts.len()) {
        None
    } else {
        match ts[i] {
            TokenV::Hash(h) => match spec_hex_color(h) {
                Some(c) => Some((ColorSpec::Rgba(c), i + 1)),
                None => None,
            },
            TokenV::Ident(n) => {
                let nm = bytes_chars(n);
                match spec_named(nm) {
                    Some(c) => Some((ColorSpec::Rgba(c), i + 1)),
                    None => if nm == "currentcolor"@ || nm == "currentColor"@ {
                        Some((ColorSpec::Current, i + 1))
                    } else {
                        None
                    },
                }
            },
            TokenV::Function(name) => {
                if allow_ld && bytes_chars(name) == "light-dark"@ {
                    match parse_color_at(ts, i + 1, false) {
                        None => None,
                        Some((c1, j)) => match parse_color_at(ts, skip_sep(ts, j), false) {
                            None => None,
                            Some((c2, k)) => if 0 <= k < ts.len() && ts[k] is RParen {
                                Some((ColorSpec::LightDark(Box::new(c1), Box::new(c2)), k + 1))
                            } else {
                                None
                            },
                        },
                    }
                } else {
                    parse_fn_color(name, ts, i + 1)
                }
            },
            _ => None,
        }
    }
}

/// The colour literal denoted by a whole value token sequence, which must
/// be exactly one literal.
pub open spec fn spec_color_value(ts: Seq<TokenV>) -> Option<ColorSpec> {
    match parse_color_at(ts, 0, true) {
        Some((c, k)) => if k == ts.len() {
            Some(c)
        } else {
            None
        },
        None => None,
    }
}

// --- executable colour-literal parser ---

/// The argument cap, shared with the evaluator.
pub fn e_clamp_pub(v: i64) -> (r: i64)
    ensures
        r as int == clamp_arg(v as int),
{
    e_clamp(v)
}

fn e_clamp(v: i64) -> (r: i64)
    ensures
        r as int == clamp_arg(v as int),
{
    if v < -10000000 {
        -10000000
    } else if v > 10000000 {
        10000000
    } else {
        v
    }
}

pub fn e_skip_sep(ts: &Vec<Token>, i: usize) -> (j: usize)
    requires
        i <= ts@.len(),
    ensures
        j as int == skip_sep(toks_view(ts@), i as int),
        i <= j <= ts@.len(),
{
    proof {
        assert(toks_view(ts@).len() == ts@.len());
        if (i as int) < ts@.len() {
            assert(toks_view(ts@)[i as int] == ts@[i as int]@);
        }
    }
    if i < ts.len() {
        let sep = match &ts[i] {
            Token::Comma => true,
            Token::Delim(b) => *b == 47,
            _ => false,
        };
        if sep {
            i + 1
        } else {
            i
        }
    } else {
        i
    }
}

fn e_get_num(ts: &Vec<Token>, i: usize) -> (r: Option<(bool, i64, usize)>)
    requires
        i <= ts@.len(),
    ensures
        match r {
            Some((p, v, j)) => get_num(toks_view(ts@), i as int) == Some((p, v as int, j as int))
                && i < j <= ts@.len(),
            None => get_num(toks_view(ts@), i as int) is None,
        },
{
    proof {
        assert(toks_view(ts@).len() == ts@.len());
        if (i as int) < ts@.len() {
            assert(toks_view(ts@)[i as int] == ts@[i as int]@);
        }
    }
    if i < ts.len() {
        match &ts[i] {
            Token::Number(v) => Some((false, *v, i + 1)),
            Token::Percentage(v) => Some((true, *v, i + 1)),
            _ => None,
        }
    } else {
        None
    }
}

fn e_get_angle(ts: &Vec<Token>, i: usize) -> (r: Option<(i64, usize)>)
    requires
        i <= ts@.len(),
    ensures
        match r {
            Some((v, j)) => get_angle(toks_view(ts@), i as int) == Some((v as int, j as int)) && i
                < j <= ts@.len(),
            None => get_angle(toks_view(ts@), i as int) is None,
        },
{
    proof {
        assert(toks_view(ts@).len() == ts@.len());
        if (i as int) < ts@.len() {
            assert(toks_view(ts@)[i as int] == ts@[i as int]@);
        }
    }
    if i < ts.len() {
        match &ts[i] {
            Token::Number(v) => Some((e_clamp(*v), i + 1)),
            Token::Dimension(v, u) => {
                if name_eq(u, "deg") {
                    Some((e_clamp(*v), i + 1))
                } else {
                    None
                }
            },
            _ => None,
        }
    } else {
        None
    }
}

fn e_get_pct(ts: &Vec<Token>, i: usize) -> (r: Option<(i64, usize)>)
    requires
        i <= ts@.len(),
    ensures
        match r {
            Some((v, j)) => get_pct(toks_view(ts@), i as int) == Some((v as int, j as int)) && i < j
                <= ts@.len(),
            None => get_pct(toks_view(ts@), i as int) is None,
        },
{
    proof {
        assert(toks_view(ts@).len() == ts@.len());
        if (i as int) < ts@.len() {
            assert(toks_view(ts@)[i as int] == ts@[i as int]@);
        }
    }
    if i < ts.len() {
        match &ts[i] {
            Token::Percentage(v) => Some((e_clamp(*v), i + 1)),
            _ => None,
        }
    } else {
        None
    }
}

fn e_get_plain(ts: &Vec<Token>, i: usize) -> (r: Option<(i64, usize)>)
    requires
        i <= ts@.len(),
    ensures
        match r {
            Some((v, j)) => get_plain(toks_view(ts@), i as int) == Some((v as int, j as int)) && i
                < j <= ts@.len(),
            None => get_plain(toks_view(ts@), i as int) is None,
        },
{
    proof {
        assert(toks_view(ts@).len() == ts@.len());
        if (i as int) < ts@.len() {
            assert(toks_view(ts@)[i as int] == ts@[i as int]@);
        }
    }
    if i < ts.len() {
        match &ts[i] {
            Token::Number(v) => Some((e_clamp(*v), i + 1)),
            _ => None,
        }
    } else {
        None
    }
}

fn e_get_lightness(ts: &Vec<Token>, i: usize, scale: i64) -> (r: Option<(i64, usize)>)
    requires
        i <= ts@.len(),
        scale == 1 || scale == 100,
    ensures
        match r {
            Some((v, j)) => get_lightness(toks_view(ts@), i as int, scale as int) == Some(
                (v as int, j as int),
            ) && i < j <= ts@.len(),
            None => get_lightness(toks_view(ts@), i as int, scale as int) is None,
        },
{
    proof {
        assert(toks_view(ts@).len() == ts@.len());
        if (i as int) < ts@.len() {
            assert(toks_view(ts@)[i as int] == ts@[i as int]@);
        }
    }
    if i < ts.len() {
        match &ts[i] {
            Token::Number(v) => Some((e_clamp(*v), i + 1)),
            Token::Percentage(v) => Some((e_clamp(*v) * scale, i + 1)),
            _ => None,
        }
    } else {
        None
    }
}

fn e_get_alpha_tail(ts: &Vec<Token>, i: usize) -> (r: Option<(i64, usize)>)
    requires
        i <= ts@.len(),
    ensures
        match r {
            Some((v, j)) => get_alpha_tail(toks_view(ts@), i as int) == Some((v as int, j as int))
                && i < j <= ts@.len(),
            None => get_alpha_tail(toks_view(ts@), i as int) is None,
        },
{
    let j = e_skip_sep(ts, i);
    proof {
        assert(toks_view(ts@).len() == ts@.len());
        if (j as int) < ts@.len() {
            assert(toks_view(ts@)[j as int] == ts@[j as int]@);
        }
    }
    if j < ts.len() {
        let rp = match &ts[j] {
            Token::RParen => true,
            _ => false,
        };
        if rp {
            return Some((1000, j + 1));
        }
    }
    match e_get_num(ts, j) {
        None => None,
        Some((p, v, j2)) => {
            proof {
                if (j2 as int) < ts@.len() {
                    assert(toks_view(ts@)[j2 as int] == ts@[j2 as int]@);
                }
            }
            if j2 < ts.len() {
                let rp = match &ts[j2] {
                    Token::RParen => true,
                    _ => false,
                };
                if rp {
                    Some((e_clamp(v), j2 + 1))
                } else {
                    None
                }
            } else {
                None
            }
        },
    }
}

fn e_rparen_end(ts: &Vec<Token>, i: usize) -> (r: Option<usize>)
    requires
        i <= ts@.len(),
    ensures
        match r {
            Some(j) => rparen_end(toks_view(ts@), i as int) == Some(j as int) && i < j <= ts@.len(),
            None => rparen_end(toks_view(ts@), i as int) is None,
        },
{
    proof {
        assert(toks_view(ts@).len() == ts@.len());
    }
    let mut k = i;
    while k < ts.len()
        invariant
            i <= k <= ts@.len(),
            toks_view(ts@).len() == ts@.len(),
            rparen_end(toks_view(ts@), i as int) == rparen_end(toks_view(ts@), k as int),
            forall|x: int| 0 <= x < ts@.len() ==> toks_view(ts@)[x] == ts@[x]@,
        decreases ts@.len() - k,
    {
        let rp = match &ts[k] {
            Token::RParen => true,
            _ => false,
        };
        if rp {
            return Some(k + 1);
        }
        k += 1;
    }
    None
}

fn e_parse_fn_color(name: &Vec<u8>, ts: &Vec<Token>, i: usize) -> (r: Option<(ColorSpec, usize)>)
    requires
        i <= ts@.len(),
    ensures
        match r {
            Some((c, j)) => parse_fn_color(name@, toks_view(ts@), i as int) == Some(
                (c, j as int),
            ) && j <= ts@.len(),
            None => parse_fn_color(name@, toks_view(ts@), i as int) is None,
        },
{
    proof {
        reveal(parse_fn_color);
    }
    if name_eq(name, "rgb") || name_eq(name, "rgba") {
        match e_get_num(ts, i) {
            None => None,
            Some((p1, v1, i1)) => {
                let s1 = e_skip_sep(ts, i1);
                match e_get_num(ts, s1) {
                    None => None,
                    Some((p2, v2, i2)) => {
                        let s2 = e_skip_sep(ts, i2);
                        match e_get_num(ts, s2) {
                            None => None,
                            Some((p3, v3, i3)) => match e_get_alpha_tail(ts, i3) {
                                None => None,
                                Some((al, k)) => {
                                    let rr = if p1 {
                                        byte_from_frac(v1)
                                    } else {
                                        byte_from_num(v1)
                                    };
                                    let gg = if p2 {
                                        byte_from_frac(v2)
                                    } else {
                                        byte_from_num(v2)
                                    };
                                    let bb = if p3 {
                                        byte_from_frac(v3)
                                    } else {
                                        byte_from_num(v3)
                                    };
                                    Some(
                                        (
                                            ColorSpec::Rgba(
                                                Rgba8 { r: rr, g: gg, b: bb, a: byte_from_frac(al) },
                                            ),
                                            k,
                                        ),
                                    )
                                },
                            },
                        }
                    },
                }
            },
        }
    } else if name_eq(name, "hsl") || name_eq(name, "hsla") || name_eq(name, "hwb") {
        match e_get_angle(ts, i) {
            None => None,
            Some((h, i1)) => {
                let s1 = e_skip_sep(ts, i1);
                match e_get_pct(ts, s1) {
                    None => None,
                    Some((s, i2)) => {
                        let s2 = e_skip_sep(ts, i2);
                        match e_get_pct(ts, s2) {
                            None => None,
                            Some((l, i3)) => match e_get_alpha_tail(ts, i3) {
                                None => None,
                                Some((al, k)) => {
                                    if name_eq(name, "hwb") {
                                        Some((ColorSpec::Hwb { h, w: s, b: l, alpha: al }, k))
                                    } else {
                                        Some((ColorSpec::Hsl { h, s, l, alpha: al }, k))
                                    }
                                },
                            },
                        }
                    },
                }
            },
        }
    } else if name_eq(name, "lab") || name_eq(name, "oklab") {
        let scale: i64 = if name_eq(name, "lab") {
            100
        } else {
            1
        };
        match e_get_lightness(ts, i, scale) {
            None => None,
            Some((l, i1)) => {
                let s1 = e_skip_sep(ts, i1);
                match e_get_plain(ts, s1) {
                    None => None,
                    Some((a, i2)) => {
                        let s2 = e_skip_sep(ts, i2);
                        match e_get_plain(ts, s2) {
                            None => None,
                            Some((b, i3)) => match e_get_alpha_tail(ts, i3) {
                                None => None,
                                Some((al, k)) => {
                                    if name_eq(name, "lab") {
                                        Some((ColorSpec::Lab { l, a, b, alpha: al }, k))
                                    } else {
                                        Some((ColorSpec::Oklab { l, a, b, alpha: al }, k))
                                    }
                                },
                            },
                        }
                    },
                }
            },
        }
    } else if name_eq(name, "lch") || name_eq(name, "oklch") {
        let scale: i64 = if name_eq(name, "lch") {
            100
        } else {
            1
        };
        match e_get_lightness(ts, i, scale) {
            None => None,
            Some((l, i1)) => {
                let s1 = e_skip_sep(ts, i1);
                match e_get_plain(ts, s1) {
                    None => None,
                    Some((c, i2)) => {
                        let s2 = e_skip_sep(ts, i2);
                        match e_get_angle(ts, s2) {
                            None => None,
                            Some((h, i3)) => match e_get_alpha_tail(ts, i3) {
                                None => None,
                                Some((al, k)) => {
                                    if name_eq(name, "lch") {
                                        Some((ColorSpec::Lch { l, c, h, alpha: al }, k))
                                    } else {
                                        Some((ColorSpec::Oklch { l, c, h, alpha: al }, k))
                                    }
                                },
                            },
                        }
                    },
                }
            },
        }
    } else if name_eq(name, "color") {
        proof {
            assert(toks_view(ts@).len() == ts@.len());
            if (i as int) < ts@.len() {
                assert(toks_view(ts@)[i as int] == ts@[i as int]@);
            }
        }
        if i < ts.len() {
            let space_kind: u8 = match &ts[i] {
                Token::Ident(sp) => {
                    if name_eq(sp, "srgb") {
                        1
                    } else if name_eq(sp, "srgb-linear") {
                        2
                    } else {
                        3
                    }
                },
                _ => 0,
            };
            if space_kind == 0 {
                None
            } else if space_kind == 3 {
                match e_rparen_end(ts, i + 1) {
                    None => None,
                    Some(k) => Some((ColorSpec::OtherSpace, k)),
                }
            } else {
                match e_get_num(ts, i + 1) {
                    None => None,
                    Some((p1, rr, i1)) => {
                        let s1 = e_skip_sep(ts, i1);
                        match e_get_num(ts, s1) {
                            None => None,
                            Some((p2, gg, i2)) => {
                                let s2 = e_skip_sep(ts, i2);
                                match e_get_num(ts, s2) {
                                    None => None,
                                    Some((p3, bb, i3)) => match e_get_alpha_tail(ts, i3) {
                                        None => None,
                                        Some((al, k)) => {
                                            let cr = e_clamp(rr);
                                            let cg = e_clamp(gg);
                                            let cb = e_clamp(bb);
                                            if space_kind == 1 {
                                                Some(
                                                    (
                                                        ColorSpec::Srgb {
                                                            r: cr,
                                                            g: cg,
                                                            b: cb,
                                                            alpha: al,
                                                        },
                                                        k,
                                                    ),
                                                )
                                            } else {
                                                Some(
                                                    (
                                                        ColorSpec::LinearSrgb {
                                                            r: cr,
                                                            g: cg,
                                                            b: cb,
                                                            alpha: al,
                                                        },
                                                        k,
                                                    ),
                                                )
                                            }
                                        },
                                    },
                                }
                            },
                        }
                    },
                }
            }
        } else {
            None
        }
    } else {
        None
    }
}

/// Reads one colour literal, `light-dark()` excluded.
fn e_parse_simple(ts: &Vec<Token>, i: usize) -> (r: Option<(ColorSpec, usize)>)
    requires
        i <= ts@.len(),
    ensures
        match r {
            Some((c, j)) => parse_color_at(toks_view(ts@), i as int, false) == Some(
                (c, j as int),
            ) && i < j <= ts@.len(),
            None => parse_color_at(toks_view(ts@), i as int, false) is None,
        },
{
    proof {
        assert(toks_view(ts@).len() == ts@.len());
        if (i as int) < ts@.len() {
            assert(toks_view(ts@)[i as int] == ts@[i as int]@);
        }
    }
    if i >= ts.len() {
        return None;
    }
    match &ts[i] {
        Token::Hash(h) => {
            match hex_color(h) {
                Some(c) => Some((ColorSpec::Rgba(c), i + 1)),
                None => None,
            }
        },
        Token::Ident(n) => {
            match named_color(n) {
                Some(c) => Some((ColorSpec::Rgba(c), i + 1)),
                None => {
                    if name_eq(n, "currentcolor") || name_eq(n, "currentColor") {
                        Some((ColorSpec::Current, i + 1))
                    } else {
                        None
                    }
                },
            }
        },
        Token::Function(name) => {
            match e_parse_fn_color(name, ts, i + 1) {
                Some((c, j)) => {
                    proof {
                        lemma_parse_fn_advance(name@, toks_view(ts@), i + 1);
                    }
                    Some((c, j))
                },
                None => None,
            }
        },
        _ => None,
    }
}

/// Reads one colour literal at `i`, `light-dark()` included.
pub fn parse_color_toks(ts: &Vec<Token>, i: usize) -> (r: Option<(ColorSpec, usize)>)
    requires
        i <= ts@.len(),
    ensures
        match r {
            Some((c, j)) => parse_color_at(toks_view(ts@), i as int, true) == Some(
                (c, j as int),
            ) && i < j <= ts@.len(),
            None => parse_color_at(toks_view(ts@), i as int, true) is None,
        },
{
    proof {
        assert(toks_view(ts@).len() == ts@.len());
        if (i as int) < ts@.len() {
            assert(toks_view(ts@)[i as int] == ts@[i as int]@);
        }
    }
    if i >= ts.len() {
        return None;
    }
    let is_ld = match &ts[i] {
        Token::Function(name) => name_eq(name, "light-dark"),
        _ => false,
    };
    if is_ld {
        match e_parse_simple(ts, i + 1) {
            None => None,
            Some((c1, j)) => {
                let j2 = e_skip_sep(ts, j);
                match e_parse_simple(ts, j2) {
                    None => None,
                    Some((c2, k)) => {
                        proof {
                            if (k as int) < ts@.len() {
                                assert(toks_view(ts@)[k as int] == ts@[k as int]@);
                            }
                        }
                        if k < ts.len() {
                            let rp = match &ts[k] {
                                Token::RParen => true,
                                _ => false,
                            };
                            if rp {
                                Some((ColorSpec::LightDark(Box::new(c1), Box::new(c2)), k + 1))
                            } else {
                                None
                            }
                        } else {
                            None
                        }
                    },
                }
            },
        }
    } else {
        match e_parse_simple(ts, i) {
            Some((c, j)) => Some((c, j)),
            None => None,
        }
    }
}

/// A whole value that is exactly one colour literal.
pub fn color_value(ts: &Vec<Token>) -> (r: Option<ColorSpec>)
    ensures
        r == spec_color_value(toks_view(ts@)),
{
    proof {
        assert(toks_view(ts@).len() == ts@.len());
    }
    match parse_color_toks(ts, 0) {
        Some((c, k)) => {
            if k == ts.len() {
                Some(c)
            } else {
                None
            }
        },
        None => None,
    }
}

/// Colour functions advance the cursor and stay inside the input.
#[verifier::rlimit(60)]
pub proof fn lemma_parse_fn_advance(name: Seq<u8>, ts: Seq<TokenV>, i: int)
    requires
        0 <= i <= ts.len(),
    ensures
        match parse_fn_color(name, ts, i) {
            Some((c, j)) => i < j <= ts.len(),
            None => true,
        },
{
    reveal(parse_fn_color);
    if i < ts.len() {
        lemma_rparen_end(ts, i + 1);
    }
}

/// Colour literals advance the cursor and stay inside the input.
#[verifier::rlimit(60)]
pub proof fn lemma_parse_color_advance(ts: Seq<TokenV>, i: int, allow_ld: bool)
    requires
        0 <= i <= ts.len(),
    ensures
        match parse_color_at(ts, i, allow_ld) {
            Some((c, j)) => i < j <= ts.len(),
            None => true,
        },
    decreases (if allow_ld { 1int } else { 0int }),
{
    if i < ts.len() {
        if ts[i] is Function {
            let name = ts[i]->Function_0;
            if allow_ld && crate::color::bytes_chars(name) == "light-dark"@ {
                lemma_parse_color_advance(ts, i + 1, false);
                if let Some((c1, j)) = parse_color_at(ts, i + 1, false) {
                    lemma_parse_color_advance(ts, skip_sep(ts, j), false);
                }
            } else {
                lemma_parse_fn_advance(name, ts, i + 1);
            }
        }
    }
}

/// The fixed keyword table the expression evaluator resolves plain
/// identifiers against. Its words and values are this crate's own palette
/// and are distinct from the CSS named colours.
pub open spec fn spec_word(n: Seq<char>) -> Option<Rgba8> {
    if n == "blank"@ {
        Some(Rgba8 { r: 0, g: 0, b: 0, a: 0 })
    } else if n == "black"@ {
        Some(Rgba8 { r: 0, g: 0, b: 0, a: 255 })
    } else if n == "dark_gray"@ {
        Some(Rgba8 { r: 96, g: 96, b: 96, a: 255 })
    } else if n == "gray"@ {
        Some(Rgba8 { r: 160, g: 160, b: 160, a: 255 })
    } else if n == "light_gray"@ {
        Some(Rgba8 { r: 220, g: 220, b: 220, a: 255 })
    } else if n == "white"@ {
        Some(Rgba8 { r: 255, g: 255, b: 255, a: 255 })
    } else if n == "brown"@ {
        Some(Rgba8 { r: 165, g: 42, b: 42, a: 255 })
    } else if n == "dark_red"@ {
        Some(Rgba8 { r: 139, g: 0, b: 0, a: 255 })
    } else if n == "red"@ {
        Some(Rgba8 { r: 255, g: 0, b: 0, a: 255 })
    } else if n == "light_red"@ {
        Some(Rgba8 { r: 255, g: 128, b: 128, a: 255 })
    } else if n == "yellow"@ {
        Some(Rgba8 { r: 255, g: 255, b: 0, a: 255 })
    } else if n == "light_yellow"@ {
        Some(Rgba8 { r: 255, g: 255, b: 224, a: 255 })
    } else if n == "dark_green"@ {
        Some(Rgba8 { r: 0, g: 100, b: 0, a: 255 })
    } else if n == "green"@ {
        Some(Rgba8 { r: 0, g: 255, b: 0, a: 255 })
    } else if n == "light_green"@ {
        Some(Rgba8 { r: 144, g: 238, b: 144, a: 255 })
    } else if n == "dark_blue"@ {
        Some(Rgba8 { r: 0, g: 0, b: 139, a: 255 })
    } else if n == "blue"@ {
        Some(Rgba8 { r: 0, g: 0, b: 255, a: 255 })
    } else if n == "light_blue"@ {
        Some(Rgba8 { r: 173, g: 216, b: 230, a: 255 })
    } else if n == "gold"@ {
        Some(Rgba8 { r: 255, g: 215, b: 0, a: 255 })
    } else {
        None
    }
}

pub fn word_color(n: &Vec<u8>) -> (r: Option<Rgba8>)
    ensures
        r == spec_word(bytes_chars(n@)),
{
    if name_eq(n, "blank") {
        Some(Rgba8 { r: 0, g: 0, b: 0, a: 0 })
    } else if name_eq(n, "black") {
        Some(Rgba8 { r: 0, g: 0, b: 0, a: 255 })
    } else if name_eq(n, "dark_gray") {
        Some(Rgba8 { r: 96, g: 96, b: 96, a: 255 })
    } else if name_eq(n, "gray") {
        Some(Rgba8 { r: 160, g: 160, b: 160, a: 255 })
    } else if name_eq(n, "light_gray") {
        Some(Rgba8 { r: 220, g: 220, b: 220, a: 255 })
    } else if name_eq(n, "white") {
        Some(Rgba8 { r: 255, g: 255, b: 255, a: 255 })
    } else if name_eq(n, "brown") {
        Some(Rgba8 { r: 165, g: 42, b: 42, a: 255 })
    } else if name_eq(n, "dark_red") {
        Some(Rgba8 { r: 139, g: 0, b: 0, a: 255 })
    } else if name_eq(n, "red") {
        Some(Rgba8 { r: 255, g: 0, b: 0, a: 255 })
    } else if name_eq(n, "light_red") {
        Some(Rgba8 { r: 255, g: 128, b: 128, a: 255 })
    } else if name_eq(n, "yellow") {
        Some(Rgba8 { r: 255, g: 255, b: 0, a: 255 })
    } else if name_eq(n, "light_yellow") {
        Some(Rgba8 { r: 255, g: 255, b: 224, a: 255 })
    } else if name_eq(n, "dark_green") {
        Some(Rgba8 { r: 0, g: 100, b: 0, a: 255 })
    } else if name_eq(n, "green") {
        Some(Rgba8 { r: 0, g: 255, b: 0, a: 255 })
    } else if name_eq(n, "light_green") {
        Some(Rgba8 { r: 144, g: 238, b: 144, a: 255 })
    } else if name_eq(n, "dark_blue") {
        Some(Rgba8 { r: 0, g: 0, b: 139, a: 255 })
    } else if name_eq(n, "blue") {
        Some(Rgba8 { r: 0, g: 0, b: 255, a: 255 })
    } else if name_eq(n, "light_blue") {
        Some(Rgba8 { r: 173, g: 216, b: 230, a: 255 })
    } else if name_eq(n, "gold") {
        Some(Rgba8 { r: 255, g: 215, b: 0, a: 255 })
    } else {
        None
    }
}

/// The CSS named colours, as the colour grammar recognizes them in
/// literal positions; `transparent` is the one name with zero alpha.
pub open spec fn spec_named(n: Seq<char>) -> Option<Rgba8> {
    if n == "transparent"@ {
        Some(Rgba8 { r: 0, g: 0, b: 0, a: 0 })
    } else if n == "black"@ {
        Some(Rgba8 { r: 0, g: 0, b: 0, a: 255 })
    } else if n == "silver"@ {
        Some(Rgba8 { r: 192, g: 192, b: 192, a: 255 })
    } else if n == "gray"@ {
        Some(Rgba8 { r: 128, g: 128, b: 128, a: 255 })
    } else if n == "white"@ {
        Some(Rgba8 { r: 255, g: 255, b: 255, a: 255 })
    } else if n == "maroon"@ {
        Some(Rgba8 { r: 128, g: 0, b: 0, a: 255 })
    } else if n == "red"@ {
        Some(Rgba8 { r: 255, g: 0, b: 0, a: 255 })
    } else if n == "purple"@ {
        Some(Rgba8 { r: 128, g: 0, b: 128, a: 255 })
    } else if n == "fuchsia"@ {
        Some(Rgba8 { r: 255, g: 0, b: 255, a: 255 })
    } else if n == "green"@ {
        Some(Rgba8 { r: 0, g: 128, b: 0, a: 255 })
    } else if n == "lime"@ {
        Some(Rgba8 { r: 0, g: 255, b: 0, a: 255 })
    } else if n == "olive"@ {
        Some(Rgba8 { r: 128, g: 128, b: 0, a: 255 })
    } else if n == "yellow"@ {
        Some(Rgba8 { r: 255, g: 255, b: 0, a: 255 })
    } else if n == "navy"@ {
        Some(Rgba8 { r: 0, g: 0, b: 128, a: 255 })
    } else if n == "blue"@ {
        Some(Rgba8 { r: 0, g: 0, b: 255, a: 255 })
    } else if n == "teal"@ {
        Some(Rgba8 { r: 0, g: 128, b: 128, a: 255 })
    } else if n == "aqua"@ {
        Some(Rgba8 { r: 0, g: 255, b: 255, a: 255 })
    } else if n == "aliceblue"@ {
        Some(Rgba8 { r: 240, g: 248, b: 255, a: 255 })
    } else if n == "antiquewhite"@ {
        Some(Rgba8 { r: 250, g: 235, b: 215, a: 255 })
    } else if n == "aquamarine"@ {
        Some(Rgba8 { r: 127, g: 255, b: 212, a: 255 })
    } else if n == "azure"@ {
        Some(Rgba8 { r: 240, g: 255, b: 255, a: 255 })
    } else if n == "beige"@ {
        Some(Rgba8 { r: 245, g: 245, b: 220, a: 255 })
    } else if n == "bisque"@ {
        Some(Rgba8 { r: 255, g: 228, b: 196, a: 255 })
    } else if n == "blanchedalmond"@ {
        Some(Rgba8 { r: 255, g: 235, b: 205, a: 255 })
    } else if n == "blueviolet"@ {
        Some(Rgba8 { r: 138, g: 43, b: 226, a: 255 })
    } else if n == "brown"@ {
        Some(Rgba8 { r: 165, g: 42, b: 42, a: 255 })
    } else if n == "burlywood"@ {
        Some(Rgba8 { r: 222, g: 184, b: 135, a: 255 })
    } else if n == "cadetblue"@ {
        Some(Rgba8 { r: 95, g: 158, b: 160, a: 255 })
    } else if n == "chartreuse"@ {
        Some(Rgba8 { r: 127, g: 255, b: 0, a: 255 })
    } else if n == "chocolate"@ {
        Some(Rgba8 { r: 210, g: 105, b: 30, a: 255 })
    } else if n == "coral"@ {
        Some(Rgba8 { r: 255, g: 127, b: 80, a: 255 })
    } else if n == "cornflowerblue"@ {
        Some(Rgba8 { r: 100, g: 149, b: 237, a: 255 })
    } else if n == "cornsilk"@ {
        Some(Rgba8 { r: 255, g: 248, b: 220, a: 255 })
    } else if n == "crimson"@ {
        Some(Rgba8 { r: 220, g: 20, b: 60, a: 255 })
    } else if n == "cyan"@ {
        Some(Rgba8 { r: 0, g: 255, b: 255, a: 255 })
    } else if n == "darkblue"@ {
        Some(Rgba8 { r: 0, g: 0, b: 139, a: 255 })
    } else if n == "darkcyan"@ {
        Some(Rgba8 { r: 0, g: 139, b: 139, a: 255 })
    } else if n == "darkgoldenrod"@ {
        Some(Rgba8 { r: 184, g: 134, b: 11, a: 255 })
    } else if n == "darkgray"@ {
        Some(Rgba8 { r: 169, g: 169, b: 169, a: 255 })
    } else if n == "darkgreen"@ {
        Some(Rgba8 { r: 0, g: 100, b: 0, a: 255 })
    } else if n == "darkgrey"@ {
        Some(Rgba8 { r: 169, g: 169, b: 169, a: 255 })
    } else if n == "darkkhaki"@ {
        Some(Rgba8 { r: 189, g: 183, b: 107, a: 255 })
    } else if n == "darkmagenta"@ {
        Some(Rgba8 { r: 139, g: 0, b: 139, a: 255 })
    } else if n == "darkolivegreen"@ {
        Some(Rgba8 { r: 85, g: 107, b: 47, a: 255 })
    } else if n == "darkorange"@ {
        Some(Rgba8 { r: 255, g: 140, b: 0, a: 255 })
    } else if n == "darkorchid"@ {
        Some(Rgba8 { r: 153, g: 50, b: 204, a: 255 })
    } else if n == "darkred"@ {
        Some(Rgba8 { r: 139, g: 0, b: 0, a: 255 })
    } else if n == "darksalmon"@ {
        Some(Rgba8 { r: 233, g: 150, b: 122, a: 255 })
    } else if n == "darkseagreen"@ {
        Some(Rgba8 { r: 143, g: 188, b: 143, a: 255 })
    } else if n == "darkslateblue"@ {
        Some(Rgba8 { r: 72, g: 61, b: 139, a: 255 })
    } else if n == "darkslategray"@ {
        Some(Rgba8 { r: 47, g: 79, b: 79, a: 255 })
    } else if n == "darkslategrey"@ {
        Some(Rgba8 { r: 47, g: 79, b: 79, a: 255 })
    } else if n == "darkturquoise"@ {
        Some(Rgba8 { r: 0, g: 206, b: 209, a: 255 })
    } else if n == "darkviolet"@ {
        Some(Rgba8 { r: 148, g: 0, b: 211, a: 255 })
    } else if n == "deeppink"@ {
        Some(Rgba8 { r: 255, g: 20, b: 147, a: 255 })
    } else if n == "deepskyblue"@ {
        Some(Rgba8 { r: 0, g: 191, b: 255, a: 255 })
    } else if n == "dimgray"@ {
        Some(Rgba8 { r: 105, g: 105, b: 105, a: 255 })
    } else if n == "dimgrey"@ {
        Some(Rgba8 { r: 105, g: 105, b: 105, a: 255 })
    } else if n == "dodgerblue"@ {
        Some(Rgba8 { r: 30, g: 144, b: 255, a: 255 })
    } else if n == "firebrick"@ {
        Some(Rgba8 { r: 178, g: 34, b: 34, a: 255 })
    } else if n == "floralwhite"@ {
        Some(Rgba8 { r: 255, g: 250, b: 240, a: 255 })
    } else if n == "forestgreen"@ {
        Some(Rgba8 { r: 34, g: 139, b: 34, a: 255 })
    } else if n == "gainsboro"@ {
        Some(Rgba8 { r: 220, g: 220, b: 220, a: 255 })
    } else if n == "ghostwhite"@ {
        Some(Rgba8 { r: 248, g: 248, b: 255, a: 255 })
    } else if n == "gold"@ {
        Some(Rgba8 { r: 255, g: 215, b: 0, a: 255 })
    } else if n == "goldenrod"@ {
        Some(Rgba8 { r: 218, g: 165, b: 32, a: 255 })
    } else if n == "greenyellow"@ {
        Some(Rgba8 { r: 173, g: 255, b: 47, a: 255 })
    } else if n == "grey"@ {
        Some(Rgba8 { r: 128, g: 128, b: 128, a: 255 })
    } else if n == "honeydew"@ {
        Some(Rgba8 { r: 240, g: 255, b: 240, a: 255 })
    } else if n == "hotpink"@ {
        Some(Rgba8 { r: 255, g: 105, b: 180, a: 255 })
    } else if n == "indianred"@ {
        Some(Rgba8 { r: 205, g: 92, b: 92, a: 255 })
    } else if n == "indigo"@ {
        Some(Rgba8 { r: 75, g: 0, b: 130, a: 255 })
    } else if n == "ivory"@ {
        Some(Rgba8 { r: 255, g: 255, b: 240, a: 255 })
    } else if n == "khaki"@ {
        Some(Rgba8 { r: 240, g: 230, b: 140, a: 255 })
    } else if n == "lavender"@ {
        Some(Rgba8 { r: 230, g: 230, b: 250, a: 255 })
    } else if n == "lavenderblush"@ {
        Some(Rgba8 { r: 255, g: 240, b: 245, a: 255 })
    } else if n == "lawngreen"@ {
        Some(Rgba8 { r: 124, g: 252, b: 0, a: 255 })
    } else if n == "lemonchiffon"@ {
        Some(Rgba8 { r: 255, g: 250, b: 205, a: 255 })
    } else if n == "lightblue"@ {
        Some(Rgba8 { r: 173, g: 216, b: 230, a: 255 })
    } else if n == "lightcoral"@ {
        Some(Rgba8 { r: 240, g: 128, b: 128, a: 255 })
    } else if n == "lightcyan"@ {
        Some(Rgba8 { r: 224, g: 255, b: 255, a: 255 })
    } else if n == "lightgoldenrodyellow"@ {
        Some(Rgba8 { r: 250, g: 250, b: 210, a: 255 })
    } else if n == "lightgray"@ {
        Some(Rgba8 { r: 211, g: 211, b: 211, a: 255 })
    } else if n == "lightgreen"@ {
        Some(Rgba8 { r: 144, g: 238, b: 144, a: 255 })
    } else if n == "lightgrey"@ {
        Some(Rgba8 { r: 211, g: 211, b: 211, a: 255 })
    } else if n == "lightpink"@ {
        Some(Rgba8 { r: 255, g: 182, b: 193, a: 255 })
    } else if n == "lightsalmon"@ {
        Some(Rgba8 { r: 255, g: 160, b: 122, a: 255 })
    } else if n == "lightseagreen"@ {
        Some(Rgba8 { r: 32, g: 178, b: 170, a: 255 })
    } else if n == "lightskyblue"@ {
        Some(Rgba8 { r: 135, g: 206, b: 250, a: 255 })
    } else if n == "lightslategray"@ {
        Some(Rgba8 { r: 119, g: 136, b: 153, a: 255 })
    } else if n == "lightslategrey"@ {
        Some(Rgba8 { r: 119, g: 136, b: 153, a: 255 })
    } else if n == "lightsteelblue"@ {
        Some(Rgba8 { r: 176, g: 196, b: 222, a: 255 })
    } else if n == "lightyellow"@ {
        Some(Rgba8 { r: 255, g: 255, b: 224, a: 255 })
    } else if n == "limegreen"@ {
        Some(Rgba8 { r: 50, g: 205, b: 50, a: 255 })
    } else if n == "linen"@ {
        Some(Rgba8 { r: 250, g: 240, b: 230, a: 255 })
    } else if n == "magenta"@ {
        Some(Rgba8 { r: 255, g: 0, b: 255, a: 255 })
    } else if n == "mediumaquamarine"@ {
        Some(Rgba8 { r: 102, g: 205, b: 170, a: 255 })
    } else if n == "mediumblue"@ {
        Some(Rgba8 { r: 0, g: 0, b: 205, a: 255 })
    } else if n == "mediumorchid"@ {
        Some(Rgba8 { r: 186, g: 85, b: 211, a: 255 })
    } else if n == "mediumpurple"@ {
        Some(Rgba8 { r: 147, g: 112, b: 219, a: 255 })
    } else if n == "mediumseagreen"@ {
        Some(Rgba8 { r: 60, g: 179, b: 113, a: 255 })
    } else if n == "mediumslateblue"@ {
        Some(Rgba8 { r: 123, g: 104, b: 238, a: 255 })
    } else if n == "mediumspringgreen"@ {
        Some(Rgba8 { r: 0, g: 250, b: 154, a: 255 })
    } else if n == "mediumturquoise"@ {
        Some(Rgba8 { r: 72, g: 209, b: 204, a: 255 })
    } else if n == "mediumvioletred"@ {
        Some(Rgba8 { r: 199, g: 21, b: 133, a: 255 })
    } else if n == "midnightblue"@ {
        Some(Rgba8 { r: 25, g: 25, b: 112, a: 255 })
    } else if n == "mintcream"@ {
        Some(Rgba8 { r: 245, g: 255, b: 250, a: 255 })
    } else if n == "mistyrose"@ {
        Some(Rgba8 { r: 255, g: 228, b: 225, a: 255 })
    } else if n == "moccasin"@ {
        Some(Rgba8 { r: 255, g: 228, b: 181, a: 255 })
    } else if n == "navajowhite"@ {
        Some(Rgba8 { r: 255, g: 222, b: 173, a: 255 })
    } else if n == "oldlace"@ {
        Some(Rgba8 { r: 253, g: 245, b: 230, a: 255 })
    } else if n == "olivedrab"@ {
        Some(Rgba8 { r: 107, g: 142, b: 35, a: 255 })
    } else if n == "orange"@ {
        Some(Rgba8 { r: 255, g: 165, b: 0, a: 255 })
    } else if n == "orangered"@ {
        Some(Rgba8 { r: 255, g: 69, b: 0, a: 255 })
    } else if n == "orchid"@ {
        Some(Rgba8 { r: 218, g: 112, b: 214, a: 255 })
    } else if n == "palegoldenrod"@ {
        Some(Rgba8 { r: 238, g: 232, b: 170, a: 255 })
    } else if n == "palegreen"@ {
        Some(Rgba8 { r: 152, g: 251, b: 152, a: 255 })
    } else if n == "paleturquoise"@ {
        Some(Rgba8 { r: 175, g: 238, b: 238, a: 255 })
    } else if n == "palevioletred"@ {
        Some(Rgba8 { r: 219, g: 112, b: 147, a: 255 })
    } else if n == "papayawhip"@ {
        Some(Rgba8 { r: 255, g: 239, b: 213, a: 255 })
    } else if n == "peachpuff"@ {
        Some(Rgba8 { r: 255, g: 218, b: 185, a: 255 })
    } else if n == "peru"@ {
        Some(Rgba8 { r: 205, g: 133, b: 63, a: 255 })
    } else if n == "pink"@ {
        Some(Rgba8 { r: 255, g: 192, b: 203, a: 255 })
    } else if n == "plum"@ {
        Some(Rgba8 { r: 221, g: 160, b: 221, a: 255 })
    } else if n == "powderblue"@ {
        Some(Rgba8 { r: 176, g: 224, b: 230, a: 255 })
    } else if n == "rebeccapurple"@ {
        Some(Rgba8 { r: 102, g: 51, b: 153, a: 255 })
    } else if n == "rosybrown"@ {
        Some(Rgba8 { r: 188, g: 143, b: 143, a: 255 })
    } else if n == "royalblue"@ {
        Some(Rgba8 { r: 65, g: 105, b: 225, a: 255 })
    } else if n == "saddlebrown"@ {
        Some(Rgba8 { r: 139, g: 69, b: 19, a: 255 })
    } else if n == "salmon"@ {
        Some(Rgba8 { r: 250, g: 128, b: 114, a: 255 })
    } else if n == "sandybrown"@ {
        Some(Rgba8 { r: 244, g: 164, b: 96, a: 255 })
    } else if n == "seagreen"@ {
        Some(Rgba8 { r: 46, g: 139, b: 87, a: 255 })
    } else if n == "seashell"@ {
        Some(Rgba8 { r: 255, g: 245, b: 238, a: 255 })
    } else if n == "sienna"@ {
        Some(Rgba8 { r: 160, g: 82, b: 45, a: 255 })
    } else if n == "skyblue"@ {
        Some(Rgba8 { r: 135, g: 206, b: 235, a: 255 })
    } else if n == "slateblue"@ {
        Some(Rgba8 { r: 106, g: 90, b: 205, a: 255 })
    } else if n == "slategray"@ {
        Some(Rgba8 { r: 112, g: 128, b: 144, a: 255 })
    } else if n == "slategrey"@ {
        Some(Rgba8 { r: 112, g: 128, b: 144, a: 255 })
    } else if n == "snow"@ {
        Some(Rgba8 { r: 255, g: 250, b: 250, a: 255 })
    } else if n == "springgreen"@ {
        Some(Rgba8 { r: 0, g: 255, b: 127, a: 255 })
    } else if n == "steelblue"@ {
        Some(Rgba8 { r: 70, g: 130, b: 180, a: 255 })
    } else if n == "tan"@ {
        Some(Rgba8 { r: 210, g: 180, b: 140, a: 255 })
    } else if n == "thistle"@ {
        Some(Rgba8 { r: 216, g: 191, b: 216, a: 255 })
    } else if n == "tomato"@ {
        Some(Rgba8 { r: 255, g: 99, b: 71, a: 255 })
    } else if n == "turquoise"@ {
        Some(Rgba8 { r: 64, g: 224, b: 208, a: 255 })
    } else if n == "violet"@ {
        Some(Rgba8 { r: 238, g: 130, b: 238, a: 255 })
    } else if n == "wheat"@ {
        Some(Rgba8 { r: 245, g: 222, b: 179, a: 255 })
    } else if n == "whitesmoke"@ {
        Some(Rgba8 { r: 245, g: 245, b: 245, a: 255 })
    } else if n == "yellowgreen"@ {
        Some(Rgba8 { r: 154, g: 205, b: 50, a: 255 })
    } else {
        None
    }
}

pub fn named_color(n: &Vec<u8>) -> (r: Option<Rgba8>)
    ensures
        r == spec_named(bytes_chars(n@)),
{
    if name_eq(n, "transparent") {
        Some(Rgba8 { r: 0, g: 0, b: 0, a: 0 })
    } else if name_eq(n, "black") {
        Some(Rgba8 { r: 0, g: 0, b: 0, a: 255 })
    } else if name_eq(n, "silver") {
        Some(Rgba8 { r: 192, g: 192, b: 192, a: 255 })
    } else if name_eq(n, "gray") {
        Some(Rgba8 { r: 128, g: 128, b: 128, a: 255 })
    } else if name_eq(n, "white") {
        Some(Rgba8 { r: 255, g: 255, b: 255, a: 255 })
    } else if name_eq(n, "maroon") {
        Some(Rgba8 { r: 128, g: 0, b: 0, a: 255 })
    } else if name_eq(n, "red") {
        Some(Rgba8 { r: 255, g: 0, b: 0, a: 255 })
    } else if name_eq(n, "purple") {
        Some(Rgba8 { r: 128, g: 0, b: 128, a: 255 })
    } else if name_eq(n, "fuchsia") {
        Some(Rgba8 { r: 255, g: 0, b: 255, a: 255 })
    } else if name_eq(n, "green") {
        Some(Rgba8 { r: 0, g: 128, b: 0, a: 255 })
    } else if name_eq(n, "lime") {
        Some(Rgba8 { r: 0, g: 255, b: 0, a: 255 })
    } else if name_eq(n, "olive") {
        Some(Rgba8 { r: 128, g: 128, b: 0, a: 255 })
    } else if name_eq(n, "yellow") {
        Some(Rgba8 { r: 255, g: 255, b: 0, a: 255 })
    } else if name_eq(n, "navy") {
        Some(Rgba8 { r: 0, g: 0, b: 128, a: 255 })
    } else if name_eq(n, "blue") {
        Some(Rgba8 { r: 0, g: 0, b: 255, a: 255 })
    } else if name_eq(n, "teal") {
        Some(Rgba8 { r: 0, g: 128, b: 128, a: 255 })
    } else if name_eq(n, "aqua") {
        Some(Rgba8 { r: 0, g: 255, b: 255, a: 255 })
    } else if name_eq(n, "aliceblue") {
        Some(Rgba8 { r: 240, g: 248, b: 255, a: 255 })
    } else if name_eq(n, "antiquewhite") {
        Some(Rgba8 { r: 250, g: 235, b: 215, a: 255 })
    } else if name_eq(n, "aquamarine") {
        Some(Rgba8 { r: 127, g: 255, b: 212, a: 255 })
    } else if name_eq(n, "azure") {
        Some(Rgba8 { r: 240, g: 255, b: 255, a: 255 })
    } else if name_eq(n, "beige") {
        Some(Rgba8 { r: 245, g: 245, b: 220, a: 255 })
    } else if name_eq(n, "bisque") {
        Some(Rgba8 { r: 255, g: 228, b: 196, a: 255 })
    } else if name_eq(n, "blanchedalmond") {
        Some(Rgba8 { r: 255, g: 235, b: 205, a: 255 })
    } else if name_eq(n, "blueviolet") {
        Some(Rgba8 { r: 138, g: 43, b: 226, a: 255 })
    } else if name_eq(n, "brown") {
        Some(Rgba8 { r: 165, g: 42, b: 42, a: 255 })
    } else if name_eq(n, "burlywood") {
        Some(Rgba8 { r: 222, g: 184, b: 135, a: 255 })
    } else if name_eq(n, "cadetblue") {
        Some(Rgba8 { r: 95, g: 158, b: 160, a: 255 })
    } else if name_eq(n, "chartreuse") {
        Some(Rgba8 { r: 127, g: 255, b: 0, a: 255 })
    } else if name_eq(n, "chocolate") {
        Some(Rgba8 { r: 210, g: 105, b: 30, a: 255 })
    } else if name_eq(n, "coral") {
        Some(Rgba8 { r: 255, g: 127, b: 80, a: 255 })
    } else if name_eq(n, "cornflowerblue") {
        Some(Rgba8 { r: 100, g: 149, b: 237, a: 255 })
    } else if name_eq(n, "cornsilk") {
        Some(Rgba8 { r: 255, g: 248, b: 220, a: 255 })
    } else if name_eq(n, "crimson") {
        Some(Rgba8 { r: 220, g: 20, b: 60, a: 255 })
    } else if name_eq(n, "cyan") {
        Some(Rgba8 { r: 0, g: 255, b: 255, a: 255 })
    } else if name_eq(n, "darkblue") {
        Some(Rgba8 { r: 0, g: 0, b: 139, a: 255 })
    } else if name_eq(n, "darkcyan") {
        Some(Rgba8 { r: 0, g: 139, b: 139, a: 255 })
    } else if name_eq(n, "darkgoldenrod") {
        Some(Rgba8 { r: 184, g: 134, b: 11, a: 255 })
    } else if name_eq(n, "darkgray") {
        Some(Rgba8 { r: 169, g: 169, b: 169, a: 255 })
    } else if name_eq(n, "darkgreen") {
        Some(Rgba8 { r: 0, g: 100, b: 0, a: 255 })
    } else if name_eq(n, "darkgrey") {
        Some(Rgba8 { r: 169, g: 169, b: 169, a: 255 })
    } else if name_eq(n, "darkkhaki") {
        Some(Rgba8 { r: 189, g: 183, b: 107, a: 255 })
    } else if name_eq(n, "darkmagenta") {
        Some(Rgba8 { r: 139, g: 0, b: 139, a: 255 })
    } else if name_eq(n, "darkolivegreen") {
        Some(Rgba8 { r: 85, g: 107, b: 47, a: 255 })
    } else if name_eq(n, "darkorange") {
        Some(Rgba8 { r: 255, g: 140, b: 0, a: 255 })
    } else if name_eq(n, "darkorchid") {
        Some(Rgba8 { r: 153, g: 50, b: 204, a: 255 })
    } else if name_eq(n, "darkred") {
        Some(Rgba8 { r: 139, g: 0, b: 0, a: 255 })
    } else if name_eq(n, "darksalmon") {
        Some(Rgba8 { r: 233, g: 150, b: 122, a: 255 })
    } else if name_eq(n, "darkseagreen") {
        Some(Rgba8 { r: 143, g: 188, b: 143, a: 255 })
    } else if name_eq(n, "darkslateblue") {
        Some(Rgba8 { r: 72, g: 61, b: 139, a: 255 })
    } else if name_eq(n, "darkslategray") {
        Some(Rgba8 { r: 47, g: 79, b: 79, a: 255 })
    } else if name_eq(n, "darkslategrey") {
        Some(Rgba8 { r: 47, g: 79, b: 79, a: 255 })
    } else if name_eq(n, "darkturquoise") {
        Some(Rgba8 { r: 0, g: 206, b: 209, a: 255 })
    } else if name_eq(n, "darkviolet") {
        Some(Rgba8 { r: 148, g: 0, b: 211, a: 255 })
    } else if name_eq(n, "deeppink") {
        Some(Rgba8 { r: 255, g: 20, b: 147, a: 255 })
    } else if name_eq(n, "deepskyblue") {
        Some(Rgba8 { r: 0, g: 191, b: 255, a: 255 })
    } else if name_eq(n, "dimgray") {
        Some(Rgba8 { r: 105, g: 105, b: 105, a: 255 })
    } else if name_eq(n, "dimgrey") {
        Some(Rgba8 { r: 105, g: 105, b: 105, a: 255 })
    } else if name_eq(n, "dodgerblue") {
        Some(Rgba8 { r: 30, g: 144, b: 255, a: 255 })
    } else if name_eq(n, "firebrick") {
        Some(Rgba8 { r: 178, g: 34, b: 34, a: 255 })
    } else if name_eq(n, "floralwhite") {
        Some(Rgba8 { r: 255, g: 250, b: 240, a: 255 })
    } else if name_eq(n, "forestgreen") {
        Some(Rgba8 { r: 34, g: 139, b: 34, a: 255 })
    } else if name_eq(n, "gainsboro") {
        Some(Rgba8 { r: 220, g: 220, b: 220, a: 255 })
    } else if name_eq(n, "ghostwhite") {
        Some(Rgba8 { r: 248, g: 248, b: 255, a: 255 })
    } else if name_eq(n, "gold") {
        Some(Rgba8 { r: 255, g: 215, b: 0, a: 255 })
    } else if name_eq(n, "goldenrod") {
        Some(Rgba8 { r: 218, g: 165, b: 32, a: 255 })
    } else if name_eq(n, "greenyellow") {
        Some(Rgba8 { r: 173, g: 255, b: 47, a: 255 })
    } else if name_eq(n, "grey") {
        Some(Rgba8 { r: 128, g: 128, b: 128, a: 255 })
    } else if name_eq(n, "honeydew") {
        Some(Rgba8 { r: 240, g: 255, b: 240, a: 255 })
    } else if name_eq(n, "hotpink") {
        Some(Rgba8 { r: 255, g: 105, b: 180, a: 255 })
    } else if name_eq(n, "indianred") {
        Some(Rgba8 { r: 205, g: 92, b: 92, a: 255 })
    } else if name_eq(n, "indigo") {
        Some(Rgba8 { r: 75, g: 0, b: 130, a: 255 })
    } else if name_eq(n, "ivory") {
        Some(Rgba8 { r: 255, g: 255, b: 240, a: 255 })
    } else if name_eq(n, "khaki") {
        Some(Rgba8 { r: 240, g: 230, b: 140, a: 255 })
    } else if name_eq(n, "lavender") {
        Some(Rgba8 { r: 230, g: 230, b: 250, a: 255 })
    } else if name_eq(n, "lavenderblush") {
        Some(Rgba8 { r: 255, g: 240, b: 245, a: 255 })
    } else if name_eq(n, "lawngreen") {
        Some(Rgba8 { r: 124, g: 252, b: 0, a: 255 })
    } else if name_eq(n, "lemonchiffon") {
        Some(Rgba8 { r: 255, g: 250, b: 205, a: 255 })
    } else if name_eq(n, "lightblue") {
        Some(Rgba8 { r: 173, g: 216, b: 230, a: 255 })
    } else if name_eq(n, "lightcoral") {
        Some(Rgba8 { r: 240, g: 128, b: 128, a: 255 })
    } else if name_eq(n, "lightcyan") {
        Some(Rgba8 { r: 224, g: 255, b: 255, a: 255 })
    } else if name_eq(n, "lightgoldenrodyellow") {
        Some(Rgba8 { r: 250, g: 250, b: 210, a: 255 })
    } else if name_eq(n, "lightgray") {
        Some(Rgba8 { r: 211, g: 211, b: 211, a: 255 })
    } else if name_eq(n, "lightgreen") {
        Some(Rgba8 { r: 144, g: 238, b: 144, a: 255 })
    } else if name_eq(n, "lightgrey") {
        Some(Rgba8 { r: 211, g: 211, b: 211, a: 255 })
    } else if name_eq(n, "lightpink") {
        Some(Rgba8 { r: 255, g: 182, b: 193, a: 255 })
    } else if name_eq(n, "lightsalmon") {
        Some(Rgba8 { r: 255, g: 160, b: 122, a: 255 })
    } else if name_eq(n, "lightseagreen") {
        Some(Rgba8 { r: 32, g: 178, b: 170, a: 255 })
    } else if name_eq(n, "lightskyblue") {
        Some(Rgba8 { r: 135, g: 206, b: 250, a: 255 })
    } else if name_eq(n, "lightslategray") {
        Some(Rgba8 { r: 119, g: 136, b: 153, a: 255 })
    } else if name_eq(n, "lightslategrey") {
        Some(Rgba8 { r: 119, g: 136, b: 153, a: 255 })
    } else if name_eq(n, "lightsteelblue") {
        Some(Rgba8 { r: 176, g: 196, b: 222, a: 255 })
    } else if name_eq(n, "lightyellow") {
        Some(Rgba8 { r: 255, g: 255, b: 224, a: 255 })
    } else if name_eq(n, "limegreen") {
        Some(Rgba8 { r: 50, g: 205, b: 50, a: 255 })
    } else if name_eq(n, "linen") {
        Some(Rgba8 { r: 250, g: 240, b: 230, a: 255 })
    } else if name_eq(n, "magenta") {
        Some(Rgba8 { r: 255, g: 0, b: 255, a: 255 })
    } else if name_eq(n, "mediumaquamarine") {
        Some(Rgba8 { r: 102, g: 205, b: 170, a: 255 })
    } else if name_eq(n, "mediumblue") {
        Some(Rgba8 { r: 0, g: 0, b: 205, a: 255 })
    } else if name_eq(n, "mediumorchid") {
        Some(Rgba8 { r: 186, g: 85, b: 211, a: 255 })
    } else if name_eq(n, "mediumpurple") {
        Some(Rgba8 { r: 147, g: 112, b: 219, a: 255 })
    } else if name_eq(n, "mediumseagreen") {
        Some(Rgba8 { r: 60, g: 179, b: 113, a: 255 })
    } else if name_eq(n, "mediumslateblue") {
        Some(Rgba8 { r: 123, g: 104, b: 238, a: 255 })
    } else if name_eq(n, "mediumspringgreen") {
        Some(Rgba8 { r: 0, g: 250, b: 154, a: 255 })
    } else if name_eq(n, "mediumturquoise") {
        Some(Rgba8 { r: 72, g: 209, b: 204, a: 255 })
    } else if name_eq(n, "mediumvioletred") {
        Some(Rgba8 { r: 199, g: 21, b: 133, a: 255 })
    } else if name_eq(n, "midnightblue") {
        Some(Rgba8 { r: 25, g: 25, b: 112, a: 255 })
    } else if name_eq(n, "mintcream") {
        Some(Rgba8 { r: 245, g: 255, b: 250, a: 255 })
    } else if name_eq(n, "mistyrose") {
        Some(Rgba8 { r: 255, g: 228, b: 225, a: 255 })
    } else if name_eq(n, "moccasin") {
        Some(Rgba8 { r: 255, g: 228, b: 181, a: 255 })
    } else if name_eq(n, "navajowhite") {
        Some(Rgba8 { r: 255, g: 222, b: 173, a: 255 })
    } else if name_eq(n, "oldlace") {
        Some(Rgba8 { r: 253, g: 245, b: 230, a: 255 })
    } else if name_eq(n, "olivedrab") {
        Some(Rgba8 { r: 107, g: 142, b: 35, a: 255 })
    } else if name_eq(n, "orange") {
        Some(Rgba8 { r: 255, g: 165, b: 0, a: 255 })
    } else if name_eq(n, "orangered") {
        Some(Rgba8 { r: 255, g: 69, b: 0, a: 255 })
    } else if name_eq(n, "orchid") {
        Some(Rgba8 { r: 218, g: 112, b: 214, a: 255 })
    } else if name_eq(n, "palegoldenrod") {
        Some(Rgba8 { r: 238, g: 232, b: 170, a: 255 })
    } else if name_eq(n, "palegreen") {
        Some(Rgba8 { r: 152, g: 251, b: 152, a: 255 })
    } else if name_eq(n, "paleturquoise") {
        Some(Rgba8 { r: 175, g: 238, b: 238, a: 255 })
    } else if name_eq(n, "palevioletred") {
        Some(Rgba8 { r: 219, g: 112, b: 147, a: 255 })
    } else if name_eq(n, "papayawhip") {
        Some(Rgba8 { r: 255, g: 239, b: 213, a: 255 })
    } else if name_eq(n, "peachpuff") {
        Some(Rgba8 { r: 255, g: 218, b: 185, a: 255 })
    } else if name_eq(n, "peru") {
        Some(Rgba8 { r: 205, g: 133, b: 63, a: 255 })
    } else if name_eq(n, "pink") {
        Some(Rgba8 { r: 255, g: 192, b: 203, a: 255 })
    } else if name_eq(n, "plum") {
        Some(Rgba8 { r: 221, g: 160, b: 221, a: 255 })
    } else if name_eq(n, "powderblue") {
        Some(Rgba8 { r: 176, g: 224, b: 230, a: 255 })
    } else if name_eq(n, "rebeccapurple") {
        Some(Rgba8 { r: 102, g: 51, b: 153, a: 255 })
    } else if name_eq(n, "rosybrown") {
        Some(Rgba8 { r: 188, g: 143, b: 143, a: 255 })
    } else if name_eq(n, "royalblue") {
        Some(Rgba8 { r: 65, g: 105, b: 225, a: 255 })
    } else if name_eq(n, "saddlebrown") {
        Some(Rgba8 { r: 139, g: 69, b: 19, a: 255 })
    } else if name_eq(n, "salmon") {
        Some(Rgba8 { r: 250, g: 128, b: 114, a: 255 })
    } else if name_eq(n, "sandybrown") {
        Some(Rgba8 { r: 244, g: 164, b: 96, a: 255 })
    } else if name_eq(n, "seagreen") {
        Some(Rgba8 { r: 46, g: 139, b: 87, a: 255 })
    } else if name_eq(n, "seashell") {
        Some(Rgba8 { r: 255, g: 245, b: 238, a: 255 })
    } else if name_eq(n, "sienna") {
        Some(Rgba8 { r: 160, g: 82, b: 45, a: 255 })
    } else if name_eq(n, "skyblue") {
        Some(Rgba8 { r: 135, g: 206, b: 235, a: 255 })
    } else if name_eq(n, "slateblue") {
        Some(Rgba8 { r: 106, g: 90, b: 205, a: 255 })
    } else if name_eq(n, "slategray") {
        Some(Rgba8 { r: 112, g: 128, b: 144, a: 255 })
    } else if name_eq(n, "slategrey") {
        Some(Rgba8 { r: 112, g: 128, b: 144, a: 255 })
    } else if name_eq(n, "snow") {
        Some(Rgba8 { r: 255, g: 250, b: 250, a: 255 })
    } else if name_eq(n, "springgreen") {
        Some(Rgba8 { r: 0, g: 255, b: 127, a: 255 })
    } else if name_eq(n, "steelblue") {
        Some(Rgba8 { r: 70, g: 130, b: 180, a: 255 })
    } else if name_eq(n, "tan") {
        Some(Rgba8 { r: 210, g: 180, b: 140, a: 255 })
    } else if name_eq(n, "thistle") {
        Some(Rgba8 { r: 216, g: 191, b: 216, a: 255 })
    } else if name_eq(n, "tomato") {
        Some(Rgba8 { r: 255, g: 99, b: 71, a: 255 })
    } else if name_eq(n, "turquoise") {
        Some(Rgba8 { r: 64, g: 224, b: 208, a: 255 })
    } else if name_eq(n, "violet") {
        Some(Rgba8 { r: 238, g: 130, b: 238, a: 255 })
    } else if name_eq(n, "wheat") {
        Some(Rgba8 { r: 245, g: 222, b: 179, a: 255 })
    } else if name_eq(n, "whitesmoke") {
        Some(Rgba8 { r: 245, g: 245, b: 245, a: 255 })
    } else if name_eq(n, "yellowgreen") {
        Some(Rgba8 { r: 154, g: 205, b: 50, a: 255 })
    } else {
        None
    }
}

/// The lowercase hex digits of a byte pair.
pub open spec fn hex_digit_of(n: int) -> u8 {
    if n < 10 {
        (48 + n) as u8
    } else {
        (87 + n) as u8
    }
}

/// The eight-digit hex text of a colour.
pub open spec fn hex_digits_of(c: Rgba8) -> Seq<u8> {
    seq![
        hex_digit_of(c.r as int / 16),
        hex_digit_of(c.r as int % 16),
        hex_digit_of(c.g as int / 16),
        hex_digit_of(c.g as int % 16),
        hex_digit_of(c.b as int / 16),
        hex_digit_of(c.b as int % 16),
        hex_digit_of(c.a as int / 16),
        hex_digit_of(c.a as int % 16),
    ]
}

proof fn lemma_hex_digit(n: int)
    requires
        0 <= n < 16,
    ensures
        is_hex_digit(hex_digit_of(n)),
        hex_val(hex_digit_of(n)) == n,
{
}

/// Writing a colour as eight hex digits and reading it back is the
/// identity: literal hex colours convert exactly.
pub proof fn lemma_hex_round_trip(c: Rgba8)
    ensures
        spec_hex_color(hex_digits_of(c)) == Some(c),
{
    let h = hex_digits_of(c);
    lemma_hex_digit(c.r as int / 16);
    lemma_hex_digit(c.r as int % 16);
    lemma_hex_digit(c.g as int / 16);
    lemma_hex_digit(c.g as int % 16);
    lemma_hex_digit(c.b as int / 16);
    lemma_hex_digit(c.b as int % 16);
    lemma_hex_digit(c.a as int / 16);
    lemma_hex_digit(c.a as int % 16);
    assert(all_hex(h));
    vstd::arithmetic::div_mod::lemma_fundamental_div_mod(c.r as int, 16);
    vstd::arithmetic::div_mod::lemma_fundamental_div_mod(c.g as int, 16);
    vstd::arithmetic::div_mod::lemma_fundamental_div_mod(c.b as int, 16);
    vstd::arithmetic::div_mod::lemma_fundamental_div_mod(c.a as int, 16);
}

/// A whole-number `rgb()` channel converts to exactly that byte:
/// functional RGB literals convert exactly.
pub proof fn lemma_rgb_channel_identity(n: u8)
    ensures
        byte_of_num(n * 1000) == n,
{
    vstd::arithmetic::div_mod::lemma_div_multiples_vanish_fancy(n as int, 500, 1000);
    assert((1000 * (n as int) + 500) / 1000 == n as int);
}

} // verus!
