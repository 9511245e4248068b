//! The KDE styling rules: colours looked up in the desktop's global
//! settings drive the record field by field. Reading the settings file is
//! the caller's business; the section and key table, the colour-text
//! parsing and the field writes are made and proved here.
use vstd::prelude::*;

use crate::ThemeError;
use crate::color::Rgba8;
use crate::color::bytes_chars;
use crate::color::name_eq;
use crate::record::Rounding;
use crate::record::Shadow;
use crate::record::Stroke;
use crate::record::StyleRecord;
use crate::record::WidgetStyle;
use crate::record::spec_stroke_one;
use crate::record::spec_rounding_same;
use crate::token::digits_end;
use crate::token::digits_val;
use crate::token::is_digit;
use crate::token::is_ws;
use crate::token::ws_end;
use crate::token::lemma_ws_end;
use crate::token::lemma_digits_all;
use crate::token::lemma_digits_end;
use crate::token::lemma_digits_val_bound;
use crate::token::lemma_pow10_mono;
use crate::token::pow10;

verus! {

/// One channel of a settings colour: whitespace, at most three digits
/// whose value fits a byte, whitespace.
pub open spec fn spec_channel(v: Seq<u8>) -> Option<u8> {
    let a = ws_end(v, 0);
    let d = digits_end(v, a);
    if d > a && d - a <= 3 && ws_end(v, d) == v.len() && digits_val(v, a, d) <= 255 {
        Some(digits_val(v, a, d) as u8)
    } else {
        None
    }
}

/// Parses one channel field.
pub fn channel_value(v: &Vec<u8>, from: usize, to: usize) -> (r: Option<u8>)
    requires
        from <= to <= v@.len(),
    ensures
        r == spec_channel(v@.subrange(from as int, to as int)),
{
    let ghost sub = v@.subrange(from as int, to as int);
    let field = crate::token::sub_vec_pub(v, from, to);
    channel_of(&field)
}

fn channel_of(v: &Vec<u8>) -> (r: Option<u8>)
    ensures
        r == spec_channel(v@),
{
    let n = v.len();
    let mut a: usize = 0;
    while a < n && (v[a] == 32 || v[a] == 9 || v[a] == 10 || v[a] == 13 || v[a] == 12)
        invariant
            a <= n,
            n == v@.len(),
            ws_end(v@, 0) == ws_end(v@, a as int),
        decreases n - a,
    {
        a += 1;
    }
    let mut d: usize = a;
    while d < n && 48 <= v[d] && v[d] <= 57
        invariant
            a <= d <= n,
            n == v@.len(),
            digits_end(v@, a as int) == digits_end(v@, d as int),
        decreases n - d,
    {
        d += 1;
    }
    let mut e: usize = d;
    while e < n && (v[e] == 32 || v[e] == 9 || v[e] == 10 || v[e] == 13 || v[e] == 12)
        invariant
            d <= e <= n,
            n == v@.len(),
            ws_end(v@, d as int) == ws_end(v@, e as int),
        decreases n - e,
    {
        e += 1;
    }
    if !(d > a && d - a <= 3 && e == n) {
        return None;
    }
    proof {
        lemma_digits_all(v@, a as int);
    }
    let v0: u64 = (v[a] - 48) as u64;
    let val: u64 = if d - a == 1 {
        v0
    } else if d - a == 2 {
        v0 * 10 + (v[a + 1] - 48) as u64
    } else {
        v0 * 100 + (v[a + 1] - 48) as u64 * 10 + (v[a + 2] - 48) as u64
    };
    proof {
        assert(digits_val(v@, a as int, a as int) == 0);
        assert(digits_val(v@, a as int, a as int + 1) == (v@[a as int] - 48));
        if d - a == 2 {
            assert(digits_val(v@, a as int, d as int) == digits_val(v@, a as int, a as int + 1)
                * 10 + (v@[a as int + 1] - 48));
        }
        if d - a == 3 {
            assert(digits_val(v@, a as int, a as int + 2) == digits_val(v@, a as int, a as int + 1)
                * 10 + (v@[a as int + 1] - 48));
            assert(digits_val(v@, a as int, d as int) == digits_val(v@, a as int, a as int + 2)
                * 10 + (v@[a as int + 2] - 48));
        }
        assert(val == digits_val(v@, a as int, d as int));
    }
    if val <= 255 {
        Some(val as u8)
    } else {
        None
    }
}

/// The comma-separated fields of a settings value.
pub open spec fn split_commas(v: Seq<u8>, i: int) -> Seq<Seq<u8>>
    decreases v.len() - i when 0 <= i
    via split_commas_dec
{
    match crate::token::find_byte(v, i, 44) {
        Some(j) => seq![v.subrange(i, j)] + split_commas(v, j + 1),
        None => seq![v.subrange(i, v.len() as int)],
    }
}

#[via_fn]
proof fn split_commas_dec(v: Seq<u8>, i: int) {
    if 0 <= i <= v.len() {
        crate::token::lemma_find_byte(v, i, 44);
    }
}

/// The colour a settings value denotes: three byte channels, a fourth
/// optional alpha channel that falls back to fully opaque.
pub open spec fn spec_ini_color(v: Seq<u8>) -> Option<Rgba8> {
    let fs = split_commas(v, 0);
    if fs.len() >= 3 {
        match (spec_channel(fs[0]), spec_channel(fs[1]), spec_channel(fs[2])) {
            (Some(r), Some(g), Some(b)) => Some(
                Rgba8 {
                    r,
                    g,
                    b,
                    a: (if fs.len() >= 4 {
                        match spec_channel(fs[3]) {
                            Some(a) => a,
                            None => 255,
                        }
                    } else {
                        255
                    }),
                },
            ),
            _ => None,
        }
    } else {
        None
    }
}

/// Splits a settings value into its comma-separated fields.
fn split_fields(v: &Vec<u8>) -> (r: Vec<Vec<u8>>)
    ensures
        crate::ast::sels_view(r@) == split_commas(v@, 0),
{
    let ghost target = split_commas(v@, 0);
    let n = v.len();
    let mut out: Vec<Vec<u8>> = Vec::new();
    let mut i: usize = 0;
    proof {
        assert(crate::ast::sels_view(out@) =~= Seq::<Seq<u8>>::empty());
    }
    loop
        invariant
            i <= n,
            n == v@.len(),
            split_commas(v@, 0) == crate::ast::sels_view(out@) + split_commas(v@, i as int),
        decreases v@.len() - i,
    {
        proof {
            crate::token::lemma_find_byte(v@, i as int, 44);
        }
        match crate::token::scan_find_pub(v, i, 44) {
            Some(j) => {
                let f = crate::token::sub_vec_pub(v, i, j);
                proof {
                    assert(crate::ast::sels_view(out@.push(f)) =~= crate::ast::sels_view(
                        out@,
                    ).push(f@));
                    assert(crate::ast::sels_view(out@).push(f@) + split_commas(v@, j + 1)
                        =~= crate::ast::sels_view(out@) + (seq![f@] + split_commas(v@, j + 1)));
                }
                out.push(f);
                i = j + 1;
            },
            None => {
                let f = crate::token::sub_vec_pub(v, i, v.len());
                proof {
                    assert(crate::ast::sels_view(out@.push(f)) =~= crate::ast::sels_view(
                        out@,
                    ).push(f@));
                    assert(crate::ast::sels_view(out@).push(f@) =~= crate::ast::sels_view(out@) + seq![
                        f@,
                    ]);
                }
                out.push(f);
                return out;
            },
        }
    }
}

/// Parses a settings colour value.
pub fn ini_color(v: &Vec<u8>) -> (r: Option<Rgba8>)
    ensures
        r == spec_ini_color(v@),
{
    let fs = split_fields(v);
    proof {
        assert(crate::ast::sels_view(fs@).len() == fs@.len());
        assert(split_commas(v@, 0).len() >= 1);
        if fs@.len() >= 1 {
            assert(crate::ast::sels_view(fs@)[0] == fs@[0]@);
        }
        if fs@.len() >= 2 {
            assert(crate::ast::sels_view(fs@)[1] == fs@[1]@);
        }
        if fs@.len() >= 3 {
            assert(crate::ast::sels_view(fs@)[2] == fs@[2]@);
        }
        if fs@.len() >= 4 {
            assert(crate::ast::sels_view(fs@)[3] == fs@[3]@);
        }
    }
    if fs.len() < 3 {
        return None;
    }
    let c0 = channel_of(&fs[0]);
    let c1 = channel_of(&fs[1]);
    let c2 = channel_of(&fs[2]);
    match (c0, c1, c2) {
        (Some(r), Some(g), Some(b)) => {
            let a: u8 = if fs.len() >= 4 {
                match channel_of(&fs[3]) {
                    Some(a) => a,
                    None => 255,
                }
            } else {
                255
            };
            Some(Rgba8 { r, g, b, a })
        },
        _ => None,
    }
}

/// The settings entries handed in by the caller: section, key, value.
pub struct IniData {
    pub entries: Vec<(Vec<u8>, Vec<u8>, Vec<u8>)>,
}

pub open spec fn ini_view(v: Seq<(Vec<u8>, Vec<u8>, Vec<u8>)>) -> Seq<(Seq<u8>, Seq<u8>, Seq<u8>)> {
    v.map_values(|e: (Vec<u8>, Vec<u8>, Vec<u8>)| (e.0@, e.1@, e.2@))
}

/// The first entry of a section and key, parsed as a colour.
pub open spec fn spec_get_at(
    ini: Seq<(Seq<u8>, Seq<u8>, Seq<u8>)>,
    i: int,
    sec: Seq<char>,
    key: Seq<char>,
) -> Option<Rgba8>
    decreases ini.len() - i when 0 <= i
{
    if i >= ini.len() {
        None
    } else if bytes_chars(ini[i].0) == sec && bytes_chars(ini[i].1) == key {
        spec_ini_color(ini[i].2)
    } else {
        spec_get_at(ini, i + 1, sec, key)
    }
}

pub open spec fn spec_get(
    ini: Seq<(Seq<u8>, Seq<u8>, Seq<u8>)>,
    sec: Seq<char>,
    key: Seq<char>,
) -> Option<Rgba8> {
    spec_get_at(ini, 0, sec, key)
}

impl IniData {
    pub open spec fn view_entries(&self) -> Seq<(Seq<u8>, Seq<u8>, Seq<u8>)> {
        ini_view(self.entries@)
    }

    /// Looks up a section and key and parses the value as a colour.
    /// Fails with `LookupError` when the key is absent and `ParseError`
    /// when its value is not a colour.
    pub fn get_color(&self, sec: &str, key: &str) -> (r: Result<Rgba8, ThemeError>)
        ensures
            match r {
                Ok(c) => spec_get(self.view_entries(), sec@, key@) == Some(c),
                Err(e) => spec_get(self.view_entries(), sec@, key@) is None && (e
                    == ThemeError::LookupError || e == ThemeError::ParseError),
            },
    {
        let ghost iv = self.view_entries();
        proof {
            assert(iv.len() == self.entries@.len());
        }
        let mut i: usize = 0;
        while i < self.entries.len()
            invariant
                i <= self.entries@.len(),
                iv == self.view_entries(),
                iv.len() == self.entries@.len(),
                forall|k: int| 0 <= k < iv.len() ==> iv[k] == (
                    self.entries@[k].0@,
                    self.entries@[k].1@,
                    self.entries@[k].2@,
                ),
                spec_get(iv, sec@, key@) == spec_get_at(iv, i as int, sec@, key@),
            decreases self.entries@.len() - i,
        {
            if name_eq(&self.entries[i].0, sec) && name_eq(&self.entries[i].1, key) {
                match ini_color(&self.entries[i].2) {
                    Some(c) => {
                        return Ok(c);
                    },
                    None => {
                        return Err(ThemeError::ParseError);
                    },
                }
            }
            i += 1;
        }
        Err(ThemeError::LookupError)
    }
}

pub open spec fn kde_shadow() -> Shadow {
    Shadow { dx: 0, dy: 10000, blur: 30000, spread: 10000, color: Rgba8 { r: 0, g: 0, b: 0, a: 50 } }
}

/// What the settings drive: each available colour overwrites its fields;
/// a missing or malformed entry leaves them alone. The shadows and the
/// window rounding take fixed values that sit well beside the desktop's
/// own theme.

pub open spec fn spec_kde_part1(
    rec: StyleRecord,
    ini: Seq<(Seq<u8>, Seq<u8>, Seq<u8>)>,
) -> StyleRecord {
    let r0 = match spec_get(ini, "Colors:Window"@, "BackgroundNormal"@) {
        Some(c) => StyleRecord { noninteractive: WidgetStyle { bg_fill: c, ..rec.noninteractive }, ..rec },
        None => rec,
    };
    let r1 = match spec_get(ini, "Colors:Header"@, "BackgroundNormal"@) {
        Some(c) => StyleRecord { noninteractive: WidgetStyle { weak_bg_fill: c, ..r0.noninteractive }, ..r0 },
        None => r0,
    };
    let r2 = match spec_get(ini, "Colors:Window"@, "ForegroundNormal"@) {
        Some(c) => StyleRecord { noninteractive: WidgetStyle { fg_stroke: spec_stroke_one(c), ..r1.noninteractive }, ..r1 },
        None => r1,
    };
    let r3 = match spec_get(ini, "WM"@, "activeForeground"@) {
        Some(c) => StyleRecord { noninteractive: WidgetStyle { fg_stroke: spec_stroke_one(c), ..r2.noninteractive }, ..r2 },
        None => r2,
    };
    let r4 = match spec_get(ini, "ColorEffects:Inactive"@, "Color"@) {
        Some(c) => StyleRecord { noninteractive: WidgetStyle { bg_stroke: spec_stroke_one(c), ..r3.noninteractive }, ..r3 },
        None => r3,
    };
    let r5 = match spec_get(ini, "Colors:View"@, "BackgroundNormal"@) {
        Some(c) => StyleRecord { inactive: WidgetStyle { bg_fill: c, ..r4.inactive }, ..r4 },
        None => r4,
    };
    let r6 = match spec_get(ini, "Colors:Button"@, "BackgroundNormal"@) {
        Some(c) => StyleRecord { inactive: WidgetStyle { weak_bg_fill: c, ..r5.inactive }, ..r5 },
        None => r5,
    };
    let r7 = match spec_get(ini, "Colors:Button"@, "ForegroundNormal"@) {
        Some(c) => StyleRecord { inactive: WidgetStyle { fg_stroke: spec_stroke_one(c), ..r6.inactive }, ..r6 },
        None => r6,
    };
    r7
}

pub open spec fn spec_kde_part2(
    rec: StyleRecord,
    ini: Seq<(Seq<u8>, Seq<u8>, Seq<u8>)>,
) -> StyleRecord {
    let r8 = match spec_get(ini, "Colors:Button"@, "ForegroundInactive"@) {
        Some(c) => StyleRecord { inactive: WidgetStyle { bg_stroke: spec_stroke_one(c), ..rec.inactive }, ..rec },
        None => rec,
    };
    let r9 = match spec_get(ini, "Colors:Button"@, "BackgroundNormal"@) {
        Some(c) => StyleRecord { hovered: WidgetStyle { bg_fill: c, ..r8.hovered }, ..r8 },
        None => r8,
    };
    let r10 = match spec_get(ini, "Colors:Button"@, "BackgroundNormal"@) {
        Some(c) => StyleRecord { hovered: WidgetStyle { weak_bg_fill: c, ..r9.hovered }, ..r9 },
        None => r9,
    };
    let r11 = match spec_get(ini, "Colors:Button"@, "ForegroundNormal"@) {
        Some(c) => StyleRecord { hovered: WidgetStyle { fg_stroke: spec_stroke_one(c), ..r10.hovered }, ..r10 },
        None => r10,
    };
    let r12 = match spec_get(ini, "Colors:Button"@, "DecorationHover"@) {
        Some(c) => StyleRecord { hovered: WidgetStyle { bg_stroke: spec_stroke_one(c), ..r11.hovered }, ..r11 },
        None => r11,
    };
    let r13 = match spec_get(ini, "Colors:Button"@, "BackgroundAlternate"@) {
        Some(c) => StyleRecord { active: WidgetStyle { bg_fill: c, ..r12.active }, ..r12 },
        None => r12,
    };
    let r14 = match spec_get(ini, "Colors:Button"@, "BackgroundAlternate"@) {
        Some(c) => StyleRecord { active: WidgetStyle { weak_bg_fill: c, ..r13.active }, ..r13 },
        None => r13,
    };
    let r15 = match spec_get(ini, "Colors:Button"@, "ForegroundNormal"@) {
        Some(c) => StyleRecord { active: WidgetStyle { fg_stroke: spec_stroke_one(c), ..r14.active }, ..r14 },
        None => r14,
    };
    r15
}

pub open spec fn spec_kde_part3(
    rec: StyleRecord,
    ini: Seq<(Seq<u8>, Seq<u8>, Seq<u8>)>,
) -> StyleRecord {
    let r16 = match spec_get(ini, "Colors:Button"@, "DecorationFocus"@) {
        Some(c) => StyleRecord { active: WidgetStyle { bg_stroke: spec_stroke_one(c), ..rec.active }, ..rec },
        None => rec,
    };
    let r17 = match spec_get(ini, "Colors:Button"@, "BackgroundAlternate"@) {
        Some(c) => StyleRecord { opened: WidgetStyle { bg_fill: c, ..r16.opened }, ..r16 },
        None => r16,
    };
    let r18 = match spec_get(ini, "Colors:Header"@, "BackgroundNormal"@) {
        Some(c) => StyleRecord { opened: WidgetStyle { weak_bg_fill: c, ..r17.opened }, ..r17 },
        None => r17,
    };
    let r19 = match spec_get(ini, "Colors:Button"@, "ForegroundVisited"@) {
        Some(c) => StyleRecord { opened: WidgetStyle { fg_stroke: spec_stroke_one(c), ..r18.opened }, ..r18 },
        None => r18,
    };
    let r20 = match spec_get(ini, "Colors:Button"@, "DecorationFocus"@) {
        Some(c) => StyleRecord { opened: WidgetStyle { bg_stroke: spec_stroke_one(c), ..r19.opened }, ..r19 },
        None => r19,
    };
    let r21 = match spec_get(ini, "Colors:Button"@, "ForegroundLink"@) {
        Some(c) => StyleRecord { hyperlink_color: c, ..r20 },
        None => r20,
    };
    let r22 = match spec_get(ini, "Colors:Window"@, "BackgroundNormal"@) {
        Some(c) => StyleRecord { panel_fill: c, ..r21 },
        None => r21,
    };
    let r23 = match spec_get(ini, "WM"@, "inactiveBackground"@) {
        Some(c) => StyleRecord { panel_fill: c, ..r22 },
        None => r22,
    };
    r23
}

pub open spec fn spec_kde_part4(
    rec: StyleRecord,
    ini: Seq<(Seq<u8>, Seq<u8>, Seq<u8>)>,
) -> StyleRecord {
    let r24 = match spec_get(ini, "Colors:Window"@, "BackgroundNormal"@) {
        Some(c) => StyleRecord { window_fill: c, ..rec },
        None => rec,
    };
    let r25 = match spec_get(ini, "ColorEffects:Inactive"@, "Color"@) {
        Some(c) => StyleRecord { window_stroke: spec_stroke_one(c), ..r24 },
        None => r24,
    };
    let r26 = match spec_get(ini, "Colors:View"@, "BackgroundNormal"@) {
        Some(c) => StyleRecord { code_bg_color: c, ..r25 },
        None => r25,
    };
    let r27 = match spec_get(ini, "Colors:View"@, "BackgroundNormal"@) {
        Some(c) => StyleRecord { extreme_bg_color: c, ..r26 },
        None => r26,
    };
    let r28 = match spec_get(ini, "Colors:Tooltip"@, "BackgroundNormal"@) {
        Some(c) => StyleRecord { faint_bg_color: c, ..r27 },
        None => r27,
    };
    let r29 = match spec_get(ini, "Colors:Selection"@, "BackgroundAlternate"@) {
        Some(c) => StyleRecord { selection_bg_fill: c, ..r28 },
        None => r28,
    };
    let r30 = match spec_get(ini, "Colors:Selection"@, "ForegroundNormal"@) {
        Some(c) => StyleRecord { selection_stroke: spec_stroke_one(c), ..r29 },
        None => r29,
    };
    r30
}

pub open spec fn spec_style_kde(
    rec: StyleRecord,
    ini: Seq<(Seq<u8>, Seq<u8>, Seq<u8>)>,
) -> StyleRecord {
    let r = spec_kde_part4(spec_kde_part3(spec_kde_part2(spec_kde_part1(rec, ini), ini), ini), ini);
    StyleRecord {
        window_shadow: kde_shadow(),
        popup_shadow: kde_shadow(),
        window_rounding: spec_rounding_same(2000),
        ..r
    }
}

/// Applies the settings colours to the record.
pub fn style_kde(rec: &mut StyleRecord, ini: &IniData) -> (r: Result<(), ThemeError>)
    ensures
        r is Ok,
        *final(rec) == spec_style_kde(*old(rec), ini.view_entries()),
{
    let recv = *rec;
    apply_kde(rec, ini, recv);
    Ok(())
}


#[verifier::rlimit(60)]
fn apply_kde_part1(ini: &IniData, rec: StyleRecord) -> (r: StyleRecord)
    ensures
        r == spec_kde_part1(rec, ini.view_entries()),
{
    let r0 = match ini.get_color("Colors:Window", "BackgroundNormal") {
        Ok(c) => StyleRecord { noninteractive: WidgetStyle { bg_fill: c, ..rec.noninteractive }, ..rec },
        Err(_) => rec,
    };
    let r1 = match ini.get_color("Colors:Header", "BackgroundNormal") {
        Ok(c) => StyleRecord { noninteractive: WidgetStyle { weak_bg_fill: c, ..r0.noninteractive }, ..r0 },
        Err(_) => r0,
    };
    let r2 = match ini.get_color("Colors:Window", "ForegroundNormal") {
        Ok(c) => StyleRecord { noninteractive: WidgetStyle { fg_stroke: Stroke::one(c), ..r1.noninteractive }, ..r1 },
        Err(_) => r1,
    };
    let r3 = match ini.get_color("WM", "activeForeground") {
        Ok(c) => StyleRecord { noninteractive: WidgetStyle { fg_stroke: Stroke::one(c), ..r2.noninteractive }, ..r2 },
        Err(_) => r2,
    };
    let r4 = match ini.get_color("ColorEffects:Inactive", "Color") {
        Ok(c) => StyleRecord { noninteractive: WidgetStyle { bg_stroke: Stroke::one(c), ..r3.noninteractive }, ..r3 },
        Err(_) => r3,
    };
    let r5 = match ini.get_color("Colors:View", "BackgroundNormal") {
        Ok(c) => StyleRecord { inactive: WidgetStyle { bg_fill: c, ..r4.inactive }, ..r4 },
        Err(_) => r4,
    };
    let r6 = match ini.get_color("Colors:Button", "BackgroundNormal") {
        Ok(c) => StyleRecord { inactive: WidgetStyle { weak_bg_fill: c, ..r5.inactive }, ..r5 },
        Err(_) => r5,
    };
    let r7 = match ini.get_color("Colors:Button", "ForegroundNormal") {
        Ok(c) => StyleRecord { inactive: WidgetStyle { fg_stroke: Stroke::one(c), ..r6.inactive }, ..r6 },
        Err(_) => r6,
    };
    r7
}

#[verifier::rlimit(60)]
fn apply_kde_part2(ini: &IniData, rec: StyleRecord) -> (r: StyleRecord)
    ensures
        r == spec_kde_part2(rec, ini.view_entries()),
{
    let r8 = match ini.get_color("Colors:Button", "ForegroundInactive") {
        Ok(c) => StyleRecord { inactive: WidgetStyle { bg_stroke: Stroke::one(c), ..rec.inactive }, ..rec },
        Err(_) => rec,
    };
    let r9 = match ini.get_color("Colors:Button", "BackgroundNormal") {
        Ok(c) => StyleRecord { hovered: WidgetStyle { bg_fill: c, ..r8.hovered }, ..r8 },
        Err(_) => r8,
    };
    let r10 = match ini.get_color("Colors:Button", "BackgroundNormal") {
        Ok(c) => StyleRecord { hovered: WidgetStyle { weak_bg_fill: c, ..r9.hovered }, ..r9 },
        Err(_) => r9,
    };
    let r11 = match ini.get_color("Colors:Button", "ForegroundNormal") {
        Ok(c) => StyleRecord { hovered: WidgetStyle { fg_stroke: Stroke::one(c), ..r10.hovered }, ..r10 },
        Err(_) => r10,
    };
    let r12 = match ini.get_color("Colors:Button", "DecorationHover") {
        Ok(c) => StyleRecord { hovered: WidgetStyle { bg_stroke: Stroke::one(c), ..r11.hovered }, ..r11 },
        Err(_) => r11,
    };
    let r13 = match ini.get_color("Colors:Button", "BackgroundAlternate") {
        Ok(c) => StyleRecord { active: WidgetStyle { bg_fill: c, ..r12.active }, ..r12 },
        Err(_) => r12,
    };
    let r14 = match ini.get_color("Colors:Button", "BackgroundAlternate") {
        Ok(c) => StyleRecord { active: WidgetStyle { weak_bg_fill: c, ..r13.active }, ..r13 },
        Err(_) => r13,
    };
    let r15 = match ini.get_color("Colors:Button", "ForegroundNormal") {
        Ok(c) => StyleRecord { active: WidgetStyle { fg_stroke: Stroke::one(c), ..r14.active }, ..r14 },
        Err(_) => r14,
    };
    r15
}

#[verifier::rlimit(60)]
fn apply_kde_part3(ini: &IniData, rec: StyleRecord) -> (r: StyleRecord)
    ensures
        r == spec_kde_part3(rec, ini.view_entries()),
{
    let r16 = match ini.get_color("Colors:Button", "DecorationFocus") {
        Ok(c) => StyleRecord { active: WidgetStyle { bg_stroke: Stroke::one(c), ..rec.active }, ..rec },
        Err(_) => rec,
    };
    let r17 = match ini.get_color("Colors:Button", "BackgroundAlternate") {
        Ok(c) => StyleRecord { opened: WidgetStyle { bg_fill: c, ..r16.opened }, ..r16 },
        Err(_) => r16,
    };
    let r18 = match ini.get_color("Colors:Header", "BackgroundNormal") {
        Ok(c) => StyleRecord { opened: WidgetStyle { weak_bg_fill: c, ..r17.opened }, ..r17 },
        Err(_) => r17,
    };
    let r19 = match ini.get_color("Colors:Button", "ForegroundVisited") {
        Ok(c) => StyleRecord { opened: WidgetStyle { fg_stroke: Stroke::one(c), ..r18.opened }, ..r18 },
        Err(_) => r18,
    };
    let r20 = match ini.get_color("Colors:Button", "DecorationFocus") {
        Ok(c) => StyleRecord { opened: WidgetStyle { bg_stroke: Stroke::one(c), ..r19.opened }, ..r19 },
        Err(_) => r19,
    };
    let r21 = match ini.get_color("Colors:Button", "ForegroundLink") {
        Ok(c) => StyleRecord { hyperlink_color: c, ..r20 },
        Err(_) => r20,
    };
    let r22 = match ini.get_color("Colors:Window", "BackgroundNormal") {
        Ok(c) => StyleRecord { panel_fill: c, ..r21 },
        Err(_) => r21,
    };
    let r23 = match ini.get_color("WM", "inactiveBackground") {
        Ok(c) => StyleRecord { panel_fill: c, ..r22 },
        Err(_) => r22,
    };
    r23
}

#[verifier::rlimit(60)]
fn apply_kde_part4(ini: &IniData, rec: StyleRecord) -> (r: StyleRecord)
    ensures
        r == spec_kde_part4(rec, ini.view_entries()),
{
    let r24 = match ini.get_color("Colors:Window", "BackgroundNormal") {
        Ok(c) => StyleRecord { window_fill: c, ..rec },
        Err(_) => rec,
    };
    let r25 = match ini.get_color("ColorEffects:Inactive", "Color") {
        Ok(c) => StyleRecord { window_stroke: Stroke::one(c), ..r24 },
        Err(_) => r24,
    };
    let r26 = match ini.get_color("Colors:View", "BackgroundNormal") {
        Ok(c) => StyleRecord { code_bg_color: c, ..r25 },
        Err(_) => r25,
    };
    let r27 = match ini.get_color("Colors:View", "BackgroundNormal") {
        Ok(c) => StyleRecord { extreme_bg_color: c, ..r26 },
        Err(_) => r26,
    };
    let r28 = match ini.get_color("Colors:Tooltip", "BackgroundNormal") {
        Ok(c) => StyleRecord { faint_bg_color: c, ..r27 },
        Err(_) => r27,
    };
    let r29 = match ini.get_color("Colors:Selection", "BackgroundAlternate") {
        Ok(c) => StyleRecord { selection_bg_fill: c, ..r28 },
        Err(_) => r28,
    };
    let r30 = match ini.get_color("Colors:Selection", "ForegroundNormal") {
        Ok(c) => StyleRecord { selection_stroke: Stroke::one(c), ..r29 },
        Err(_) => r29,
    };
    r30
}

fn apply_kde(out: &mut StyleRecord, ini: &IniData, rec: StyleRecord)
    requires
        *old(out) == rec,
    ensures
        *final(out) == spec_style_kde(rec, ini.view_entries()),
{
    let r = apply_kde_part4(
        ini,
        apply_kde_part3(ini, apply_kde_part2(ini, apply_kde_part1(ini, rec))),
    );
    *out = StyleRecord {
        window_shadow: Shadow { dx: 0, dy: 10000, blur: 30000, spread: 10000, color: Rgba8 { r: 0, g: 0, b: 0, a: 50 } },
        popup_shadow: Shadow { dx: 0, dy: 10000, blur: 30000, spread: 10000, color: Rgba8 { r: 0, g: 0, b: 0, a: 50 } },
        window_rounding: Rounding { nw: 2000, ne: 2000, sw: 2000, se: 2000 },
        ..r
    };
}

} // verus!
