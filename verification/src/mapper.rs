//! The selector rule mapper: matches the fixed selector catalog against a
//! style rule and writes extracted properties into the style record, in
//! declaration and rule order. The last successful write for a field wins;
//! the `!important` flag deliberately does not alter priority.
use vstd::prelude::*;

use crate::ast::DeclarationV;
use crate::ast::Declaration;
use crate::ast::StyleRule;
use crate::ast::StyleRuleV;
use crate::color::Rgba8;
use crate::color::bytes_chars;
use crate::color::name_eq;
use crate::context::BorderBit;
use crate::context::GtkCssParseContext;
use crate::context::spec_extract_bg;
use crate::context::spec_extract_fg;
use crate::context::spec_extract_border;
use crate::context::spec_extract_shadow;
use crate::record::Stroke;
use crate::record::StyleRecord;
use crate::record::WidgetStyle;
use crate::record::spec_stroke_one;

verus! {

/// The selector catalog: which record fields a rule drives.
#[derive(Debug, Clone, Copy, PartialEq, Eq, Structural)]
pub enum SelKind {
    Background,
    Headerbar,
    Button,
    ButtonHover,
    ButtonActive,
    Selection,
    Entry,
    Window,
    Frame,
    Other,
}

/// Classifies one canonical selector text. Matching is exact and
/// case-sensitive.
pub open spec fn sel_kind(s: Seq<u8>) -> SelKind {
    let c = bytes_chars(s);
    if c == ".background"@ {
        SelKind::Background
    } else if c == "headerbar"@ {
        SelKind::Headerbar
    } else if c == "button"@ {
        SelKind::Button
    } else if c == "button:hover"@ {
        SelKind::ButtonHover
    } else if c == "button:active"@ {
        SelKind::ButtonActive
    } else if c == "selection"@ || c == "label selection"@ || c == "entry selection"@ || c
        == "entry > text > selection"@ || c == "label > selection"@ {
        SelKind::Selection
    } else if c == "entry"@ {
        SelKind::Entry
    } else if c == "window"@ {
        SelKind::Window
    } else if c == ".frame"@ {
        SelKind::Frame
    } else {
        SelKind::Other
    }
}

pub fn sel_kind_of(s: &Vec<u8>) -> (r: SelKind)
    ensures
        r == sel_kind(s@),
{
    if name_eq(s, ".background") {
        SelKind::Background
    } else if name_eq(s, "headerbar") {
        SelKind::Headerbar
    } else if name_eq(s, "button") {
        SelKind::Button
    } else if name_eq(s, "button:hover") {
        SelKind::ButtonHover
    } else if name_eq(s, "button:active") {
        SelKind::ButtonActive
    } else if name_eq(s, "selection") || name_eq(s, "label selection") || name_eq(
        s,
        "entry selection",
    ) || name_eq(s, "entry > text > selection") || name_eq(s, "label > selection") {
        SelKind::Selection
    } else if name_eq(s, "entry") {
        SelKind::Entry
    } else if name_eq(s, "window") {
        SelKind::Window
    } else if name_eq(s, ".frame") {
        SelKind::Frame
    } else {
        SelKind::Other
    }
}

// Field writers, each a small total function on the record.

pub open spec fn set_fg(w: WidgetStyle, c: Rgba8) -> WidgetStyle {
    WidgetStyle { fg_stroke: spec_stroke_one(c), ..w }
}

pub open spec fn set_bg(w: WidgetStyle, c: Rgba8) -> WidgetStyle {
    WidgetStyle { bg_fill: c, weak_bg_fill: c, ..w }
}

/// A border contribution on one widget slot: the colour or width of the
/// background stroke, or the rounding, leaving the other parts alone.
pub open spec fn set_border(w: WidgetStyle, b: BorderBit) -> WidgetStyle {
    match b {
        BorderBit::BColor(c) => WidgetStyle {
            bg_stroke: Stroke { color: c, ..w.bg_stroke },
            ..w
        },
        BorderBit::BWidth(width) => WidgetStyle {
            bg_stroke: Stroke { width, ..w.bg_stroke },
            ..w
        },
        BorderBit::BRadius(r) => WidgetStyle { rounding: r, ..w },
    }
}

/// What one declaration writes into the record under one catalog entry.
#[verifier::opaque]
pub open spec fn spec_apply_decl(
    kind: SelKind,
    env: Seq<(Seq<u8>, Rgba8)>,
    rec: StyleRecord,
    d: DeclarationV,
    dark: bool,
) -> StyleRecord {
    match kind {
        SelKind::Background => {
            let r1 = match spec_extract_bg(env, d, dark) {
                Some(c) => StyleRecord { panel_fill: c, window_fill: c, ..rec },
                None => rec,
            };
            match spec_extract_fg(env, d, dark) {
                Some(c) => StyleRecord { noninteractive: set_fg(r1.noninteractive, c), ..r1 },
                None => r1,
            }
        },
        SelKind::Headerbar => {
            let r1 = match spec_extract_bg(env, d, dark) {
                Some(c) => StyleRecord { opened: set_bg(rec.opened, c), faint_bg_color: c, ..rec },
                None => rec,
            };
            match spec_extract_fg(env, d, dark) {
                Some(c) => StyleRecord { opened: set_fg(r1.opened, c), ..r1 },
                None => r1,
            }
        },
        SelKind::Button => {
            let r1 = match spec_extract_bg(env, d, dark) {
                Some(c) => StyleRecord {
                    inactive: set_bg(rec.inactive, c),
                    hovered: set_bg(rec.hovered, c),
                    active: set_bg(rec.active, c),
                    ..rec
                },
                None => rec,
            };
            let r2 = match spec_extract_fg(env, d, dark) {
                Some(c) => StyleRecord {
                    inactive: set_fg(r1.inactive, c),
                    hovered: set_fg(r1.hovered, c),
                    active: set_fg(r1.active, c),
                    ..r1
                },
                None => r1,
            };
            match spec_extract_border(env, d, dark) {
                Some(b) => StyleRecord {
                    inactive: set_border(r2.inactive, b),
                    hovered: set_border(r2.hovered, b),
                    active: set_border(r2.active, b),
                    ..r2
                },
                None => r2,
            }
        },
        SelKind::ButtonHover => {
            let r1 = match spec_extract_bg(env, d, dark) {
                Some(c) => StyleRecord { hovered: set_bg(rec.hovered, c), ..rec },
                None => rec,
            };
            let r2 = match spec_extract_fg(env, d, dark) {
                Some(c) => StyleRecord { hovered: set_fg(r1.hovered, c), ..r1 },
                None => r1,
            };
            match spec_extract_border(env, d, dark) {
                Some(b) => StyleRecord { hovered: set_border(r2.hovered, b), ..r2 },
                None => r2,
            }
        },
        SelKind::ButtonActive => {
            let r1 = match spec_extract_bg(env, d, dark) {
                Some(c) => StyleRecord { active: set_bg(rec.active, c), ..rec },
                None => rec,
            };
            let r2 = match spec_extract_fg(env, d, dark) {
                Some(c) => StyleRecord { active: set_fg(r1.active, c), ..r1 },
                None => r1,
            };
            match spec_extract_border(env, d, dark) {
                Some(b) => StyleRecord {
                    active: set_border(r2.active, b),
                    opened: set_border(r2.opened, b),
                    ..r2
                },
                None => r2,
            }
        },
        SelKind::Selection => {
            let r1 = match spec_extract_bg(env, d, dark) {
                Some(c) => StyleRecord { selection_bg_fill: c, hyperlink_color: c, ..rec },
                None => rec,
            };
            match spec_extract_fg(env, d, dark) {
                Some(c) => StyleRecord { selection_stroke: spec_stroke_one(c), ..r1 },
                None => r1,
            }
        },
        SelKind::Entry => {
            match spec_extract_bg(env, d, dark) {
                Some(c) => StyleRecord { code_bg_color: c, extreme_bg_color: c, ..rec },
                None => rec,
            }
        },
        SelKind::Window => {
            let r1 = match spec_extract_shadow(d, dark) {
                Some(s) => StyleRecord { window_shadow: s, ..rec },
                None => rec,
            };
            match spec_extract_border(env, d, dark) {
                Some(b) => match b {
                    BorderBit::BColor(c) => StyleRecord {
                        window_stroke: Stroke { color: c, ..r1.window_stroke },
                        ..r1
                    },
                    BorderBit::BWidth(width) => StyleRecord {
                        window_stroke: Stroke { width, ..r1.window_stroke },
                        ..r1
                    },
                    BorderBit::BRadius(r) => StyleRecord { window_rounding: r, ..r1 },
                },
                None => r1,
            }
        },
        SelKind::Frame => {
            match spec_extract_border(env, d, dark) {
                Some(b) => StyleRecord { noninteractive: set_border(rec.noninteractive, b), ..rec },
                None => rec,
            }
        },
        SelKind::Other => rec,
    }
}

/// The declarations of a rule, applied left to right.
pub open spec fn spec_apply_decls(
    kind: SelKind,
    env: Seq<(Seq<u8>, Rgba8)>,
    rec: StyleRecord,
    decls: Seq<DeclarationV>,
    i: int,
    dark: bool,
) -> StyleRecord
    decreases decls.len() - i when 0 <= i
{
    if i < decls.len() {
        spec_apply_decls(kind, env, spec_apply_decl(kind, env, rec, decls[i], dark), decls, i + 1, dark)
    } else {
        rec
    }
}

/// The selectors of a rule, applied left to right, each walking all the
/// rule's declarations.
pub open spec fn spec_apply_sels(
    env: Seq<(Seq<u8>, Rgba8)>,
    rec: StyleRecord,
    sels: Seq<Seq<u8>>,
    decls: Seq<DeclarationV>,
    i: int,
    dark: bool,
) -> StyleRecord
    decreases sels.len() - i when 0 <= i
{
    if i < sels.len() {
        spec_apply_sels(
            env,
            spec_apply_decls(sel_kind(sels[i]), env, rec, decls, 0, dark),
            sels,
            decls,
            i + 1,
            dark,
        )
    } else {
        rec
    }
}

/// What one whole style rule does to the record.
pub open spec fn spec_apply_rule(
    env: Seq<(Seq<u8>, Rgba8)>,
    rec: StyleRecord,
    rule: StyleRuleV,
    dark: bool,
) -> StyleRecord {
    spec_apply_sels(env, rec, rule.selectors, rule.decls, 0, dark)
}

fn apply_decl(
    ctx: &GtkCssParseContext,
    kind: SelKind,
    rec: StyleRecord,
    d: &Declaration,
    dark: bool,
) -> (r: StyleRecord)
    ensures
        r == spec_apply_decl(kind, ctx.env(), rec, d@, dark),
{
    proof {
        reveal(spec_apply_decl);
    }
    match kind {
        SelKind::Background => {
            let r1 = match ctx.extract_background_color(d, dark) {
                Some(c) => StyleRecord { panel_fill: c, window_fill: c, ..rec },
                None => rec,
            };
            match ctx.extract_foreground_color(d, dark) {
                Some(c) => StyleRecord {
                    noninteractive: WidgetStyle {
                        fg_stroke: Stroke::one(c),
                        ..r1.noninteractive
                    },
                    ..r1
                },
                None => r1,
            }
        },
        SelKind::Headerbar => {
            let r1 = match ctx.extract_background_color(d, dark) {
                Some(c) => StyleRecord {
                    opened: WidgetStyle { bg_fill: c, weak_bg_fill: c, ..rec.opened },
                    faint_bg_color: c,
                    ..rec
                },
                None => rec,
            };
            match ctx.extract_foreground_color(d, dark) {
                Some(c) => StyleRecord {
                    opened: WidgetStyle { fg_stroke: Stroke::one(c), ..r1.opened },
                    ..r1
                },
                None => r1,
            }
        },
        SelKind::Button => {
            let r1 = match ctx.extract_background_color(d, dark) {
                Some(c) => StyleRecord {
                    inactive: WidgetStyle { bg_fill: c, weak_bg_fill: c, ..rec.inactive },
                    hovered: WidgetStyle { bg_fill: c, weak_bg_fill: c, ..rec.hovered },
                    active: WidgetStyle { bg_fill: c, weak_bg_fill: c, ..rec.active },
                    ..rec
                },
                None => rec,
            };
            let r2 = match ctx.extract_foreground_color(d, dark) {
                Some(c) => StyleRecord {
                    inactive: WidgetStyle { fg_stroke: Stroke::one(c), ..r1.inactive },
                    hovered: WidgetStyle { fg_stroke: Stroke::one(c), ..r1.hovered },
                    active: WidgetStyle { fg_stroke: Stroke::one(c), ..r1.active },
                    ..r1
                },
                None => r1,
            };
            match ctx.extract_border(d, dark) {
                Some(b) => StyleRecord {
                    inactive: apply_border(r2.inactive, &b),
                    hovered: apply_border(r2.hovered, &b),
                    active: apply_border(r2.active, &b),
                    ..r2
                },
                None => r2,
            }
        },
        SelKind::ButtonHover => {
            let r1 = match ctx.extract_background_color(d, dark) {
                Some(c) => StyleRecord {
                    hovered: WidgetStyle { bg_fill: c, weak_bg_fill: c, ..rec.hovered },
                    ..rec
                },
                None => rec,
            };
            let r2 = match ctx.extract_foreground_color(d, dark) {
                Some(c) => StyleRecord {
                    hovered: WidgetStyle { fg_stroke: Stroke::one(c), ..r1.hovered },
                    ..r1
                },
                None => r1,
            };
            match ctx.extract_border(d, dark) {
                Some(b) => StyleRecord { hovered: apply_border(r2.hovered, &b), ..r2 },
                None => r2,
            }
        },
        SelKind::ButtonActive => {
            let r1 = match ctx.extract_background_color(d, dark) {
                Some(c) => StyleRecord {
                    active: WidgetStyle { bg_fill: c, weak_bg_fill: c, ..rec.active },
                    ..rec
                },
                None => rec,
            };
            let r2 = match ctx.extract_foreground_color(d, dark) {
                Some(c) => StyleRecord {
                    active: WidgetStyle { fg_stroke: Stroke::one(c), ..r1.active },
                    ..r1
                },
                None => r1,
            };
            match ctx.extract_border(d, dark) {
                Some(b) => StyleRecord {
                    active: apply_border(r2.active, &b),
                    opened: apply_border(r2.opened, &b),
                    ..r2
                },
                None => r2,
            }
        },
        SelKind::Selection => {
            let r1 = match ctx.extract_background_color(d, dark) {
                Some(c) => StyleRecord { selection_bg_fill: c, hyperlink_color: c, ..rec },
                None => rec,
            };
            match ctx.extract_foreground_color(d, dark) {
                Some(c) => StyleRecord { selection_stroke: Stroke::one(c), ..r1 },
                None => r1,
            }
        },
        SelKind::Entry => {
            match ctx.extract_background_color(d, dark) {
                Some(c) => StyleRecord { code_bg_color: c, extreme_bg_color: c, ..rec },
                None => rec,
            }
        },
        SelKind::Window => {
            let r1 = match ctx.extract_shadow(d, dark) {
                Some(s) => StyleRecord { window_shadow: s, ..rec },
                None => rec,
            };
            match ctx.extract_border(d, dark) {
                Some(b) => {
                    match b {
                        BorderBit::BColor(c) => StyleRecord {
                            window_stroke: Stroke { color: c, ..r1.window_stroke },
                            ..r1
                        },
                        BorderBit::BWidth(width) => StyleRecord {
                            window_stroke: Stroke { width, ..r1.window_stroke },
                            ..r1
                        },
                        BorderBit::BRadius(r) => StyleRecord { window_rounding: r, ..r1 },
                    }
                },
                None => r1,
            }
        },
        SelKind::Frame => {
            match ctx.extract_border(d, dark) {
                Some(b) => StyleRecord {
                    noninteractive: apply_border(rec.noninteractive, &b),
                    ..rec
                },
                None => rec,
            }
        },
        SelKind::Other => rec,
    }
}

fn apply_border(w: WidgetStyle, b: &BorderBit) -> (r: WidgetStyle)
    ensures
        r == set_border(w, *b),
{
    match b {
        BorderBit::BColor(c) => WidgetStyle { bg_stroke: Stroke { color: *c, ..w.bg_stroke }, ..w },
        BorderBit::BWidth(width) => WidgetStyle {
            bg_stroke: Stroke { width: *width, ..w.bg_stroke },
            ..w
        },
        BorderBit::BRadius(r) => WidgetStyle { rounding: *r, ..w },
    }
}

/// Applies one style rule to the record: every matched selector walks the
/// declarations in order, writing the fields its catalog entry drives.
pub fn apply_rule(
    ctx: &GtkCssParseContext,
    rec: &mut StyleRecord,
    rule: &StyleRule,
    dark: bool,
)
    ensures
        *final(rec) == spec_apply_rule(ctx.env(), *old(rec), rule@, dark),
{
    let ghost sels = crate::ast::sels_view(rule.selectors@);
    let ghost decls = crate::ast::decls_view(rule.decls@);
    let mut cur: StyleRecord = *rec;
    let mut si: usize = 0;
    proof {
        assert(sels.len() == rule.selectors@.len());
        assert(decls.len() == rule.decls@.len());
    }
    while si < rule.selectors.len()
        invariant
            si <= rule.selectors@.len(),
            sels == crate::ast::sels_view(rule.selectors@),
            decls == crate::ast::decls_view(rule.decls@),
            sels.len() == rule.selectors@.len(),
            decls.len() == rule.decls@.len(),
            spec_apply_sels(ctx.env(), *old(rec), sels, decls, 0, dark) == spec_apply_sels(
                ctx.env(),
                cur,
                sels,
                decls,
                si as int,
                dark,
            ),
        decreases rule.selectors@.len() - si,
    {
        proof {
            assert(sels[si as int] == rule.selectors@[si as int]@);
        }
        let kind = sel_kind_of(&rule.selectors[si]);
        let mut di: usize = 0;
        let ghost before = cur;
        while di < rule.decls.len()
            invariant
                di <= rule.decls@.len(),
                decls == crate::ast::decls_view(rule.decls@),
                decls.len() == rule.decls@.len(),
                kind == sel_kind(sels[si as int]),
                si < rule.selectors@.len(),
                spec_apply_decls(kind, ctx.env(), before, decls, 0, dark) == spec_apply_decls(
                    kind,
                    ctx.env(),
                    cur,
                    decls,
                    di as int,
                    dark,
                ),
            decreases rule.decls@.len() - di,
        {
            proof {
                assert(decls[di as int] == rule.decls@[di as int]@);
            }
            cur = apply_decl(ctx, kind, cur, &rule.decls[di], dark);
            di += 1;
        }
        si += 1;
    }
    *rec = cur;
}

/// Using a variable before any binding leaves every field alone: the
/// declaration is skipped, not an error.
pub proof fn lemma_forward_reference(
    kind: SelKind,
    env: Seq<(Seq<u8>, Rgba8)>,
    rec: StyleRecord,
    d: DeclarationV,
    dark: bool,
)
    requires
        d.value.len() == 1,
        d.value[0] is AtKeyword,
        crate::context::spec_resolve(env, d.value[0]->AtKeyword_0) is None,
    ensures
        spec_apply_decl(kind, env, rec, d, dark) == rec,
{
    reveal(spec_apply_decl);
    lemma_at_value_extracts_nothing(env, d, dark);
}

/// A value that is one unresolved at-keyword yields nothing from any
/// extractor.
proof fn lemma_at_value_extracts_nothing(
    env: Seq<(Seq<u8>, Rgba8)>,
    d: DeclarationV,
    dark: bool,
)
    requires
        d.value.len() == 1,
        d.value[0] is AtKeyword,
        crate::context::spec_resolve(env, d.value[0]->AtKeyword_0) is None,
    ensures
        crate::context::spec_value_color(env, d.value, dark) is None,
        spec_extract_bg(env, d, dark) is None,
        spec_extract_fg(env, d, dark) is None,
        spec_extract_border(env, d, dark) is None,
        spec_extract_shadow(d, dark) is None,
{
    let ts = d.value;
    reveal(crate::context::spec_eval);
    assert(crate::spaces::parse_color_at(ts, 0, true) is None);
    assert(crate::context::spec_eval(env, ts, 0, dark, crate::context::value_fuel(ts.len()))
        is None);
    assert(crate::context::spec_eval(env, ts, 1, dark, crate::context::value_fuel(ts.len()))
        is None);
    assert(crate::context::scan_color(env, ts, 1, dark) is None);
    assert(crate::context::scan_color(env, ts, 0, dark) is None);
    assert(crate::context::scan_width(ts, 1) is None);
    assert(crate::context::scan_width(ts, 0) is None);
    assert(crate::context::collect_radii(ts, 0) =~= Seq::<int>::empty());
    assert(crate::context::shadow_walk(ts, 0, Seq::empty(), None, dark) is None);
}

/// Of two `.background` rules in sequence, the later background colour
/// wins: whatever record the first left behind, a declaration whose
/// background colour extracts to `c` pins the panel and window fills.
pub proof fn lemma_rule_override(
    env: Seq<(Seq<u8>, Rgba8)>,
    rec: StyleRecord,
    d: DeclarationV,
    dark: bool,
    c: Rgba8,
)
    requires
        spec_extract_bg(env, d, dark) == Some(c),
    ensures
        spec_apply_decl(SelKind::Background, env, rec, d, dark).panel_fill == c,
        spec_apply_decl(SelKind::Background, env, rec, d, dark).window_fill == c,
{
    reveal(spec_apply_decl);
}

} // verus!
