//! The colour environment built from `@define-color` rules, and the
//! expression evaluator over unparsed declaration values.
use vstd::prelude::*;

use crate::ast::Declaration;
use crate::ast::DeclarationV;
use crate::color::Rgba8;
use crate::color::bytes_chars;
use crate::color::clamp_factor;
use crate::color::name_eq;
use crate::color::spec_mix;
use crate::convert::spec_convert;
use crate::convert::convert;
use crate::record::Rounding;
use crate::record::Shadow;
use crate::record::spec_rounding_same;
use crate::spaces::ColorSpec;
use crate::spaces::byte_of_frac;
use crate::spaces::byte_from_frac;
use crate::spaces::clamp_arg;
use crate::spaces::spec_hex_color;
use crate::spaces::hex_color;
use crate::spaces::spec_word;
use crate::spaces::word_color;
use crate::spaces::parse_color_at;
use crate::spaces::parse_color_toks;
use crate::token::Token;
use crate::token::TokenV;
use crate::token::toks_view;

verus! {

/// The result of evaluating a value expression: a colour or a number,
/// never both. Numbers are in thousandths.
#[derive(Debug, Clone, Copy, PartialEq, Eq, Structural)]
pub enum CssValue {
    Color(Rgba8),
    Number(i64),
}

/// The ordered table of custom colour bindings. A redefinition is a new
/// entry; lookup walks from the newest entry back, so the latest binding
/// wins and a name used before any binding resolves to nothing.
pub struct GtkCssParseContext {
    pub defined_colors: Vec<(Vec<u8>, Rgba8)>,
}

pub open spec fn env_view(v: Seq<(Vec<u8>, Rgba8)>) -> Seq<(Seq<u8>, Rgba8)> {
    v.map_values(|p: (Vec<u8>, Rgba8)| (p.0@, p.1))
}

/// The binding in force for `name`: the latest entry with that name.
pub open spec fn spec_resolve(env: Seq<(Seq<u8>, Rgba8)>, name: Seq<u8>) -> Option<Rgba8>
    decreases env.len(),
{
    if env.len() == 0 {
        None
    } else if env.last().0 == name {
        Some(env.last().1)
    } else {
        spec_resolve(env.drop_last(), name)
    }
}

impl GtkCssParseContext {
    pub open spec fn env(&self) -> Seq<(Seq<u8>, Rgba8)> {
        env_view(self.defined_colors@)
    }

    /// An empty environment.
    pub fn new() -> (r: GtkCssParseContext)
        ensures
            r.env() == Seq::<(Seq<u8>, Rgba8)>::empty(),
    {
        let r = GtkCssParseContext { defined_colors: Vec::new() };
        proof {
            assert(r.env() =~= Seq::<(Seq<u8>, Rgba8)>::empty());
        }
        r
    }

    /// Adds or overwrites a binding.
    pub fn define(&mut self, name: Vec<u8>, color: Rgba8)
        ensures
            final(self).env() == old(self).env().push((name@, color)),
    {
        let ghost pre = self.defined_colors@;
        self.defined_colors.push((name, color));
        proof {
            assert(final(self).env() =~= env_view(pre).push((name@, color)));
        }
    }

    /// Looks up the binding in force.
    pub fn resolve(&self, name: &Vec<u8>) -> (r: Option<Rgba8>)
        ensures
            r == spec_resolve(self.env(), name@),
    {
        let n = self.defined_colors.len();
        proof {
            assert(self.env().len() == n);
            assert(self.env().take(n as int) =~= self.env());
        }
        let mut k = n;
        while k > 0
            invariant
                k <= n,
                n == self.defined_colors@.len(),
                self.env().len() == n,
                forall|x: int| 0 <= x < n ==> self.env()[x] == (
                    self.defined_colors@[x].0@,
                    self.defined_colors@[x].1,
                ),
                spec_resolve(self.env(), name@) == spec_resolve(
                    self.env().take(k as int),
                    name@,
                ),
            decreases k,
        {
            proof {
                assert(self.env().take(n as int) =~= self.env());
            }
            k -= 1;
            proof {
                assert(self.env().take(k as int + 1).last() == self.env()[k as int]);
                assert(self.env().take(k as int + 1).drop_last() =~= self.env().take(k as int));
            }
            let entry_matches = bytes_eq(&self.defined_colors[k].0, name);
            if entry_matches {
                return Some(self.defined_colors[k].1);
            }
        }
        proof {
            assert(self.env().take(0) =~= Seq::<(Seq<u8>, Rgba8)>::empty());
        }
        None
    }
}

/// Byte-string equality.
pub fn bytes_eq(a: &Vec<u8>, b: &Vec<u8>) -> (r: bool)
    ensures
        r <==> a@ == b@,
{
    if a.len() != b.len() {
        proof {
            assert(a@.len() != b@.len());
        }
        return false;
    }
    let mut i: usize = 0;
    while i < a.len()
        invariant
            i <= a@.len(),
            a@.len() == b@.len(),
            forall|k: int| 0 <= k < i ==> a@[k] == b@[k],
        decreases a@.len() - i,
    {
        if a[i] != b[i] {
            return false;
        }
        i += 1;
    }
    proof {
        assert(a@ =~= b@);
    }
    true
}

/// Redefinition: after a second binding of the same name, the newest one
/// is what lookup returns.
pub proof fn lemma_redefine(env: Seq<(Seq<u8>, Rgba8)>, name: Seq<u8>, c: Rgba8)
    ensures
        spec_resolve(env.push((name, c)), name) == Some(c),
{
    assert(env.push((name, c)).last() == (name, c));
}

/// A name that no entry binds resolves to nothing, whatever else is bound.
pub proof fn lemma_unbound(env: Seq<(Seq<u8>, Rgba8)>, name: Seq<u8>)
    requires
        forall|i: int| 0 <= i < env.len() ==> env[i].0 != name,
    ensures
        spec_resolve(env, name) is None,
    decreases env.len(),
{
    if env.len() > 0 {
        assert(env.last() == env[env.len() - 1]);
        assert(env.drop_last() =~= env.take(env.len() - 1));
        lemma_unbound(env.drop_last(), name);
    }
}

// --- the expression evaluator ---

pub open spec fn e_skip_sep_sp(ts: Seq<TokenV>, i: int) -> int {
    crate::spaces::skip_sep(ts, i)
}

/// Evaluates the expression starting at `i`: an at-keyword reference, a
/// table keyword, a numeric literal, one of the functions `mix`,
/// `linear-gradient` and `alpha`, or a colour literal. Unsupported forms
/// yield nothing. `fuel` bounds the recursion; callers pass more fuel
/// than any token sequence can consume.
#[verifier::opaque]
pub open spec fn spec_eval(
    env: Seq<(Seq<u8>, Rgba8)>,
    ts: Seq<TokenV>,
    i: int,
    dark: bool,
    fuel: nat,
) -> Option<(CssValue, int)>
    decreases fuel, 0int,
{
    if fuel == 0 || !(0 <= i < ts.len()) {
        None
    } else {
        match ts[i] {
            TokenV::AtKeyword(n) => match spec_resolve(env, n) {
                Some(c) => Some((CssValue::Color(c), i + 1)),
                None => None,
            },
            TokenV::Ident(n) => match spec_word(bytes_chars(n)) {
                Some(c) => Some((CssValue::Color(c), i + 1)),
                None => None,
            },
            TokenV::Number(v) => Some((CssValue::Number(clamp_arg(v) as i64), i + 1)),
            TokenV::Percentage(v) => Some((CssValue::Number(clamp_arg(v) as i64), i + 1)),
            TokenV::Hash(h) => match spec_hex_color(h) {
                Some(c) => Some((CssValue::Color(c), i + 1)),
                None => None,
            },
            TokenV::Function(name) => {
                let nm = bytes_chars(name);
                if nm == "mix"@ {
                    match spec_eval(env, ts, i + 1, dark, (fuel - 1) as nat) {
                        Some((CssValue::Color(c1), j1)) => match spec_eval(
                            env,
                            ts,
                            e_skip_sep_sp(ts, j1),
                            dark,
                            (fuel - 1) as nat,
                        ) {
                            Some((CssValue::Color(c2), j2)) => match spec_eval(
                                env,
                                ts,
                                e_skip_sep_sp(ts, j2),
                                dark,
                                (fuel - 1) as nat,
                            ) {
                                Some((CssValue::Number(t), j3)) => if 0 <= j3 < ts.len() && ts[j3]
                                    is RParen {
                                    Some(
                                        (
                                            CssValue::Color(spec_mix(c1, c2, clamp_factor(t as int))),
                                            j3 + 1,
                                        ),
                                    )
                                } else {
                                    None
                                },
                                _ => None,
                            },
                            _ => None,
                        },
                        _ => None,
                    }
                } else if nm == "linear-gradient"@ {
                    match gradient_dir_end(ts, i + 1, 0) {
                        None => None,
                        Some(d) => match spec_stops(env, ts, d + 1, dark, (fuel - 1) as nat) {
                            None => None,
                            Some((colors, j)) => if colors.len() >= 1 {
                                Some(
                                    (CssValue::Color(colors[colors.len() as int / 2]), j),
                                )
                            } else {
                                None
                            },
                        },
                    }
                } else if nm == "alpha"@ {
                    match spec_eval(env, ts, i + 1, dark, (fuel - 1) as nat) {
                        Some((CssValue::Color(c), j1)) => match spec_eval(
                            env,
                            ts,
                            e_skip_sep_sp(ts, j1),
                            dark,
                            (fuel - 1) as nat,
                        ) {
                            Some((CssValue::Number(a), j2)) => if 0 <= j2 < ts.len() && ts[j2]
                                is RParen {
                                Some(
                                    (
                                        CssValue::Color(
                                            Rgba8 {
                                                r: c.r,
                                                g: c.g,
                                                b: c.b,
                                                a: byte_of_frac(a as int),
                                            },
                                        ),
                                        j2 + 1,
                                    ),
                                )
                            } else {
                                None
                            },
                            _ => None,
                        },
                        _ => None,
                    }
                } else {
                    match parse_color_at(ts, i, true) {
                        Some((cs, j)) => Some((CssValue::Color(spec_convert(cs, dark)), j)),
                        None => None,
                    }
                }
            },
            _ => match parse_color_at(ts, i, true) {
                Some((cs, j)) => Some((CssValue::Color(spec_convert(cs, dark)), j)),
                None => None,
            },
        }
    }
}

pub open spec fn spec_eval_color(
    env: Seq<(Seq<u8>, Rgba8)>,
    ts: Seq<TokenV>,
    i: int,
    dark: bool,
    fuel: nat,
) -> Option<(Rgba8, int)> {
    match spec_eval(env, ts, i, dark, fuel) {
        Some((CssValue::Color(c), j)) => Some((c, j)),
        _ => None,
    }
}

pub open spec fn spec_eval_number(
    env: Seq<(Seq<u8>, Rgba8)>,
    ts: Seq<TokenV>,
    i: int,
    dark: bool,
    fuel: nat,
) -> Option<(i64, int)> {
    match spec_eval(env, ts, i, dark, fuel) {
        Some((CssValue::Number(v), j)) => Some((v, j)),
        _ => None,
    }
}

/// The position of the comma ending a gradient's direction argument.
pub open spec fn gradient_dir_end(ts: Seq<TokenV>, i: int, d: int) -> Option<int>
    decreases ts.len() - i when 0 <= i
{
    if !(0 <= i < ts.len()) {
        None
    } else if ts[i] is Comma && d == 0 {
        Some(i)
    } else if ts[i] is RParen && d == 0 {
        None
    } else if crate::ast::opens_paren(ts[i]) {
        gradient_dir_end(ts, i + 1, d + 1)
    } else if ts[i] is RParen {
        gradient_dir_end(ts, i + 1, d - 1)
    } else {
        gradient_dir_end(ts, i + 1, d)
    }
}

/// A gradient stop colour: a variable reference, a table keyword, or a
/// literal colour. Stops do not nest further evaluation.
pub open spec fn spec_stop_color(
    env: Seq<(Seq<u8>, Rgba8)>,
    ts: Seq<TokenV>,
    i: int,
    dark: bool,
) -> Option<(Rgba8, int)> {
    if !(0 <= i < ts.len()) {
        None
    } else {
        match ts[i] {
            TokenV::AtKeyword(n) => match spec_resolve(env, n) {
                Some(c) => Some((c, i + 1)),
                None => None,
            },
            TokenV::Ident(n) => match spec_word(bytes_chars(n)) {
                Some(c) => Some((c, i + 1)),
                None => None,
            },
            _ => match parse_color_at(ts, i, true) {
                Some((cs, j)) => Some((spec_convert(cs, dark), j)),
                None => None,
            },
        }
    }
}

/// A stop weight: a plain numeric token.
pub open spec fn spec_stop_weight(ts: Seq<TokenV>, i: int) -> Option<int> {
    if 0 <= i < ts.len() {
        match ts[i] {
            TokenV::Number(v) => Some(clamp_arg(v)),
            TokenV::Percentage(v) => Some(clamp_arg(v)),
            _ => None,
        }
    } else {
        None
    }
}

/// The gradient's colour stops: pairs of a colour and a weight, comma
/// separated, ending at the closing parenthesis.
pub open spec fn spec_stops(
    env: Seq<(Seq<u8>, Rgba8)>,
    ts: Seq<TokenV>,
    i: int,
    dark: bool,
    fuel: nat,
) -> Option<(Seq<Rgba8>, int)>
    decreases fuel,
{
    if fuel == 0 {
        None
    } else {
        match spec_stop_color(env, ts, i, dark) {
            None => None,
            Some((c, j1)) => match spec_stop_weight(ts, j1) {
                None => None,
                Some(w) => {
                    let j2 = j1 + 1;
                    if 0 <= j2 < ts.len() && ts[j2] is RParen {
                        Some((seq![c], j2 + 1))
                    } else if 0 <= j2 < ts.len() && ts[j2] is Comma {
                        match spec_stops(env, ts, j2 + 1, dark, (fuel - 1) as nat) {
                            None => None,
                            Some((rest, k)) => Some((seq![c] + rest, k)),
                        }
                    } else {
                        None
                    }
                },
            },
        }
    }
}

pub proof fn lemma_gradient_dir_end(ts: Seq<TokenV>, i: int, d: int)
    requires
        0 <= i <= ts.len(),
    ensures
        match gradient_dir_end(ts, i, d) {
            Some(e) => i <= e < ts.len(),
            None => true,
        },
    decreases ts.len() - i,
{
    if 0 <= i && i < ts.len() && !(ts[i] is Comma && d == 0) && !(ts[i] is RParen && d == 0) {
        if crate::ast::opens_paren(ts[i]) {
            lemma_gradient_dir_end(ts, i + 1, d + 1);
        } else if ts[i] is RParen {
            lemma_gradient_dir_end(ts, i + 1, d - 1);
        } else {
            lemma_gradient_dir_end(ts, i + 1, d);
        }
    }
}


// --- executable evaluator ---

impl GtkCssParseContext {
    /// Evaluates the expression at `i`.
    pub fn eval_at(&self, ts: &Vec<Token>, i: usize, dark: bool, fuel: usize) -> (r: Option<
        (CssValue, usize),
    >)
        requires
            i <= ts@.len(),
        ensures
            match r {
                Some((v, j)) => spec_eval(self.env(), toks_view(ts@), i as int, dark, fuel as nat)
                    == Some((v, j as int)) && i < j <= ts@.len(),
                None => spec_eval(self.env(), toks_view(ts@), i as int, dark, fuel as nat) is None,
            },
        decreases fuel, 0int,
    {
        proof {
            reveal(spec_eval);
            reveal_with_fuel(spec_stops, 2);
            assert(toks_view(ts@).len() == ts@.len());
            if (i as int) < ts@.len() {
                assert(toks_view(ts@)[i as int] == ts@[i as int]@);
            }
        }
        if fuel == 0 || i >= ts.len() {
            return None;
        }
        match &ts[i] {
            Token::AtKeyword(n) => {
                match self.resolve(n) {
                    Some(c) => Some((CssValue::Color(c), i + 1)),
                    None => None,
                }
            },
            Token::Ident(n) => {
                match word_color(n) {
                    Some(c) => Some((CssValue::Color(c), i + 1)),
                    None => None,
                }
            },
            Token::Number(v) => Some((CssValue::Number(crate::spaces::e_clamp_pub(*v)), i + 1)),
            Token::Percentage(v) => Some((CssValue::Number(crate::spaces::e_clamp_pub(*v)), i + 1)),
            Token::Hash(h) => {
                match hex_color(h) {
                    Some(c) => Some((CssValue::Color(c), i + 1)),
                    None => None,
                }
            },
            Token::Function(name) => {
                if name_eq(name, "mix") {
                    match self.eval_color(ts, i + 1, dark, fuel - 1) {
                        None => None,
                        Some((c1, j1)) => {
                            let s1 = crate::spaces::e_skip_sep(ts, j1);
                            match self.eval_color(ts, s1, dark, fuel - 1) {
                                None => None,
                                Some((c2, j2)) => {
                                    let s2 = crate::spaces::e_skip_sep(ts, j2);
                                    match self.eval_number(ts, s2, dark, fuel - 1) {
                                        None => None,
                                        Some((t, j3)) => {
                                            proof {
                                                if (j3 as int) < ts@.len() {
                                                    assert(toks_view(ts@)[j3 as int]
                                                        == ts@[j3 as int]@);
                                                }
                                            }
                                            if j3 < ts.len() {
                                                let rp = match &ts[j3] {
                                                    Token::RParen => true,
                                                    _ => false,
                                                };
                                                if rp {
                                                    let tc: i64 = if t < -1000000 {
                                                        -1000000
                                                    } else if t > 1000000 {
                                                        1000000
                                                    } else {
                                                        t
                                                    };
                                                    Some(
                                                        (
                                                            CssValue::Color(
                                                                crate::color::mix(c1, c2, tc),
                                                            ),
                                                            j3 + 1,
                                                        ),
                                                    )
                                                } else {
                                                    None
                                                }
                                            } else {
                                                None
                                            }
                                        },
                                    }
                                },
                            }
                        },
                    }
                } else if name_eq(name, "linear-gradient") {
                    match self.grad_dir_end(ts, i + 1) {
                        None => None,
                        Some(d) => {
                            match self.eval_stops(ts, d + 1, dark, fuel - 1) {
                                None => None,
                                Some((colors, j)) => {
                                    if colors.len() >= 1 {
                                        Some((CssValue::Color(colors[colors.len() / 2]), j))
                                    } else {
                                        None
                                    }
                                },
                            }
                        },
                    }
                } else if name_eq(name, "alpha") {
                    match self.eval_color(ts, i + 1, dark, fuel - 1) {
                        None => None,
                        Some((c, j1)) => {
                            let s1 = crate::spaces::e_skip_sep(ts, j1);
                            match self.eval_number(ts, s1, dark, fuel - 1) {
                                None => None,
                                Some((a, j2)) => {
                                    proof {
                                        if (j2 as int) < ts@.len() {
                                            assert(toks_view(ts@)[j2 as int] == ts@[j2 as int]@);
                                        }
                                    }
                                    if j2 < ts.len() {
                                        let rp = match &ts[j2] {
                                            Token::RParen => true,
                                            _ => false,
                                        };
                                        if rp {
                                            Some(
                                                (
                                                    CssValue::Color(
                                                        Rgba8 {
                                                            r: c.r,
                                                            g: c.g,
                                                            b: c.b,
                                                            a: byte_from_frac(a),
                                                        },
                                                    ),
                                                    j2 + 1,
                                                ),
                                            )
                                        } else {
                                            None
                                        }
                                    } else {
                                        None
                                    }
                                },
                            }
                        },
                    }
                } else {
                    match parse_color_toks(ts, i) {
                        Some((cs, j)) => Some((CssValue::Color(convert(&cs, dark)), j)),
                        None => None,
                    }
                }
            },
            _ => {
                match parse_color_toks(ts, i) {
                    Some((cs, j)) => Some((CssValue::Color(convert(&cs, dark)), j)),
                    None => None,
                }
            },
        }
    }

    #[verifier::rlimit(100)]
    fn eval_color(&self, ts: &Vec<Token>, i: usize, dark: bool, fuel: usize) -> (r: Option<
        (Rgba8, usize),
    >)
        requires
            i <= ts@.len(),
        ensures
            match r {
                Some((c, j)) => spec_eval_color(
                    self.env(),
                    toks_view(ts@),
                    i as int,
                    dark,
                    fuel as nat,
                ) == Some((c, j as int)) && i < j <= ts@.len(),
                None => spec_eval_color(self.env(), toks_view(ts@), i as int, dark, fuel as nat)
                    is None,
            },
        decreases fuel, 1int,
    {
        match self.eval_at(ts, i, dark, fuel) {
            Some((CssValue::Color(c), j)) => Some((c, j)),
            _ => None,
        }
    }

    #[verifier::rlimit(100)]
    fn eval_number(&self, ts: &Vec<Token>, i: usize, dark: bool, fuel: usize) -> (r: Option<
        (i64, usize),
    >)
        requires
            i <= ts@.len(),
        ensures
            match r {
                Some((v, j)) => spec_eval_number(
                    self.env(),
                    toks_view(ts@),
                    i as int,
                    dark,
                    fuel as nat,
                ) == Some((v, j as int)) && i < j <= ts@.len(),
                None => spec_eval_number(self.env(), toks_view(ts@), i as int, dark, fuel as nat)
                    is None,
            },
        decreases fuel, 1int,
    {
        match self.eval_at(ts, i, dark, fuel) {
            Some((CssValue::Number(v), j)) => Some((v, j)),
            _ => None,
        }
    }

    fn grad_dir_end(&self, ts: &Vec<Token>, i: usize) -> (r: Option<usize>)
        requires
            i <= ts@.len(),
        ensures
            match r {
                Some(e) => gradient_dir_end(toks_view(ts@), i as int, 0) == Some(e as int) && i <= e
                    < ts@.len(),
                None => gradient_dir_end(toks_view(ts@), i as int, 0) is None,
            },
    {
        proof {
            assert(toks_view(ts@).len() == ts@.len());
            lemma_gradient_dir_end(toks_view(ts@), i as int, 0);
        }
        let mut k = i;
        let mut d: usize = 0;
        while k < ts.len()
            invariant
                i <= k <= ts@.len(),
                d <= k,
                toks_view(ts@).len() == ts@.len(),
                gradient_dir_end(toks_view(ts@), i as int, 0) == gradient_dir_end(
                    toks_view(ts@),
                    k as int,
                    d as int,
                ),
                forall|x: int| 0 <= x < ts@.len() ==> toks_view(ts@)[x] == ts@[x]@,
            decreases ts@.len() - k,
        {
            let t = &ts[k];
            let comma = match t {
                Token::Comma => true,
                _ => false,
            };
            if comma && d == 0 {
                return Some(k);
            }
            let rp = match t {
                Token::RParen => true,
                _ => false,
            };
            if rp && d == 0 {
                return None;
            }
            let (op, cl) = (
                match t {
                    Token::LParen => true,
                    Token::Function(_) => true,
                    _ => false,
                },
                rp,
            );
            if op {
                d += 1;
            } else if cl {
                d -= 1;
            }
            k += 1;
        }
        None
    }

    fn stop_color(&self, ts: &Vec<Token>, i: usize, dark: bool) -> (r: Option<(Rgba8, usize)>)
        requires
            i <= ts@.len(),
        ensures
            match r {
                Some((c, j)) => spec_stop_color(self.env(), toks_view(ts@), i as int, dark) == Some(
                    (c, j as int),
                ) && i < j <= ts@.len(),
                None => spec_stop_color(self.env(), toks_view(ts@), i as int, dark) is None,
            },
    {
        proof {
            assert(toks_view(ts@).len() == ts@.len());
            if (i as int) < ts@.len() {
                assert(toks_view(ts@)[i as int] == ts@[i as int]@);
            }
        }
        if i >= ts.len() {
            return None;
        }
        match &ts[i] {
            Token::AtKeyword(n) => {
                match self.resolve(n) {
                    Some(c) => Some((c, i + 1)),
                    None => None,
                }
            },
            Token::Ident(n) => {
                match word_color(n) {
                    Some(c) => Some((c, i + 1)),
                    None => None,
                }
            },
            _ => {
                match parse_color_toks(ts, i) {
                    Some((cs, j)) => Some((convert(&cs, dark), j)),
                    None => None,
                }
            },
        }
    }

    fn eval_stops(&self, ts: &Vec<Token>, i: usize, dark: bool, fuel: usize) -> (r: Option<
        (Vec<Rgba8>, usize),
    >)
        requires
            i <= ts@.len(),
        ensures
            match r {
                Some((cs, k)) => spec_stops(self.env(), toks_view(ts@), i as int, dark, fuel as nat)
                    == Some((cs@, k as int)) && i < k <= ts@.len(),
                None => spec_stops(self.env(), toks_view(ts@), i as int, dark, fuel as nat)
                    is None,
            },
        decreases fuel,
    {
        let ghost tv = toks_view(ts@);
        proof {
            assert(tv.len() == ts@.len());
        }
        if fuel == 0 {
            return None;
        }
        match self.stop_color(ts, i, dark) {
            None => None,
            Some((c, j1)) => {
                proof {
                    if (j1 as int) < ts@.len() {
                        assert(tv[j1 as int] == ts@[j1 as int]@);
                    }
                }
                if j1 >= ts.len() {
                    return None;
                }
                let w: Option<i64> = match &ts[j1] {
                    Token::Number(v) => Some(crate::spaces::e_clamp_pub(*v)),
                    Token::Percentage(v) => Some(crate::spaces::e_clamp_pub(*v)),
                    _ => None,
                };
                match w {
                    None => None,
                    Some(_) => {
                        let j2 = j1 + 1;
                        proof {
                            if (j2 as int) < ts@.len() {
                                assert(tv[j2 as int] == ts@[j2 as int]@);
                            }
                        }
                        if j2 >= ts.len() {
                            return None;
                        }
                        let rp = match &ts[j2] {
                            Token::RParen => true,
                            _ => false,
                        };
                        let cm = match &ts[j2] {
                            Token::Comma => true,
                            _ => false,
                        };
                        if rp {
                            let mut v: Vec<Rgba8> = Vec::new();
                            v.push(c);
                            proof {
                                assert(v@ =~= seq![c]);
                            }
                            Some((v, j2 + 1))
                        } else if cm {
                            match self.eval_stops(ts, j2 + 1, dark, fuel - 1) {
                                None => None,
                                Some((rest, k)) => {
                                    let mut v: Vec<Rgba8> = Vec::new();
                                    v.push(c);
                                    let mut idx: usize = 0;
                                    while idx < rest.len()
                                        invariant
                                            idx <= rest@.len(),
                                            v@ == seq![c] + rest@.take(idx as int),
                                        decreases rest@.len() - idx,
                                    {
                                        v.push(rest[idx]);
                                        proof {
                                            assert(v@ =~= seq![c] + rest@.take(idx + 1));
                                        }
                                        idx += 1;
                                    }
                                    proof {
                                        assert(rest@.take(rest@.len() as int) =~= rest@);
                                    }
                                    Some((v, k))
                                },
                            }
                        } else {
                            None
                        }
                    },
                }
            },
        }
    }
}

// --- property extractors ---

/// The evaluation fuel for a whole value: ample for any realistic value,
/// bounded so that it is always representable.
pub open spec fn value_fuel(n: nat) -> nat {
    if n < 100000 {
        n + 1
    } else {
        100000
    }
}

pub open spec fn prop_is(d: DeclarationV, name: Seq<char>) -> bool {
    bytes_chars(d.property) == name
}

/// The colour of a whole declaration value: a literal colour if the value
/// is exactly one, else the first value the evaluator produces, if it is
/// a colour.
pub open spec fn spec_value_color(
    env: Seq<(Seq<u8>, Rgba8)>,
    ts: Seq<TokenV>,
    dark: bool,
) -> Option<Rgba8> {
    match crate::spaces::spec_color_value(ts) {
        Some(cs) => Some(spec_convert(cs, dark)),
        None => match spec_eval(env, ts, 0, dark, value_fuel(ts.len())) {
            Some((CssValue::Color(c), j)) => Some(c),
            _ => None,
        },
    }
}

pub open spec fn spec_extract_bg(
    env: Seq<(Seq<u8>, Rgba8)>,
    d: DeclarationV,
    dark: bool,
) -> Option<Rgba8> {
    if prop_is(d, "background-color"@) || prop_is(d, "background"@) {
        spec_value_color(env, d.value, dark)
    } else {
        None
    }
}

pub open spec fn spec_extract_fg(
    env: Seq<(Seq<u8>, Rgba8)>,
    d: DeclarationV,
    dark: bool,
) -> Option<Rgba8> {
    if prop_is(d, "color"@) {
        spec_value_color(env, d.value, dark)
    } else {
        None
    }
}

/// The first position whose expression evaluates to a colour.
pub open spec fn scan_color(
    env: Seq<(Seq<u8>, Rgba8)>,
    ts: Seq<TokenV>,
    i: int,
    dark: bool,
) -> Option<Rgba8>
    decreases ts.len() - i when 0 <= i
{
    if i >= ts.len() {
        None
    } else {
        match spec_eval(env, ts, i, dark, value_fuel(ts.len())) {
            Some((CssValue::Color(c), j)) => Some(c),
            _ => scan_color(env, ts, i + 1, dark),
        }
    }
}

pub open spec fn spec_extract_border_color(
    env: Seq<(Seq<u8>, Rgba8)>,
    d: DeclarationV,
    dark: bool,
) -> Option<Rgba8> {
    if prop_is(d, "border"@) || prop_is(d, "border-color"@) {
        scan_color(env, d.value, 0, dark)
    } else {
        None
    }
}

/// A border width: `px` values carry over, other units fall back to one
/// pixel, and the three keywords have fixed widths.
pub open spec fn width_of_tok(t: TokenV) -> Option<int> {
    match t {
        TokenV::Dimension(v, u) => if bytes_chars(u) == "px"@ {
            Some(clamp_arg(v))
        } else {
            Some(1000)
        },
        TokenV::Number(v) => Some(clamp_arg(v)),
        TokenV::Ident(n) => if bytes_chars(n) == "thin"@ {
            Some(500)
        } else if bytes_chars(n) == "medium"@ {
            Some(1000)
        } else if bytes_chars(n) == "thick"@ {
            Some(2000)
        } else {
            None
        },
        _ => None,
    }
}

pub open spec fn scan_width(ts: Seq<TokenV>, i: int) -> Option<int>
    decreases ts.len() - i when 0 <= i
{
    if i >= ts.len() {
        None
    } else {
        match width_of_tok(ts[i]) {
            Some(v) => Some(v),
            None => scan_width(ts, i + 1),
        }
    }
}

pub open spec fn spec_extract_border_width(d: DeclarationV) -> Option<int> {
    if prop_is(d, "border-width"@) || prop_is(d, "border"@) {
        scan_width(d.value, 0)
    } else {
        None
    }
}

/// A corner radius: a `px` value, a percentage kept as its fraction, or a
/// fallback of one pixel for other units.
pub open spec fn radius_of_tok(t: TokenV) -> Option<int> {
    match t {
        TokenV::Dimension(v, u) => if bytes_chars(u) == "px"@ {
            Some(clamp_arg(v))
        } else {
            Some(1000)
        },
        TokenV::Number(v) => Some(clamp_arg(v)),
        TokenV::Percentage(v) => Some(clamp_arg(v)),
        _ => None,
    }
}

pub open spec fn collect_radii(ts: Seq<TokenV>, i: int) -> Seq<int>
    decreases ts.len() - i when 0 <= i
{
    if i >= ts.len() {
        Seq::empty()
    } else {
        match radius_of_tok(ts[i]) {
            Some(v) => seq![v] + collect_radii(ts, i + 1),
            None => Seq::empty(),
        }
    }
}

/// The CSS one-to-four-value expansion of `border-radius`.
pub open spec fn spec_radius_expand(rs: Seq<int>) -> Option<Rounding> {
    if rs.len() == 0 {
        None
    } else if rs.len() == 1 {
        Some(spec_rounding_same(rs[0] as i64))
    } else if rs.len() == 2 {
        Some(Rounding { nw: rs[0] as i64, ne: rs[1] as i64, sw: rs[1] as i64, se: rs[0] as i64 })
    } else if rs.len() == 3 {
        Some(Rounding { nw: rs[0] as i64, ne: rs[1] as i64, sw: rs[1] as i64, se: rs[2] as i64 })
    } else {
        Some(Rounding { nw: rs[0] as i64, ne: rs[1] as i64, sw: rs[3] as i64, se: rs[2] as i64 })
    }
}

pub open spec fn spec_extract_border_radius(d: DeclarationV) -> Option<Rounding> {
    if prop_is(d, "border-radius"@) {
        spec_radius_expand(collect_radii(d.value, 0))
    } else {
        None
    }
}

pub open spec fn length_of_tok(t: TokenV) -> Option<int> {
    match t {
        TokenV::Dimension(v, u) => if bytes_chars(u) == "px"@ {
            Some(clamp_arg(v))
        } else {
            Some(1000)
        },
        TokenV::Number(v) => Some(clamp_arg(v)),
        _ => None,
    }
}

/// Walks one shadow: lengths in order, a literal colour anywhere; `inset`
/// and unrecognized tokens make the shadow unusable. Ends at a comma.
pub open spec fn shadow_walk(
    ts: Seq<TokenV>,
    i: int,
    lens: Seq<int>,
    color: Option<Rgba8>,
    dark: bool,
) -> Option<(Seq<int>, Option<Rgba8>)>
    decreases ts.len() - i when 0 <= i
    via shadow_walk_dec
{
    if i >= ts.len() || ts[i] is Comma {
        Some((lens, color))
    } else if ts[i] is Ident && bytes_chars(ts[i]->Ident_0) == "inset"@ {
        None
    } else {
        match length_of_tok(ts[i]) {
            Some(v) => shadow_walk(ts, i + 1, lens.push(v), color, dark),
            None => match parse_color_at(ts, i, true) {
                Some((cs, j)) => shadow_walk(ts, j, lens, Some(spec_convert(cs, dark)), dark),
                None => None,
            },
        }
    }
}

#[via_fn]
proof fn shadow_walk_dec(ts: Seq<TokenV>, i: int, lens: Seq<int>, color: Option<Rgba8>, dark: bool) {
    if 0 <= i && i < ts.len() {
        crate::spaces::lemma_parse_color_advance(ts, i, true);
    }
}

pub open spec fn spec_extract_shadow(d: DeclarationV, dark: bool) -> Option<Shadow> {
    if prop_is(d, "box-shadow"@) {
        match shadow_walk(d.value, 0, Seq::empty(), None, dark) {
            None => None,
            Some((lens, color)) => if lens.len() >= 2 {
                Some(
                    Shadow {
                        dx: lens[0] as i64,
                        dy: lens[1] as i64,
                        blur: (if lens.len() >= 3 {
                            lens[2]
                        } else {
                            0
                        }) as i64,
                        spread: (if lens.len() >= 4 {
                            lens[3]
                        } else {
                            0
                        }) as i64,
                        color: (match color {
                            Some(c) => c,
                            None => crate::color::spec_dark_gray(),
                        }),
                    },
                )
            } else {
                None
            },
        }
    } else {
        None
    }
}

/// What one declaration contributes to a border: its colour, else its
/// width, else its corner rounding; the first match wins.
pub enum BorderBit {
    BColor(Rgba8),
    BWidth(i64),
    BRadius(Rounding),
}

pub open spec fn spec_extract_border(
    env: Seq<(Seq<u8>, Rgba8)>,
    d: DeclarationV,
    dark: bool,
) -> Option<BorderBit> {
    match spec_extract_border_color(env, d, dark) {
        Some(c) => Some(BorderBit::BColor(c)),
        None => match spec_extract_border_width(d) {
            Some(w) => Some(BorderBit::BWidth(w as i64)),
            None => match spec_extract_border_radius(d) {
                Some(r) => Some(BorderBit::BRadius(r)),
                None => None,
            },
        },
    }
}

impl GtkCssParseContext {
    fn value_color(&self, ts: &Vec<Token>, dark: bool) -> (r: Option<Rgba8>)
        ensures
            r == spec_value_color(self.env(), toks_view(ts@), dark),
    {
        proof {
            assert(toks_view(ts@).len() == ts@.len());
        }
        match crate::spaces::color_value(ts) {
            Some(cs) => Some(convert(&cs, dark)),
            None => {
                let fuel = if ts.len() < 100000 {
                    ts.len() + 1
                } else {
                    100000
                };
                match self.eval_at(ts, 0, dark, fuel) {
                    Some((CssValue::Color(c), j)) => Some(c),
                    _ => None,
                }
            },
        }
    }

    /// The background colour a declaration assigns, if any.
    pub fn extract_background_color(&self, d: &Declaration, dark: bool) -> (r: Option<Rgba8>)
        ensures
            r == spec_extract_bg(self.env(), d@, dark),
    {
        if name_eq(&d.property, "background-color") || name_eq(&d.property, "background") {
            self.value_color(&d.value, dark)
        } else {
            None
        }
    }

    /// The foreground (text) colour a declaration assigns, if any.
    pub fn extract_foreground_color(&self, d: &Declaration, dark: bool) -> (r: Option<Rgba8>)
        ensures
            r == spec_extract_fg(self.env(), d@, dark),
    {
        if name_eq(&d.property, "color") {
            self.value_color(&d.value, dark)
        } else {
            None
        }
    }

    fn scan_color_from(&self, ts: &Vec<Token>, i: usize, dark: bool) -> (r: Option<Rgba8>)
        requires
            i <= ts@.len(),
        ensures
            r == scan_color(self.env(), toks_view(ts@), i as int, dark),
        decreases ts@.len() - i,
    {
        proof {
            assert(toks_view(ts@).len() == ts@.len());
        }
        if i >= ts.len() {
            return None;
        }
        let fuel = if ts.len() < 100000 {
            ts.len() + 1
        } else {
            100000
        };
        match self.eval_at(ts, i, dark, fuel) {
            Some((CssValue::Color(c), j)) => Some(c),
            _ => self.scan_color_from(ts, i + 1, dark),
        }
    }

    /// The border colour a declaration assigns, if any.
    pub fn extract_border_color(&self, d: &Declaration, dark: bool) -> (r: Option<Rgba8>)
        ensures
            r == spec_extract_border_color(self.env(), d@, dark),
    {
        if name_eq(&d.property, "border") || name_eq(&d.property, "border-color") {
            self.scan_color_from(&d.value, 0, dark)
        } else {
            None
        }
    }

    /// The border width a declaration assigns, in thousandths of a pixel.
    pub fn extract_border_width(&self, d: &Declaration) -> (r: Option<i64>)
        ensures
            match r {
                Some(w) => spec_extract_border_width(d@) == Some(w as int),
                None => spec_extract_border_width(d@) is None,
            },
    {
        if name_eq(&d.property, "border-width") || name_eq(&d.property, "border") {
            scan_width_from(&d.value, 0)
        } else {
            None
        }
    }

    /// The corner rounding a declaration assigns, if any.
    pub fn extract_border_radius(&self, d: &Declaration) -> (r: Option<Rounding>)
        ensures
            r == spec_extract_border_radius(d@),
    {
        if name_eq(&d.property, "border-radius") {
            let rs = collect_radii_from(&d.value, 0);
            proof {
                assert(rs@.map_values(|v: i64| v as int) =~= collect_radii(toks_view(d.value@), 0));
            }
            radius_expand(&rs)
        } else {
            None
        }
    }

    /// What a declaration contributes to a border, colour first, then
    /// width, then rounding.
    pub fn extract_border(&self, d: &Declaration, dark: bool) -> (r: Option<BorderBit>)
        ensures
            r == spec_extract_border(self.env(), d@, dark),
    {
        match self.extract_border_color(d, dark) {
            Some(c) => Some(BorderBit::BColor(c)),
            None => {
                match self.extract_border_width(d) {
                    Some(w) => Some(BorderBit::BWidth(w)),
                    None => {
                        match self.extract_border_radius(d) {
                            Some(rr) => Some(BorderBit::BRadius(rr)),
                            None => None,
                        }
                    },
                }
            },
        }
    }

    /// The drop shadow a declaration assigns, if any; inset shadows are
    /// unsupported.
    pub fn extract_shadow(&self, d: &Declaration, dark: bool) -> (r: Option<Shadow>)
        ensures
            r == spec_extract_shadow(d@, dark),
    {
        if name_eq(&d.property, "box-shadow") {
            let mut lens: Vec<i64> = Vec::new();
            let mut color: Option<Rgba8> = None;
            proof {
                assert(lens@.map_values(|v: i64| v as int) =~= Seq::<int>::empty());
            }
            match shadow_walk_exec(&d.value, 0, lens, color, dark) {
                None => None,
                Some((lens2, color2)) => {
                    if lens2.len() >= 2 {
                        Some(
                            Shadow {
                                dx: lens2[0],
                                dy: lens2[1],
                                blur: if lens2.len() >= 3 {
                                    lens2[2]
                                } else {
                                    0
                                },
                                spread: if lens2.len() >= 4 {
                                    lens2[3]
                                } else {
                                    0
                                },
                                color: match color2 {
                                    Some(c) => c,
                                    None => crate::color::dark_gray(),
                                },
                            },
                        )
                    } else {
                        None
                    }
                },
            }
        } else {
            None
        }
    }
}

fn scan_width_from(ts: &Vec<Token>, i: usize) -> (r: Option<i64>)
    requires
        i <= ts@.len(),
    ensures
        match r {
            Some(w) => scan_width(toks_view(ts@), i as int) == Some(w as int),
            None => scan_width(toks_view(ts@), i as int) is None,
        },
    decreases ts@.len() - i,
{
    proof {
        assert(toks_view(ts@).len() == ts@.len());
        if (i as int) < ts@.len() {
            assert(toks_view(ts@)[i as int] == ts@[i as int]@);
        }
    }
    if i >= ts.len() {
        return None;
    }
    let w: Option<i64> = match &ts[i] {
        Token::Dimension(v, u) => {
            if name_eq(u, "px") {
                Some(crate::spaces::e_clamp_pub(*v))
            } else {
                Some(1000)
            }
        },
        Token::Number(v) => Some(crate::spaces::e_clamp_pub(*v)),
        Token::Ident(n) => {
            if name_eq(n, "thin") {
                Some(500)
            } else if name_eq(n, "medium") {
                Some(1000)
            } else if name_eq(n, "thick") {
                Some(2000)
            } else {
                None
            }
        },
        _ => None,
    };
    match w {
        Some(v) => Some(v),
        None => scan_width_from(ts, i + 1),
    }
}

fn collect_radii_from(ts: &Vec<Token>, i: usize) -> (r: Vec<i64>)
    requires
        i <= ts@.len(),
    ensures
        r@.map_values(|v: i64| v as int) == collect_radii(toks_view(ts@), i as int),
    decreases ts@.len() - i,
{
    proof {
        assert(toks_view(ts@).len() == ts@.len());
        if (i as int) < ts@.len() {
            assert(toks_view(ts@)[i as int] == ts@[i as int]@);
        }
    }
    if i >= ts.len() {
        let r: Vec<i64> = Vec::new();
        proof {
            assert(r@.map_values(|v: i64| v as int) =~= Seq::<int>::empty());
        }
        return r;
    }
    let v0: Option<i64> = match &ts[i] {
        Token::Dimension(v, u) => {
            if name_eq(u, "px") {
                Some(crate::spaces::e_clamp_pub(*v))
            } else {
                Some(1000)
            }
        },
        Token::Number(v) => Some(crate::spaces::e_clamp_pub(*v)),
        Token::Percentage(v) => Some(crate::spaces::e_clamp_pub(*v)),
        _ => None,
    };
    match v0 {
        Some(v) => {
            let rest = collect_radii_from(ts, i + 1);
            let mut out: Vec<i64> = Vec::new();
            out.push(v);
            let mut k: usize = 0;
            while k < rest.len()
                invariant
                    k <= rest@.len(),
                    out@ == seq![v] + rest@.take(k as int),
                decreases rest@.len() - k,
            {
                out.push(rest[k]);
                proof {
                    assert(out@ =~= seq![v] + rest@.take(k + 1));
                }
                k += 1;
            }
            proof {
                assert(rest@.take(rest@.len() as int) =~= rest@);
                assert(out@.map_values(|x: i64| x as int) =~= seq![v as int] + rest@.map_values(
                    |x: i64| x as int,
                ));
            }
            out
        },
        None => {
            let r: Vec<i64> = Vec::new();
            proof {
                assert(r@.map_values(|x: i64| x as int) =~= Seq::<int>::empty());
            }
            r
        },
    }
}

fn radius_expand(rs: &Vec<i64>) -> (r: Option<Rounding>)
    ensures
        r == spec_radius_expand(rs@.map_values(|v: i64| v as int)),
{
    let ghost m = rs@.map_values(|v: i64| v as int);
    proof {
        assert(m.len() == rs@.len());
    }
    if rs.len() == 0 {
        None
    } else if rs.len() == 1 {
        Some(Rounding { nw: rs[0], ne: rs[0], sw: rs[0], se: rs[0] })
    } else if rs.len() == 2 {
        Some(Rounding { nw: rs[0], ne: rs[1], sw: rs[1], se: rs[0] })
    } else if rs.len() == 3 {
        Some(Rounding { nw: rs[0], ne: rs[1], sw: rs[1], se: rs[2] })
    } else {
        Some(Rounding { nw: rs[0], ne: rs[1], sw: rs[3], se: rs[2] })
    }
}

fn shadow_walk_exec(
    ts: &Vec<Token>,
    i: usize,
    lens: Vec<i64>,
    color: Option<Rgba8>,
    dark: bool,
) -> (r: Option<(Vec<i64>, Option<Rgba8>)>)
    requires
        i <= ts@.len(),
    ensures
        match r {
            Some((l2, c2)) => shadow_walk(
                toks_view(ts@),
                i as int,
                lens@.map_values(|v: i64| v as int),
                color,
                dark,
            ) == Some((l2@.map_values(|v: i64| v as int), c2)),
            None => shadow_walk(
                toks_view(ts@),
                i as int,
                lens@.map_values(|v: i64| v as int),
                color,
                dark,
            ) is None,
        },
    decreases ts@.len() - i,
{
    proof {
        assert(toks_view(ts@).len() == ts@.len());
        if (i as int) < ts@.len() {
            assert(toks_view(ts@)[i as int] == ts@[i as int]@);
        }
    }
    if i >= ts.len() {
        return Some((lens, color));
    }
    let comma = match &ts[i] {
        Token::Comma => true,
        _ => false,
    };
    if comma {
        return Some((lens, color));
    }
    let inset = match &ts[i] {
        Token::Ident(n) => name_eq(n, "inset"),
        _ => false,
    };
    if inset {
        return None;
    }
    let lv: Option<i64> = match &ts[i] {
        Token::Dimension(v, u) => {
            if name_eq(u, "px") {
                Some(crate::spaces::e_clamp_pub(*v))
            } else {
                Some(1000)
            }
        },
        Token::Number(v) => Some(crate::spaces::e_clamp_pub(*v)),
        _ => None,
    };
    match lv {
        Some(v) => {
            let mut lens2 = lens;
            let ghost pre = lens2@;
            lens2.push(v);
            proof {
                assert(lens2@.map_values(|x: i64| x as int) =~= pre.map_values(
                    |x: i64| x as int,
                ).push(v as int));
            }
            shadow_walk_exec(ts, i + 1, lens2, color, dark)
        },
        None => {
            match parse_color_toks(ts, i) {
                Some((cs, j)) => shadow_walk_exec(ts, j, lens, Some(convert(&cs, dark)), dark),
                None => None,
            }
        },
    }
}

/// A three-stop gradient evaluates to its middle stop.
#[verifier::rlimit(100)]
#[verifier::spinoff_prover]
pub proof fn lemma_gradient_middle(
    env: Seq<(Seq<u8>, Rgba8)>,
    ts: Seq<TokenV>,
    i: int,
    dark: bool,
    fuel: nat,
    cs: Seq<Rgba8>,
    j: int,
)
    requires
        fuel > 0,
        0 <= i < ts.len(),
        ts[i] matches TokenV::Function(name) && bytes_chars(name) == "linear-gradient"@,
        gradient_dir_end(ts, i + 1, 0) matches Some(d) && spec_stops(
            env,
            ts,
            d + 1,
            dark,
            (fuel - 1) as nat,
        ) == Some((cs, j)),
        cs.len() == 3,
    ensures
        spec_eval(env, ts, i, dark, fuel) == Some((CssValue::Color(cs[1]), j)),
{
    reveal(spec_eval);
    lemma_gradient_name_distinct();
}

/// The gradient function's name is none of the other evaluator functions.
proof fn lemma_gradient_name_distinct()
    ensures
        "linear-gradient"@ != "mix"@,
        "linear-gradient"@ != "alpha"@,
{
    reveal_strlit("mix");
    reveal_strlit("alpha");
    reveal_strlit("linear-gradient");
    assert("linear-gradient"@.len() == 15);
    assert("mix"@.len() == 3);
    assert("alpha"@.len() == 5);
}

} // verus!
