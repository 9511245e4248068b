//! Parser for the GTK CSS dialect: a token stream becomes an ordered list
//! of rules. As with the tokenizer, the recursive spec functions define the
//! grammar and the executable parser is proved against them.
//!
//! Parsing also performs the normalization the later extractors rely on:
//! whitespace is dropped from declaration values, `!important` is split off
//! as a flag, and selectors are serialized to one canonical text (single
//! spaces, child combinators written ` > `).
use vstd::prelude::*;

use crate::color::bytes_chars;
use crate::color::name_eq;
use crate::token::Token;
use crate::token::TokenV;
use crate::token::toks_view;

verus! {

/// One `property: value` declaration, value tokens with whitespace removed.
#[derive(Debug, Clone, PartialEq, Eq)]
pub struct Declaration {
    pub property: Vec<u8>,
    pub value: Vec<Token>,
    pub important: bool,
}

pub struct DeclarationV {
    pub property: Seq<u8>,
    pub value: Seq<TokenV>,
    pub important: bool,
}

impl View for Declaration {
    type V = DeclarationV;

    open spec fn view(&self) -> DeclarationV {
        DeclarationV { property: self.property@, value: toks_view(self.value@), important: self.important }
    }
}

/// A style rule: canonical selector texts and ordered declarations.
#[derive(Debug, Clone, PartialEq, Eq)]
pub struct StyleRule {
    pub selectors: Vec<Vec<u8>>,
    pub decls: Vec<Declaration>,
}

pub struct StyleRuleV {
    pub selectors: Seq<Seq<u8>>,
    pub decls: Seq<DeclarationV>,
}

pub open spec fn sels_view(v: Seq<Vec<u8>>) -> Seq<Seq<u8>> {
    v.map_values(|s: Vec<u8>| s@)
}

pub open spec fn decls_view(v: Seq<Declaration>) -> Seq<DeclarationV> {
    v.map_values(|d: Declaration| d@)
}

impl View for StyleRule {
    type V = StyleRuleV;

    open spec fn view(&self) -> StyleRuleV {
        StyleRuleV { selectors: sels_view(self.selectors@), decls: decls_view(self.decls@) }
    }
}

/// One rule of a stylesheet, in document order.
#[derive(Debug, Clone, PartialEq, Eq)]
pub enum Rule {
    /// A style rule.
    Style(StyleRule),
    /// `@import url(...)`: the referenced path, relative to the importer.
    Import(Vec<u8>),
    /// `@define-color <name> <value tokens>`.
    DefineColor(Vec<u8>, Vec<Token>),
    /// Any other construct, kept only to preserve positions.
    Unknown,
}

pub enum RuleV {
    Style(StyleRuleV),
    Import(Seq<u8>),
    DefineColor(Seq<u8>, Seq<TokenV>),
    Unknown,
}

impl View for Rule {
    type V = RuleV;

    open spec fn view(&self) -> RuleV {
        match self {
            Rule::Style(r) => RuleV::Style(r@),
            Rule::Import(u) => RuleV::Import(u@),
            Rule::DefineColor(n, v) => RuleV::DefineColor(n@, toks_view(v@)),
            Rule::Unknown => RuleV::Unknown,
        }
    }
}

pub open spec fn rules_view(v: Seq<Rule>) -> Seq<RuleV> {
    v.map_values(|r: Rule| r@)
}

// --- selector serialization ---

/// Appends one selector token to the canonical text.
pub open spec fn sel_push(acc: Seq<u8>, t: TokenV) -> Seq<u8> {
    match t {
        TokenV::Space => if acc.len() > 0 && acc.last() != 32 {
            acc.push(32)
        } else {
            acc
        },
        TokenV::Ident(n) => acc + n,
        TokenV::Hash(n) => acc.push(35) + n,
        TokenV::Colon => acc.push(58),
        TokenV::Delim(b) => if b == 62 {
            // A child combinator always reads ` > `.
            (if acc.len() > 0 && acc.last() != 32 {
                acc.push(32)
            } else {
                acc
            }).push(62).push(32)
        } else {
            acc.push(b)
        },
        // Tokens outside the selector grammar get a placeholder byte, so
        // such a selector never matches the catalog.
        _ => acc.push(0),
    }
}

pub open spec fn sel_fold(ts: Seq<TokenV>, i: int, acc: Seq<u8>) -> Seq<u8>
    decreases ts.len() - i when 0 <= i
{
    if i < ts.len() {
        sel_fold(ts, i + 1, sel_push(acc, ts[i]))
    } else {
        acc
    }
}

/// The canonical text of one compound selector.
pub open spec fn sel_text(ts: Seq<TokenV>) -> Seq<u8> {
    let acc = sel_fold(ts, 0, Seq::empty());
    if acc.len() > 0 && acc.last() == 32 {
        acc.drop_last()
    } else {
        acc
    }
}

/// Whether a token opens or closes a parenthesized group.
pub open spec fn opens_paren(t: TokenV) -> bool {
    t is LParen || t is Function
}

/// The first top-level comma at or after `i`, or the end of the sequence.
pub open spec fn sel_seg_end(ts: Seq<TokenV>, i: int, d: int) -> int
    decreases ts.len() - i when 0 <= i
{
    if i >= ts.len() {
        ts.len() as int
    } else if ts[i] is Comma && d == 0 {
        i
    } else if opens_paren(ts[i]) {
        sel_seg_end(ts, i + 1, d + 1)
    } else if ts[i] is RParen {
        sel_seg_end(ts, i + 1, if d > 0 {
            d - 1
        } else {
            0
        })
    } else {
        sel_seg_end(ts, i + 1, d)
    }
}

pub proof fn lemma_sel_seg_end(ts: Seq<TokenV>, i: int, d: int)
    requires
        0 <= i <= ts.len(),
    ensures
        i <= sel_seg_end(ts, i, d) <= ts.len(),
    decreases ts.len() - i,
{
    if i < ts.len() && !(ts[i] is Comma && d == 0) {
        if opens_paren(ts[i]) {
            lemma_sel_seg_end(ts, i + 1, d + 1);
        } else if ts[i] is RParen {
            lemma_sel_seg_end(ts, i + 1, if d > 0 {
                d - 1
            } else {
                0
            });
        } else {
            lemma_sel_seg_end(ts, i + 1, d);
        }
    }
}

/// The canonical texts of a comma-separated selector list.
pub open spec fn split_sels(ts: Seq<TokenV>, i: int) -> Seq<Seq<u8>>
    decreases ts.len() - i when 0 <= i
    via split_sels_dec
{
    if i > ts.len() {
        Seq::empty()
    } else {
        let e = sel_seg_end(ts, i, 0);
        let head = sel_text(ts.subrange(i, e));
        if e < ts.len() {
            seq![head] + split_sels(ts, e + 1)
        } else {
            seq![head]
        }
    }
}

#[via_fn]
proof fn split_sels_dec(ts: Seq<TokenV>, i: int) {
    if 0 <= i <= ts.len() {
        lemma_sel_seg_end(ts, i, 0);
    }
}

// --- declaration values ---

pub open spec fn filter_sp(v: Seq<TokenV>) -> Seq<TokenV> {
    v.filter(|t: TokenV| !(t is Space))
}

/// Splits a trailing `!important` off a whitespace-free value.
pub open spec fn strip_important(v: Seq<TokenV>) -> (Seq<TokenV>, bool) {
    if v.len() >= 2 && v[v.len() - 2] == TokenV::Delim(33) && (v.last() matches TokenV::Ident(n)
        && bytes_chars(n) == "important"@) {
        (v.take(v.len() - 2), true)
    } else {
        (v, false)
    }
}

/// The position of the token that ends a declaration value starting at `i`:
/// a top-level `;` or `}`. A `{` makes the value malformed.
pub open spec fn value_end(ts: Seq<TokenV>, i: int, d: int) -> Option<int>
    decreases ts.len() - i when 0 <= i
{
    if i >= ts.len() {
        None
    } else if (ts[i] is Semicolon || ts[i] is RBrace) && d == 0 {
        Some(i)
    } else if ts[i] is LBrace {
        None
    } else if opens_paren(ts[i]) {
        value_end(ts, i + 1, d + 1)
    } else if ts[i] is RParen {
        value_end(ts, i + 1, if d > 0 {
            d - 1
        } else {
            0
        })
    } else {
        value_end(ts, i + 1, d)
    }
}

pub proof fn lemma_value_end(ts: Seq<TokenV>, i: int, d: int)
    requires
        0 <= i <= ts.len(),
    ensures
        match value_end(ts, i, d) {
            Some(e) => i <= e < ts.len() && (ts[e] is Semicolon || ts[e] is RBrace),
            None => true,
        },
    decreases ts.len() - i,
{
    if i < ts.len() && !((ts[i] is Semicolon || ts[i] is RBrace) && d == 0) && !(ts[i] is LBrace) {
        if opens_paren(ts[i]) {
            lemma_value_end(ts, i + 1, d + 1);
        } else if ts[i] is RParen {
            lemma_value_end(ts, i + 1, if d > 0 {
                d - 1
            } else {
                0
            });
        } else {
            lemma_value_end(ts, i + 1, d);
        }
    }
}

/// First position at or after `i` that is not whitespace.
pub open spec fn skip_sp(ts: Seq<TokenV>, i: int) -> int
    decreases ts.len() - i when 0 <= i
{
    if i < ts.len() && ts[i] is Space {
        skip_sp(ts, i + 1)
    } else {
        i
    }
}

pub proof fn lemma_skip_sp(ts: Seq<TokenV>, i: int)
    requires
        0 <= i <= ts.len(),
    ensures
        i <= skip_sp(ts, i) <= ts.len(),
    decreases ts.len() - i,
{
    if i < ts.len() && ts[i] is Space {
        lemma_skip_sp(ts, i + 1);
    }
}

/// The declarations of a block, starting inside the braces; returns them
/// together with the position just past the closing `}`.
pub open spec fn parse_decls(ts: Seq<TokenV>, i: int) -> Option<(Seq<DeclarationV>, int)>
    decreases ts.len() - i when 0 <= i
    via parse_decls_dec
{
    if i >= ts.len() {
        None
    } else if ts[i] is Space || ts[i] is Semicolon {
        parse_decls(ts, i + 1)
    } else if ts[i] is RBrace {
        Some((Seq::empty(), i + 1))
    } else if ts[i] is Ident {
        let prop = ts[i]->Ident_0;
        let j = skip_sp(ts, i + 1);
        if j < ts.len() && ts[j] is Colon {
            match value_end(ts, j + 1, 0) {
                None => None,
                Some(e) => {
                    let (val, imp) = strip_important(filter_sp(ts.subrange(j + 1, e)));
                    let next = if ts[e] is Semicolon {
                        e + 1
                    } else {
                        e
                    };
                    match parse_decls(ts, next) {
                        None => None,
                        Some((ds, k)) => Some(
                            (seq![DeclarationV { property: prop, value: val, important: imp }] + ds, k),
                        ),
                    }
                },
            }
        } else {
            // No colon: drop tokens up to the end of this declaration.
            match value_end(ts, j, 0) {
                None => None,
                Some(e) => parse_decls(ts, if ts[e] is Semicolon {
                    e + 1
                } else {
                    e
                }),
            }
        }
    } else {
        // Unrecognized start: drop tokens up to the end of this declaration.
        match value_end(ts, i, 0) {
            None => None,
            Some(e) => parse_decls(ts, if ts[e] is Semicolon {
                e + 1
            } else {
                e
            }),
        }
    }
}

#[via_fn]
proof fn parse_decls_dec(ts: Seq<TokenV>, i: int) {
    if 0 <= i && i < ts.len() {
        lemma_skip_sp(ts, i + 1);
        let j = skip_sp(ts, i + 1);
        if j < ts.len() {
            lemma_value_end(ts, j + 1, 0);
        }
        lemma_value_end(ts, j, 0);
        lemma_value_end(ts, i, 0);
    }
}

/// `parse_decls` moves strictly forward and stays inside the input.
pub proof fn lemma_parse_decls(ts: Seq<TokenV>, i: int)
    requires
        0 <= i <= ts.len(),
    ensures
        match parse_decls(ts, i) {
            Some((ds, k)) => i < k <= ts.len(),
            None => true,
        },
    decreases ts.len() - i,
{
    if i < ts.len() {
        if ts[i] is Space || ts[i] is Semicolon {
            lemma_parse_decls(ts, i + 1);
        } else if ts[i] is RBrace {
        } else if ts[i] is Ident {
            lemma_skip_sp(ts, i + 1);
            let j = skip_sp(ts, i + 1);
            if j < ts.len() && ts[j] is Colon {
                lemma_value_end(ts, j + 1, 0);
                if let Some(e) = value_end(ts, j + 1, 0) {
                    let next = if ts[e] is Semicolon {
                        e + 1
                    } else {
                        e
                    };
                    lemma_parse_decls(ts, next);
                }
            } else {
                lemma_value_end(ts, j, 0);
                if let Some(e) = value_end(ts, j, 0) {
                    lemma_parse_decls(
                        ts,
                        if ts[e] is Semicolon {
                            e + 1
                        } else {
                            e
                        },
                    );
                }
            }
        } else {
            lemma_value_end(ts, i, 0);
            if let Some(e) = value_end(ts, i, 0) {
                lemma_parse_decls(
                    ts,
                    if ts[e] is Semicolon {
                        e + 1
                    } else {
                        e
                    },
                );
            }
        }
    }
}

// --- at-rules and preludes ---

/// The position of the token that ends an at-rule or selector prelude
/// starting at `i`: a top-level `;` or `{`. A stray `}` is malformed.
pub open spec fn prelude_end(ts: Seq<TokenV>, i: int, d: int) -> Option<int>
    decreases ts.len() - i when 0 <= i
{
    if i >= ts.len() {
        None
    } else if (ts[i] is Semicolon || ts[i] is LBrace) && d == 0 {
        Some(i)
    } else if ts[i] is RBrace && d == 0 {
        None
    } else if opens_paren(ts[i]) {
        prelude_end(ts, i + 1, d + 1)
    } else if ts[i] is RParen {
        prelude_end(ts, i + 1, if d > 0 {
            d - 1
        } else {
            0
        })
    } else {
        prelude_end(ts, i + 1, d)
    }
}

pub proof fn lemma_prelude_end(ts: Seq<TokenV>, i: int, d: int)
    requires
        0 <= i <= ts.len(),
    ensures
        match prelude_end(ts, i, d) {
            Some(e) => i <= e < ts.len() && (ts[e] is Semicolon || ts[e] is LBrace),
            None => true,
        },
    decreases ts.len() - i,
{
    if i < ts.len() && !((ts[i] is Semicolon || ts[i] is LBrace) && d == 0) && !(ts[i] is RBrace
        && d == 0) {
        if opens_paren(ts[i]) {
            lemma_prelude_end(ts, i + 1, d + 1);
        } else if ts[i] is RParen {
            lemma_prelude_end(ts, i + 1, if d > 0 {
                d - 1
            } else {
                0
            });
        } else {
            lemma_prelude_end(ts, i + 1, d);
        }
    }
}

/// The position just past the `}` matching the `{` at `i`.
pub open spec fn block_end(ts: Seq<TokenV>, i: int, d: int) -> Option<int>
    decreases ts.len() - i when 0 <= i
{
    if i >= ts.len() {
        None
    } else if ts[i] is LBrace {
        block_end(ts, i + 1, d + 1)
    } else if ts[i] is RBrace {
        if d <= 1 {
            Some(i + 1)
        } else {
            block_end(ts, i + 1, d - 1)
        }
    } else {
        block_end(ts, i + 1, d)
    }
}

pub proof fn lemma_block_end(ts: Seq<TokenV>, i: int, d: int)
    requires
        0 <= i <= ts.len(),
    ensures
        match block_end(ts, i, d) {
            Some(k) => i < k <= ts.len(),
            None => true,
        },
    decreases ts.len() - i,
{
    if i < ts.len() {
        if ts[i] is LBrace {
            lemma_block_end(ts, i + 1, d + 1);
        } else if ts[i] is RBrace {
            if d > 1 {
                lemma_block_end(ts, i + 1, d - 1);
            }
        } else {
            lemma_block_end(ts, i + 1, d);
        }
    }
}

/// Interprets a finished at-rule. Only `@import` and `@define-color` have
/// meaning; every other at-rule is kept as `Unknown` and later skipped.
pub open spec fn interp_at(name: Seq<u8>, prelude: Seq<TokenV>) -> RuleV {
    let f = filter_sp(prelude);
    if bytes_chars(name) == "import"@ {
        if f.len() >= 1 && f[0] is Url {
            RuleV::Import(f[0]->Url_0)
        } else if f.len() >= 1 && f[0] is Quoted {
            RuleV::Import(f[0]->Quoted_0)
        } else {
            RuleV::Unknown
        }
    } else if bytes_chars(name) == "define-color"@ {
        if f.len() >= 2 && f[0] is Ident {
            RuleV::DefineColor(f[0]->Ident_0, f.skip(1))
        } else {
            RuleV::Unknown
        }
    } else {
        RuleV::Unknown
    }
}

/// The rules of a whole token stream.
pub open spec fn parse_items(ts: Seq<TokenV>, i: int) -> Option<Seq<RuleV>>
    decreases ts.len() - i when 0 <= i
    via parse_items_dec
{
    if i >= ts.len() {
        Some(Seq::empty())
    } else if ts[i] is Space || ts[i] is Semicolon {
        parse_items(ts, i + 1)
    } else if ts[i] is RBrace {
        None
    } else if ts[i] is AtKeyword {
        let name = ts[i]->AtKeyword_0;
        match prelude_end(ts, i + 1, 0) {
            None => None,
            Some(e) => {
                if ts[e] is Semicolon {
                    let rule = interp_at(name, ts.subrange(i + 1, e));
                    match parse_items(ts, e + 1) {
                        None => None,
                        Some(rest) => Some(seq![rule] + rest),
                    }
                } else {
                    match block_end(ts, e, 0) {
                        None => None,
                        Some(k) => match parse_items(ts, k) {
                            None => None,
                            Some(rest) => Some(seq![RuleV::Unknown] + rest),
                        },
                    }
                }
            },
        }
    } else {
        match prelude_end(ts, i, 0) {
            None => None,
            Some(e) => {
                if ts[e] is Semicolon {
                    None
                } else {
                    match parse_decls(ts, e + 1) {
                        None => None,
                        Some((ds, k)) => {
                            let sels = split_sels(ts.subrange(i, e), 0);
                            match parse_items(ts, k) {
                                None => None,
                                Some(rest) => Some(
                                    seq![RuleV::Style(StyleRuleV { selectors: sels, decls: ds })] + rest,
                                ),
                            }
                        },
                    }
                }
            },
        }
    }
}

#[via_fn]
proof fn parse_items_dec(ts: Seq<TokenV>, i: int) {
    if 0 <= i && i < ts.len() {
        lemma_prelude_end(ts, i + 1, 0);
        lemma_prelude_end(ts, i, 0);
        if let Some(e) = prelude_end(ts, i + 1, 0) {
            lemma_block_end(ts, e, 0);
        }
        if let Some(e) = prelude_end(ts, i, 0) {
            lemma_parse_decls(ts, e + 1);
        }
    }
}

/// The parse of a whole stylesheet text, through the tokenizer.
pub open spec fn spec_parse_sheet(s: Seq<u8>) -> Option<Seq<RuleV>> {
    match crate::token::spec_tokenize(s, 0) {
        None => None,
        Some(ts) => parse_items(ts, 0),
    }
}

// --- executable parser ---

proof fn lemma_cons_assoc<T>(a: Seq<T>, x: T, c: Seq<T>)
    ensures
        a.push(x) + c == a + (seq![x] + c),
{
    assert(a.push(x) + c =~= a + (seq![x] + c));
}

pub fn dup_bytes(s: &Vec<u8>) -> (r: Vec<u8>)
    ensures
        r@ == s@,
{
    let mut r: Vec<u8> = Vec::new();
    let mut i: usize = 0;
    while i < s.len()
        invariant
            i <= s@.len(),
            r@ == s@.subrange(0, i as int),
        decreases s@.len() - i,
    {
        r.push(s[i]);
        proof {
            assert(r@ =~= s@.subrange(0, i + 1));
        }
        i += 1;
    }
    proof {
        assert(r@ =~= s@);
    }
    r
}

/// A copy of a token that provably carries the same view.
pub fn dup_token(t: &Token) -> (r: Token)
    ensures
        r@ == t@,
{
    match t {
        Token::Ident(n) => Token::Ident(dup_bytes(n)),
        Token::AtKeyword(n) => Token::AtKeyword(dup_bytes(n)),
        Token::Hash(n) => Token::Hash(dup_bytes(n)),
        Token::Function(n) => Token::Function(dup_bytes(n)),
        Token::Url(n) => Token::Url(dup_bytes(n)),
        Token::Quoted(n) => Token::Quoted(dup_bytes(n)),
        Token::Number(v) => Token::Number(*v),
        Token::Percentage(v) => Token::Percentage(*v),
        Token::Dimension(v, u) => Token::Dimension(*v, dup_bytes(u)),
        Token::Comma => Token::Comma,
        Token::Colon => Token::Colon,
        Token::Semicolon => Token::Semicolon,
        Token::LBrace => Token::LBrace,
        Token::RBrace => Token::RBrace,
        Token::LParen => Token::LParen,
        Token::RParen => Token::RParen,
        Token::Space => Token::Space,
        Token::Delim(b) => Token::Delim(*b),
    }
}

proof fn lemma_toks_view_push(v: Seq<Token>, t: Token)
    ensures
        toks_view(v.push(t)) == toks_view(v).push(t@),
{
    assert(toks_view(v.push(t)) =~= toks_view(v).push(t@));
}

proof fn lemma_filter_sp_push(v: Seq<TokenV>, t: TokenV)
    ensures
        filter_sp(v.push(t)) == (if t is Space {
            filter_sp(v)
        } else {
            filter_sp(v).push(t)
        }),
{
    reveal(Seq::filter);
    assert((v.push(t)).drop_last() =~= v);
    assert((v.push(t)).last() == t);
}

fn sub_tokens(ts: &Vec<Token>, a: usize, b: usize) -> (r: Vec<Token>)
    requires
        a <= b <= ts@.len(),
    ensures
        toks_view(r@) == toks_view(ts@).subrange(a as int, b as int),
{
    let mut r: Vec<Token> = Vec::new();
    let mut i = a;
    proof {
        assert(toks_view(r@) =~= toks_view(ts@).subrange(a as int, a as int));
    }
    while i < b
        invariant
            a <= i <= b <= ts@.len(),
            toks_view(r@) == toks_view(ts@).subrange(a as int, i as int),
        decreases b - i,
    {
        let t = dup_token(&ts[i]);
        proof {
            lemma_toks_view_push(r@, t);
            assert(toks_view(ts@).subrange(a as int, i as int).push(ts@[i as int]@) =~= toks_view(
                ts@,
            ).subrange(a as int, i + 1));
        }
        r.push(t);
        i += 1;
    }
    r
}

fn filter_tokens(ts: &Vec<Token>, a: usize, b: usize) -> (r: Vec<Token>)
    requires
        a <= b <= ts@.len(),
    ensures
        toks_view(r@) == filter_sp(toks_view(ts@).subrange(a as int, b as int)),
{
    let mut r: Vec<Token> = Vec::new();
    let mut i = a;
    proof {
        assert(toks_view(ts@).subrange(a as int, a as int) =~= Seq::<TokenV>::empty());
        reveal(Seq::filter);
        assert(toks_view(r@) =~= filter_sp(toks_view(ts@).subrange(a as int, a as int)));
    }
    while i < b
        invariant
            a <= i <= b <= ts@.len(),
            toks_view(r@) == filter_sp(toks_view(ts@).subrange(a as int, i as int)),
        decreases b - i,
    {
        proof {
            assert(toks_view(ts@).subrange(a as int, i as int).push(ts@[i as int]@) =~= toks_view(
                ts@,
            ).subrange(a as int, i + 1));
            lemma_filter_sp_push(toks_view(ts@).subrange(a as int, i as int), ts@[i as int]@);
        }
        let keep = match &ts[i] {
            Token::Space => false,
            _ => true,
        };
        if keep {
            let t = dup_token(&ts[i]);
            proof {
                lemma_toks_view_push(r@, t);
            }
            r.push(t);
        }
        i += 1;
    }
    r
}

/// Pops a trailing `!important` off a value, returning the flag.
fn strip_important_vec(v: &mut Vec<Token>) -> (imp: bool)
    ensures
        (toks_view(final(v)@), imp) == strip_important(toks_view(old(v)@)),
{
    let n = v.len();
    let is_imp = if n >= 2 {
        let d = match &v[n - 2] {
            Token::Delim(b) => *b == 33,
            _ => false,
        };
        let w = match &v[n - 1] {
            Token::Ident(name) => name_eq(name, "important"),
            _ => false,
        };
        d && w
    } else {
        false
    };
    proof {
        assert(toks_view(v@).len() == v@.len());
        if v@.len() >= 2 {
            assert(toks_view(v@)[v@.len() - 2] == v@[v@.len() - 2]@);
            assert(toks_view(v@).last() == v@[v@.len() - 1]@);
        }
    }
    if is_imp {
        v.pop();
        v.pop();
        proof {
            assert(toks_view(v@) =~= toks_view(old(v)@).take(old(v)@.len() - 2));
        }
        true
    } else {
        false
    }
}

fn is_space_tok(t: &Token) -> (r: bool)
    ensures
        r == (t@ is Space),
{
    match t {
        Token::Space => true,
        _ => false,
    }
}

fn scan_skip_sp(ts: &Vec<Token>, i: usize) -> (j: usize)
    requires
        i <= ts@.len(),
    ensures
        j == skip_sp(toks_view(ts@), i as int),
        i <= j <= ts@.len(),
{
    proof {
        assert(toks_view(ts@).len() == ts@.len());
    }
    let mut k = i;
    while k < ts.len() && is_space_tok(&ts[k])
        invariant
            i <= k <= ts@.len(),
            toks_view(ts@).len() == ts@.len(),
            skip_sp(toks_view(ts@), i as int) == skip_sp(toks_view(ts@), k as int),
            forall|x: int| 0 <= x < ts@.len() ==> toks_view(ts@)[x] == ts@[x]@,
        decreases ts@.len() - k,
    {
        k += 1;
    }
    k
}

/// Classifies one token for the depth-tracking scanners.
fn paren_step(t: &Token) -> (r: (bool, bool))
    ensures
        r.0 == opens_paren(t@),
        r.1 == (t@ is RParen),
{
    match t {
        Token::LParen => (true, false),
        Token::Function(_) => (true, false),
        Token::RParen => (false, true),
        _ => (false, false),
    }
}

fn scan_value_end(ts: &Vec<Token>, i: usize) -> (r: Option<usize>)
    requires
        i <= ts@.len(),
    ensures
        match r {
            Some(e) => value_end(toks_view(ts@), i as int, 0) == Some(e as int) && i <= e
                < ts@.len() && (toks_view(ts@)[e as int] is Semicolon || toks_view(ts@)[e as int]
                is RBrace),
            None => value_end(toks_view(ts@), i as int, 0) is None,
        },
{
    proof {
        assert(toks_view(ts@).len() == ts@.len());
        lemma_value_end(toks_view(ts@), i as int, 0);
    }
    let mut k = i;
    let mut d: usize = 0;
    while k < ts.len()
        invariant
            i <= k <= ts@.len(),
            d <= k,
            toks_view(ts@).len() == ts@.len(),
            value_end(toks_view(ts@), i as int, 0) == value_end(toks_view(ts@), k as int, d as int),
            forall|x: int| 0 <= x < ts@.len() ==> toks_view(ts@)[x] == ts@[x]@,
        decreases ts@.len() - k,
    {
        let t = &ts[k];
        let semi = match t {
            Token::Semicolon => true,
            Token::RBrace => true,
            _ => false,
        };
        if semi && d == 0 {
            proof {
                lemma_value_end(toks_view(ts@), i as int, 0);
            }
            return Some(k);
        }
        let brace = match t {
            Token::LBrace => true,
            _ => false,
        };
        if brace {
            return None;
        }
        let (op, cl) = paren_step(t);
        if op {
            d += 1;
        } else if cl {
            if d > 0 {
                d -= 1;
            }
        }
        k += 1;
    }
    None
}

fn scan_prelude_end(ts: &Vec<Token>, i: usize) -> (r: Option<usize>)
    requires
        i <= ts@.len(),
    ensures
        match r {
            Some(e) => prelude_end(toks_view(ts@), i as int, 0) == Some(e as int) && i <= e
                < ts@.len() && (toks_view(ts@)[e as int] is Semicolon || toks_view(ts@)[e as int]
                is LBrace),
            None => prelude_end(toks_view(ts@), i as int, 0) is None,
        },
{
    proof {
        assert(toks_view(ts@).len() == ts@.len());
        lemma_prelude_end(toks_view(ts@), i as int, 0);
    }
    let mut k = i;
    let mut d: usize = 0;
    while k < ts.len()
        invariant
            i <= k <= ts@.len(),
            d <= k,
            toks_view(ts@).len() == ts@.len(),
            prelude_end(toks_view(ts@), i as int, 0) == prelude_end(
                toks_view(ts@),
                k as int,
                d as int,
            ),
            forall|x: int| 0 <= x < ts@.len() ==> toks_view(ts@)[x] == ts@[x]@,
        decreases ts@.len() - k,
    {
        let t = &ts[k];
        let stop = match t {
            Token::Semicolon => true,
            Token::LBrace => true,
            _ => false,
        };
        if stop && d == 0 {
            proof {
                lemma_prelude_end(toks_view(ts@), i as int, 0);
            }
            return Some(k);
        }
        let rb = match t {
            Token::RBrace => true,
            _ => false,
        };
        if rb && d == 0 {
            return None;
        }
        let (op, cl) = paren_step(t);
        if op {
            d += 1;
        } else if cl {
            if d > 0 {
                d -= 1;
            }
        }
        k += 1;
    }
    None
}

fn scan_block_end(ts: &Vec<Token>, i: usize) -> (r: Option<usize>)
    requires
        i < ts@.len(),
        toks_view(ts@)[i as int] is LBrace,
    ensures
        match r {
            Some(k) => block_end(toks_view(ts@), i as int, 0) == Some(k as int) && i < k
                <= ts@.len(),
            None => block_end(toks_view(ts@), i as int, 0) is None,
        },
{
    proof {
        assert(toks_view(ts@).len() == ts@.len());
        lemma_block_end(toks_view(ts@), i as int, 0);
    }
    let n = ts.len();
    let mut k = i + 1;
    let mut d: usize = 1;
    proof {
        assert(block_end(toks_view(ts@), i as int, 0) == block_end(toks_view(ts@), i + 1, 1));
    }
    while k < ts.len()
        invariant
            i + 1 <= k <= ts@.len(),
            1 <= d <= k - i,
            toks_view(ts@).len() == ts@.len(),
            block_end(toks_view(ts@), i as int, 0) == block_end(toks_view(ts@), k as int, d as int),
            forall|x: int| 0 <= x < ts@.len() ==> toks_view(ts@)[x] == ts@[x]@,
        decreases ts@.len() - k,
    {
        let t = &ts[k];
        let lb = match t {
            Token::LBrace => true,
            _ => false,
        };
        let rb = match t {
            Token::RBrace => true,
            _ => false,
        };
        if lb {
            d += 1;
        } else if rb {
            if d <= 1 {
                return Some(k + 1);
            }
            d -= 1;
        }
        k += 1;
    }
    None
}

/// Builds the canonical text of the selector tokens `ts[a..b)`.
fn sel_text_exec(ts: &Vec<Token>, a: usize, b: usize) -> (r: Vec<u8>)
    requires
        a <= b <= ts@.len(),
    ensures
        r@ == sel_text(toks_view(ts@).subrange(a as int, b as int)),
{
    let ghost sub = toks_view(ts@).subrange(a as int, b as int);
    let mut acc: Vec<u8> = Vec::new();
    let mut i = a;
    proof {
        assert(sel_fold(sub, 0, Seq::empty()) == sel_fold(sub, 0, acc@));
    }
    while i < b
        invariant
            a <= i <= b <= ts@.len(),
            sub == toks_view(ts@).subrange(a as int, b as int),
            sub.len() == b - a,
            sel_fold(sub, 0, Seq::empty()) == sel_fold(sub, i - a, acc@),
            forall|x: int| 0 <= x < sub.len() ==> sub[x] == ts@[a + x]@,
        decreases b - i,
    {
        let ghost before = acc@;
        match &ts[i] {
            Token::Space => {
                let push_sp = acc.len() > 0 && *acc.last().unwrap() != 32;
                if push_sp {
                    acc.push(32);
                }
            },
            Token::Ident(n) => {
                let mut j: usize = 0;
                while j < n.len()
                    invariant
                        j <= n@.len(),
                        acc@ == before + n@.subrange(0, j as int),
                    decreases n@.len() - j,
                {
                    acc.push(n[j]);
                    proof {
                        assert(before + n@.subrange(0, j as int) + seq![n@[j as int]] =~= before
                            + n@.subrange(0, j + 1));
                    }
                    j += 1;
                }
                proof {
                    assert(n@.subrange(0, n@.len() as int) =~= n@);
                }
            },
            Token::Hash(n) => {
                acc.push(35);
                let ghost mid = acc@;
                let mut j: usize = 0;
                while j < n.len()
                    invariant
                        j <= n@.len(),
                        acc@ == mid + n@.subrange(0, j as int),
                    decreases n@.len() - j,
                {
                    acc.push(n[j]);
                    proof {
                        assert(mid + n@.subrange(0, j as int) + seq![n@[j as int]] =~= mid
                            + n@.subrange(0, j + 1));
                    }
                    j += 1;
                }
                proof {
                    assert(n@.subrange(0, n@.len() as int) =~= n@);
                    assert(mid =~= before.push(35));
                }
            },
            Token::Colon => {
                acc.push(58);
            },
            Token::Delim(bb) => {
                if *bb == 62 {
                    let push_sp = acc.len() > 0 && *acc.last().unwrap() != 32;
                    if push_sp {
                        acc.push(32);
                    }
                    acc.push(62);
                    acc.push(32);
                } else {
                    acc.push(*bb);
                }
            },
            _ => {
                acc.push(0);
            },
        }
        proof {
            assert(acc@ == sel_push(before, sub[i - a]));
            assert(sel_fold(sub, i - a, before) == sel_fold(sub, i - a + 1, acc@));
        }
        i += 1;
    }
    let trim = acc.len() > 0 && *acc.last().unwrap() == 32;
    if trim {
        acc.pop();
        proof {
            assert(acc@ =~= sel_fold(sub, sub.len() as int, sel_fold(
                sub,
                0,
                Seq::empty(),
            )).drop_last());
        }
    }
    acc
}

fn seg_end_exec(ts: &Vec<Token>, i: usize) -> (e: usize)
    requires
        i <= ts@.len(),
    ensures
        e == sel_seg_end(toks_view(ts@), i as int, 0),
        i <= e <= ts@.len(),
{
    proof {
        assert(toks_view(ts@).len() == ts@.len());
        lemma_sel_seg_end(toks_view(ts@), i as int, 0);
    }
    let mut k = i;
    let mut d: usize = 0;
    while k < ts.len()
        invariant
            i <= k <= ts@.len(),
            d <= k,
            toks_view(ts@).len() == ts@.len(),
            sel_seg_end(toks_view(ts@), i as int, 0) == sel_seg_end(
                toks_view(ts@),
                k as int,
                d as int,
            ),
            forall|x: int| 0 <= x < ts@.len() ==> toks_view(ts@)[x] == ts@[x]@,
        decreases ts@.len() - k,
    {
        let t = &ts[k];
        let comma = match t {
            Token::Comma => true,
            _ => false,
        };
        if comma && d == 0 {
            return k;
        }
        let (op, cl) = paren_step(t);
        if op {
            d += 1;
        } else if cl {
            if d > 0 {
                d -= 1;
            }
        }
        k += 1;
    }
    k
}

/// The canonical texts of the comma-separated selector list `ts[a..b)`.
fn sel_list_exec(ts: &Vec<Token>, a: usize, b: usize) -> (r: Vec<Vec<u8>>)
    requires
        a <= b <= ts@.len(),
    ensures
        sels_view(r@) == split_sels(toks_view(ts@).subrange(a as int, b as int), 0),
{
    let sub = sub_tokens(ts, a, b);
    let ghost subv = toks_view(sub@);
    let n = sub.len();
    proof {
        assert(subv.len() == n);
    }
    let mut acc: Vec<Vec<u8>> = Vec::new();
    let mut i: usize = 0;
    let mut done = false;
    while !done
        invariant
            subv == toks_view(sub@),
            subv.len() == n == sub@.len(),
            i <= n + 1,
            !done ==> i <= n,
            !done ==> split_sels(subv, 0) == sels_view(acc@) + split_sels(subv, i as int),
            done ==> split_sels(subv, 0) == sels_view(acc@),
        decreases n + 1 - i, (if done {
            0int
        } else {
            1int
        }),
    {
        let e = seg_end_exec(&sub, i);
        let text = sel_text_exec(&sub, i, e);
        proof {
            assert(sels_view(acc@.push(text)) =~= sels_view(acc@).push(text@));
        }
        acc.push(text);
        proof {
            let tail = if e < n {
                split_sels(subv, e + 1)
            } else {
                Seq::<Seq<u8>>::empty()
            };
            assert(split_sels(subv, i as int) == seq![sel_text(subv.subrange(i as int, e as int))]
                + tail);
            assert(sels_view(acc@) + tail =~= (sels_view(acc@).drop_last() + (seq![text@] + tail)));
        }
        if e < n {
            i = e + 1;
        } else {
            done = true;
            proof {
                assert(split_sels(subv, i as int) =~= seq![sel_text(
                    subv.subrange(i as int, e as int),
                )]);
                assert(sels_view(acc@) + Seq::<Seq<u8>>::empty() =~= sels_view(acc@));
            }
        }
    }
    acc
}

/// Parses the declarations of one block, the cursor standing just inside
/// the braces; returns them with the position just past the closing brace.
fn parse_decls_exec(ts: &Vec<Token>, i0: usize) -> (r: Option<(Vec<Declaration>, usize)>)
    requires
        i0 <= ts@.len(),
    ensures
        match r {
            Some((ds, k)) => parse_decls(toks_view(ts@), i0 as int) == Some(
                (decls_view(ds@), k as int),
            ) && i0 < k <= ts@.len(),
            None => parse_decls(toks_view(ts@), i0 as int) is None,
        },
{
    let ghost tv = toks_view(ts@);
    proof {
        assert(tv.len() == ts@.len());
    }
    let mut acc: Vec<Declaration> = Vec::new();
    let mut i = i0;
    proof {
        assert(decls_view(acc@) =~= Seq::<DeclarationV>::empty());
    }
    loop
        invariant
            tv == toks_view(ts@),
            tv.len() == ts@.len(),
            i0 <= i <= ts@.len(),
            forall|x: int| 0 <= x < tv.len() ==> tv[x] == ts@[x]@,
            parse_decls(tv, i0 as int) == (match parse_decls(tv, i as int) {
                None => None::<(Seq<DeclarationV>, int)>,
                Some((ds, k)) => Some((decls_view(acc@) + ds, k)),
            }),
        decreases ts@.len() - i,
    {
        if i >= ts.len() {
            return None;
        }
        let skip = {
            match &ts[i] {
                Token::Space => true,
                Token::Semicolon => true,
                _ => false,
            }
        };
        if skip {
            i += 1;
            continue ;
        }
        let rb = match &ts[i] {
            Token::RBrace => true,
            _ => false,
        };
        if rb {
            proof {
                assert(parse_decls(tv, i as int) == Some((Seq::<DeclarationV>::empty(), i + 1)));
                assert(decls_view(acc@) + Seq::<DeclarationV>::empty() =~= decls_view(acc@));
            }
            return Some((acc, i + 1));
        }
        let is_ident = match &ts[i] {
            Token::Ident(_) => true,
            _ => false,
        };
        if is_ident {
            let j = scan_skip_sp(ts, i + 1);
            let has_colon = j < ts.len() && (match &ts[j] {
                Token::Colon => true,
                _ => false,
            });
            if has_colon {
                match scan_value_end(ts, j + 1) {
                    None => {
                        return None;
                    },
                    Some(e) => {
                        let prop = match &ts[i] {
                            Token::Ident(n) => dup_bytes(n),
                            _ => Vec::new(),
                        };
                        let mut val = filter_tokens(ts, j + 1, e);
                        let imp = strip_important_vec(&mut val);
                        let d = Declaration { property: prop, value: val, important: imp };
                        let semi = match &ts[e] {
                            Token::Semicolon => true,
                            _ => false,
                        };
                        let next = if semi {
                            e + 1
                        } else {
                            e
                        };
                        proof {
                            assert(decls_view(acc@.push(d)) =~= decls_view(acc@).push(d@));
                            match parse_decls(tv, next as int) {
                                Some(pair) => {
                                    lemma_cons_assoc(decls_view(acc@), d@, pair.0);
                                },
                                None => {},
                            }
                        }
                        acc.push(d);
                        i = next;
                    },
                }
            } else {
                match scan_value_end(ts, j) {
                    None => {
                        return None;
                    },
                    Some(e) => {
                        let semi = match &ts[e] {
                            Token::Semicolon => true,
                            _ => false,
                        };
                        i = if semi {
                            e + 1
                        } else {
                            e
                        };
                    },
                }
            }
        } else {
            match scan_value_end(ts, i) {
                None => {
                    return None;
                },
                Some(e) => {
                    let semi = match &ts[e] {
                        Token::Semicolon => true,
                        _ => false,
                    };
                    i = if semi {
                        e + 1
                    } else {
                        e
                    };
                },
            }
        }
    }
}

/// Interprets a finished at-rule from its name and unfiltered prelude.
fn interp_at_exec(ts: &Vec<Token>, name: &Vec<u8>, a: usize, b: usize) -> (r: Rule)
    requires
        a <= b <= ts@.len(),
    ensures
        r@ == interp_at(name@, toks_view(ts@).subrange(a as int, b as int)),
{
    let f = filter_tokens(ts, a, b);
    proof {
        assert(toks_view(f@).len() == f@.len());
        if f@.len() > 0 {
            assert(toks_view(f@)[0] == f@[0]@);
        }
    }
    if name_eq(name, "import") {
        if f.len() >= 1 {
            match &f[0] {
                Token::Url(u) => Rule::Import(dup_bytes(u)),
                Token::Quoted(u) => Rule::Import(dup_bytes(u)),
                _ => Rule::Unknown,
            }
        } else {
            Rule::Unknown
        }
    } else if name_eq(name, "define-color") {
        if f.len() >= 2 {
            match &f[0] {
                Token::Ident(n) => {
                    let var = dup_bytes(n);
                    let val = sub_tokens(&f, 1, f.len());
                    proof {
                        assert(toks_view(f@).subrange(1, f@.len() as int) =~= toks_view(
                            f@,
                        ).skip(1));
                    }
                    Rule::DefineColor(var, val)
                },
                _ => Rule::Unknown,
            }
        } else {
            Rule::Unknown
        }
    } else {
        Rule::Unknown
    }
}

/// Parses a whole stylesheet text into its rules.
pub fn parse_sheet(s: &Vec<u8>) -> (r: Result<Vec<Rule>, crate::ThemeError>)
    ensures
        match r {
            Ok(rs) => spec_parse_sheet(s@) == Some(rules_view(rs@)),
            Err(e) => e == crate::ThemeError::ParseError && spec_parse_sheet(s@) is None,
        },
{
    let ts = match crate::token::tokenize(s) {
        None => {
            return Err(crate::ThemeError::ParseError);
        },
        Some(ts) => ts,
    };
    let ghost tv = toks_view(ts@);
    proof {
        assert(tv.len() == ts@.len());
    }
    let mut acc: Vec<Rule> = Vec::new();
    let mut i: usize = 0;
    proof {
        assert(rules_view(acc@) =~= Seq::<RuleV>::empty());
    }
    loop
        invariant
            tv == toks_view(ts@),
            tv.len() == ts@.len(),
            i <= ts@.len(),
            spec_parse_sheet(s@) == parse_items(tv, 0),
            forall|x: int| 0 <= x < tv.len() ==> tv[x] == ts@[x]@,
            parse_items(tv, 0) == (match parse_items(tv, i as int) {
                None => None::<Seq<RuleV>>,
                Some(rest) => Some(rules_view(acc@) + rest),
            }),
        decreases ts@.len() - i,
    {
        if i >= ts.len() {
            proof {
                assert(parse_items(tv, i as int) == Some(Seq::<RuleV>::empty()));
                assert(rules_view(acc@) + Seq::<RuleV>::empty() =~= rules_view(acc@));
            }
            return Ok(acc);
        }
        let skip = match &ts[i] {
            Token::Space => true,
            Token::Semicolon => true,
            _ => false,
        };
        if skip {
            i += 1;
            continue ;
        }
        let rb = match &ts[i] {
            Token::RBrace => true,
            _ => false,
        };
        if rb {
            return Err(crate::ThemeError::ParseError);
        }
        let at_name: Option<Vec<u8>> = match &ts[i] {
            Token::AtKeyword(n) => Some(dup_bytes(n)),
            _ => None,
        };
        match at_name {
            Some(name) => {
                match scan_prelude_end(&ts, i + 1) {
                    None => {
                        return Err(crate::ThemeError::ParseError);
                    },
                    Some(e) => {
                        let semi = match &ts[e] {
                            Token::Semicolon => true,
                            _ => false,
                        };
                        if semi {
                            let rule = interp_at_exec(&ts, &name, i + 1, e);
                            proof {
                                assert(rules_view(acc@.push(rule)) =~= rules_view(acc@).push(
                                    rule@,
                                ));
                                match parse_items(tv, e + 1) {
                                    Some(rest) => {
                                        lemma_cons_assoc(rules_view(acc@), rule@, rest);
                                    },
                                    None => {},
                                }
                            }
                            acc.push(rule);
                            i = e + 1;
                        } else {
                            match scan_block_end(&ts, e) {
                                None => {
                                    return Err(crate::ThemeError::ParseError);
                                },
                                Some(k) => {
                                    let rule = Rule::Unknown;
                                    proof {
                                        assert(rules_view(acc@.push(rule)) =~= rules_view(
                                            acc@,
                                        ).push(rule@));
                                        match parse_items(tv, k as int) {
                                            Some(rest) => {
                                                lemma_cons_assoc(rules_view(acc@), rule@, rest);
                                            },
                                            None => {},
                                        }
                                    }
                                    acc.push(rule);
                                    i = k;
                                },
                            }
                        }
                    },
                }
            },
            None => {
                match scan_prelude_end(&ts, i) {
                    None => {
                        return Err(crate::ThemeError::ParseError);
                    },
                    Some(e) => {
                        let semi = match &ts[e] {
                            Token::Semicolon => true,
                            _ => false,
                        };
                        if semi {
                            return Err(crate::ThemeError::ParseError);
                        }
                        match parse_decls_exec(&ts, e + 1) {
                            None => {
                                return Err(crate::ThemeError::ParseError);
                            },
                            Some((ds, k)) => {
                                let sels = sel_list_exec(&ts, i, e);
                                let rule = Rule::Style(StyleRule { selectors: sels, decls: ds });
                                proof {
                                    assert(rules_view(acc@.push(rule)) =~= rules_view(acc@).push(
                                        rule@,
                                    ));
                                    match parse_items(tv, k as int) {
                                        Some(rest) => {
                                            lemma_cons_assoc(rules_view(acc@), rule@, rest);
                                        },
                                        None => {},
                                    }
                                }
                                acc.push(rule);
                                i = k;
                            },
                        }
                    },
                }
            },
        }
    }
}

} // verus!
