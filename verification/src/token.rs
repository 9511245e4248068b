//! Byte-level tokenizer for the GTK CSS dialect. The recursive spec
//! functions are the definition of the token grammar; the executable
//! scanner is proved to produce exactly what they describe.
use vstd::prelude::*;

use crate::color::bytes_chars;
use crate::color::name_eq;

verus! {

/// One lexical token. Numeric values are kept in thousandths (a literal
/// `0.5` becomes `500`); fraction digits beyond the third are read but
/// dropped, and numbers with more than nine integer digits are rejected.
#[derive(Debug, Clone, PartialEq, Eq)]
pub enum Token {
    Ident(Vec<u8>),
    AtKeyword(Vec<u8>),
    Hash(Vec<u8>),
    Function(Vec<u8>),
    Url(Vec<u8>),
    Quoted(Vec<u8>),
    Number(i64),
    Percentage(i64),
    Dimension(i64, Vec<u8>),
    Comma,
    Colon,
    Semicolon,
    LBrace,
    RBrace,
    LParen,
    RParen,
    Space,
    Delim(u8),
}

/// The mathematical shadow of `Token`, over sequences and integers.
pub enum TokenV {
    Ident(Seq<u8>),
    AtKeyword(Seq<u8>),
    Hash(Seq<u8>),
    Function(Seq<u8>),
    Url(Seq<u8>),
    Quoted(Seq<u8>),
    Number(int),
    Percentage(int),
    Dimension(int, Seq<u8>),
    Comma,
    Colon,
    Semicolon,
    LBrace,
    RBrace,
    LParen,
    RParen,
    Space,
    Delim(u8),
}

impl View for Token {
    type V = TokenV;

    open spec fn view(&self) -> TokenV {
        match self {
            Token::Ident(n) => TokenV::Ident(n@),
            Token::AtKeyword(n) => TokenV::AtKeyword(n@),
            Token::Hash(n) => TokenV::Hash(n@),
            Token::Function(n) => TokenV::Function(n@),
            Token::Url(n) => TokenV::Url(n@),
            Token::Quoted(n) => TokenV::Quoted(n@),
            Token::Number(v) => TokenV::Number(*v as int),
            Token::Percentage(v) => TokenV::Percentage(*v as int),
            Token::Dimension(v, u) => TokenV::Dimension(*v as int, u@),
            Token::Comma => TokenV::Comma,
            Token::Colon => TokenV::Colon,
            Token::Semicolon => TokenV::Semicolon,
            Token::LBrace => TokenV::LBrace,
            Token::RBrace => TokenV::RBrace,
            Token::LParen => TokenV::LParen,
            Token::RParen => TokenV::RParen,
            Token::Space => TokenV::Space,
            Token::Delim(b) => TokenV::Delim(*b),
        }
    }
}

pub open spec fn toks_view(v: Seq<Token>) -> Seq<TokenV> {
    v.map_values(|t: Token| t@)
}

// Character classes, by ASCII code: 9 tab, 10 newline, 12 form feed,
// 13 carriage return, 32 space; 48..57 digits; 65..90 and 97..122 letters.

pub open spec fn is_ws(b: u8) -> bool {
    b == 32 || b == 9 || b == 10 || b == 13 || b == 12
}

pub open spec fn is_digit(b: u8) -> bool {
    48 <= b <= 57
}

pub open spec fn is_letter(b: u8) -> bool {
    (65 <= b <= 90) || (97 <= b <= 122)
}

/// A byte that may start an identifier: a letter, `_`, or a non-ASCII byte.
pub open spec fn is_ident_start(b: u8) -> bool {
    is_letter(b) || b == 95 || b >= 128
}

/// A byte that may continue an identifier: also digits and `-`.
pub open spec fn is_ident_char(b: u8) -> bool {
    is_ident_start(b) || is_digit(b) || b == 45
}

/// First position at or after `i` that is not whitespace.
pub open spec fn ws_end(s: Seq<u8>, i: int) -> int
    decreases s.len() - i when 0 <= i
{
    if i < s.len() && is_ws(s[i]) {
        ws_end(s, i + 1)
    } else {
        i
    }
}

pub proof fn lemma_ws_end(s: Seq<u8>, i: int)
    requires
        0 <= i <= s.len(),
    ensures
        i <= ws_end(s, i) <= s.len(),
    decreases s.len() - i,
{
    if i < s.len() && is_ws(s[i]) {
        lemma_ws_end(s, i + 1);
    }
}

/// First position at or after `i` that cannot continue an identifier.
pub open spec fn ident_end(s: Seq<u8>, i: int) -> int
    decreases s.len() - i when 0 <= i
{
    if i < s.len() && is_ident_char(s[i]) {
        ident_end(s, i + 1)
    } else {
        i
    }
}

pub proof fn lemma_ident_end(s: Seq<u8>, i: int)
    requires
        0 <= i <= s.len(),
    ensures
        i <= ident_end(s, i) <= s.len(),
    decreases s.len() - i,
{
    if i < s.len() && is_ident_char(s[i]) {
        lemma_ident_end(s, i + 1);
    }
}

/// First position at or after `i` that is not a digit.
pub open spec fn digits_end(s: Seq<u8>, i: int) -> int
    decreases s.len() - i when 0 <= i
{
    if i < s.len() && is_digit(s[i]) {
        digits_end(s, i + 1)
    } else {
        i
    }
}

pub proof fn lemma_digits_end(s: Seq<u8>, i: int)
    requires
        0 <= i <= s.len(),
    ensures
        i <= digits_end(s, i) <= s.len(),
    decreases s.len() - i,
{
    if i < s.len() && is_digit(s[i]) {
        lemma_digits_end(s, i + 1);
    }
}

/// The first occurrence of byte `q` at or after `i`, if any.
pub open spec fn find_byte(s: Seq<u8>, i: int, q: u8) -> Option<int>
    decreases s.len() - i when 0 <= i
{
    if 0 <= i && i < s.len() {
        if s[i] == q {
            Some(i)
        } else {
            find_byte(s, i + 1, q)
        }
    } else {
        None
    }
}

pub proof fn lemma_find_byte(s: Seq<u8>, i: int, q: u8)
    requires
        0 <= i <= s.len(),
    ensures
        match find_byte(s, i, q) {
            Some(j) => i <= j < s.len() && s[j] == q,
            None => true,
        },
    decreases s.len() - i,
{
    if 0 <= i && i < s.len() && s[i] != q {
        lemma_find_byte(s, i + 1, q);
    }
}

/// The position just past the first `*/` at or after `i`, if any.
pub open spec fn comment_end(s: Seq<u8>, i: int) -> Option<int>
    decreases s.len() - i when 0 <= i
{
    if 0 <= i && i + 1 < s.len() {
        if s[i] == 42 && s[i + 1] == 47 {
            Some(i + 2)
        } else {
            comment_end(s, i + 1)
        }
    } else {
        None
    }
}

pub proof fn lemma_comment_end(s: Seq<u8>, i: int)
    requires
        0 <= i <= s.len(),
    ensures
        match comment_end(s, i) {
            Some(j) => i + 2 <= j <= s.len(),
            None => true,
        },
    decreases s.len() - i,
{
    if 0 <= i && i + 1 < s.len() && !(s[i] == 42 && s[i + 1] == 47) {
        lemma_comment_end(s, i + 1);
    }
}

/// The value of the decimal digits in `s[i..j)`, read left to right.
pub open spec fn digits_val(s: Seq<u8>, i: int, j: int) -> int
    decreases j - i when i <= j
{
    if i < j {
        digits_val(s, i, j - 1) * 10 + (s[j - 1] - 48)
    } else {
        0
    }
}

/// The first up-to-three fraction digits of `s[i..j)` as thousandths.
pub open spec fn frac_milli(s: Seq<u8>, i: int, j: int) -> int {
    (if j > i {
        (s[i] - 48) * 100
    } else {
        0
    }) + (if j > i + 1 {
        (s[i + 1] - 48) * 10
    } else {
        0
    }) + (if j > i + 2 {
        (s[i + 2] - 48) as int
    } else {
        0
    })
}

/// Whether a numeric token starts at `i`.
pub open spec fn starts_number(s: Seq<u8>, i: int) -> bool {
    is_digit(s[i]) || ((s[i] == 43 || s[i] == 45) && i + 1 < s.len() && (is_digit(s[i + 1]) || (
    s[i + 1] == 46 && i + 2 < s.len() && is_digit(s[i + 2])))) || (s[i] == 46 && i + 1 < s.len()
        && is_digit(s[i + 1]))
}

/// Reads the numeric token at `i`: sign, integer digits, optional fraction,
/// then a `%`, a unit identifier, or nothing.
pub open spec fn spec_number(s: Seq<u8>, i: int) -> Option<(TokenV, int)> {
    let (sign, p): (int, int) = if s[i] == 43 {
        (1, i + 1)
    } else if s[i] == 45 {
        (-1, i + 1)
    } else {
        (1, i)
    };
    let d = digits_end(s, p);
    if d - p > 9 {
        None
    } else {
        let iv = digits_val(s, p, d);
        let (mval, q): (int, int) = if d < s.len() && s[d] == 46 && d + 1 < s.len() && is_digit(
            s[d + 1],
        ) {
            let f = digits_end(s, d + 1);
            (iv * 1000 + frac_milli(s, d + 1, f), f)
        } else {
            (iv * 1000, d)
        };
        if q < s.len() && s[q] == 37 {
            // `%`: the token value is the fraction in thousandths.
            Some((TokenV::Percentage(sign * (mval / 100)), q + 1))
        } else if q < s.len() && (is_ident_start(s[q]) || (s[q] == 45 && q + 1 < s.len()
            && is_ident_char(s[q + 1]))) {
            Some((TokenV::Dimension(sign * mval, s.subrange(q, ident_end(s, q))), ident_end(s, q)))
        } else {
            Some((TokenV::Number(sign * mval), q))
        }
    }
}

/// Reads the token that starts at position `i`.
pub open spec fn spec_next(s: Seq<u8>, i: int) -> Option<(TokenV, int)>
    recommends
        0 <= i < s.len(),
{
    let b = s[i];
    if is_ws(b) {
        Some((TokenV::Space, ws_end(s, i + 1)))
    } else if b == 47 && i + 1 < s.len() && s[i + 1] == 42 {
        // `/*`: a comment reads as whitespace.
        match comment_end(s, i + 2) {
            Some(j) => Some((TokenV::Space, j)),
            None => None,
        }
    } else if b == 34 || b == 39 {
        // A quoted string, single or double.
        match find_byte(s, i + 1, b) {
            Some(j) => Some((TokenV::Quoted(s.subrange(i + 1, j)), j + 1)),
            None => None,
        }
    } else if b == 35 {
        Some((TokenV::Hash(s.subrange(i + 1, ident_end(s, i + 1))), ident_end(s, i + 1)))
    } else if b == 64 {
        if i + 1 < s.len() && is_ident_char(s[i + 1]) {
            Some((TokenV::AtKeyword(s.subrange(i + 1, ident_end(s, i + 1))), ident_end(s, i + 1)))
        } else {
            Some((TokenV::Delim(64), i + 1))
        }
    } else if starts_number(s, i) {
        spec_number(s, i)
    } else if is_ident_start(b) || (b == 45 && i + 1 < s.len() && is_ident_char(s[i + 1])) {
        let j = ident_end(s, i);
        let name = s.subrange(i, j);
        if j < s.len() && s[j] == 40 {
            if bytes_chars(name) == "url"@ {
                spec_url(s, j + 1)
            } else {
                Some((TokenV::Function(name), j + 1))
            }
        } else {
            Some((TokenV::Ident(name), j))
        }
    } else if b == 44 {
        Some((TokenV::Comma, i + 1))
    } else if b == 58 {
        Some((TokenV::Colon, i + 1))
    } else if b == 59 {
        Some((TokenV::Semicolon, i + 1))
    } else if b == 123 {
        Some((TokenV::LBrace, i + 1))
    } else if b == 125 {
        Some((TokenV::RBrace, i + 1))
    } else if b == 40 {
        Some((TokenV::LParen, i + 1))
    } else if b == 41 {
        Some((TokenV::RParen, i + 1))
    } else {
        Some((TokenV::Delim(b), i + 1))
    }
}

/// Reads the body of a `url(...)` token, `i` standing just after the
/// opening parenthesis: either a quoted path or raw bytes up to `)`.
pub open spec fn spec_url(s: Seq<u8>, i: int) -> Option<(TokenV, int)> {
    let k = ws_end(s, i);
    if k < s.len() && (s[k] == 34 || s[k] == 39) {
        match find_byte(s, k + 1, s[k]) {
            Some(q) => {
                let e = ws_end(s, q + 1);
                if e < s.len() && s[e] == 41 {
                    Some((TokenV::Url(s.subrange(k + 1, q)), e + 1))
                } else {
                    None
                }
            },
            None => None,
        }
    } else {
        match find_byte(s, k, 41) {
            Some(q) => Some((TokenV::Url(s.subrange(k, q)), q + 1)),
            None => None,
        }
    }
}

/// Every token occupies at least one byte and stays inside the input.
pub proof fn lemma_next_advances(s: Seq<u8>, i: int)
    requires
        0 <= i < s.len(),
    ensures
        match spec_next(s, i) {
            Some((t, j)) => i < j <= s.len(),
            None => true,
        },
{
    lemma_ws_end(s, i + 1);
    if i + 2 <= s.len() {
        lemma_comment_end(s, i + 2);
    }
    lemma_find_byte(s, i + 1, s[i]);
    lemma_ident_end(s, i + 1);
    lemma_ident_end(s, i);
    if starts_number(s, i) {
        lemma_number_advances(s, i);
    }
    let j = ident_end(s, i);
    if i < j && j < s.len() && s[j] == 40 {
        lemma_url_advances(s, j + 1);
    }
}

pub proof fn lemma_number_advances(s: Seq<u8>, i: int)
    requires
        0 <= i < s.len(),
        starts_number(s, i),
    ensures
        match spec_number(s, i) {
            Some((t, j)) => i < j <= s.len(),
            None => true,
        },
{
    let p = if s[i] == 43 || s[i] == 45 {
        i + 1
    } else {
        i
    };
    lemma_digits_end(s, p);
    let d = digits_end(s, p);
    if d < s.len() && s[d] == 46 && d + 1 < s.len() && is_digit(s[d + 1]) {
        lemma_digits_end(s, d + 2);
        assert(digits_end(s, d + 1) == digits_end(s, d + 2));
        let f = digits_end(s, d + 1);
        lemma_ident_end(s, f);
    } else {
        lemma_ident_end(s, d);
        if p == i {
            lemma_digits_end(s, p + 1);
            assert(digits_end(s, p) == digits_end(s, p + 1));
        }
    }
}

pub proof fn lemma_url_advances(s: Seq<u8>, i: int)
    requires
        0 <= i <= s.len(),
    ensures
        match spec_url(s, i) {
            Some((t, j)) => i < j <= s.len(),
            None => true,
        },
{
    lemma_ws_end(s, i);
    let k = ws_end(s, i);
    if k < s.len() && (s[k] == 34 || s[k] == 39) {
        lemma_find_byte(s, k + 1, s[k]);
        if let Some(q) = find_byte(s, k + 1, s[k]) {
            lemma_ws_end(s, q + 1);
        }
    } else {
        lemma_find_byte(s, k, 41);
    }
}

/// The token sequence of `s[i..]`, or `None` on a malformed suffix.
pub open spec fn spec_tokenize(s: Seq<u8>, i: int) -> Option<Seq<TokenV>>
    decreases s.len() - i when 0 <= i
    via spec_tokenize_dec
{
    if i >= s.len() {
        Some(Seq::empty())
    } else {
        match spec_next(s, i) {
            None => None,
            Some((t, j)) => match spec_tokenize(s, j) {
                None => None,
                Some(rest) => Some(seq![t] + rest),
            },
        }
    }
}

#[via_fn]
proof fn spec_tokenize_dec(s: Seq<u8>, i: int) {
    if 0 <= i && i < s.len() {
        lemma_next_advances(s, i);
    }
}

pub open spec fn pow10(n: nat) -> int
    decreases n,
{
    if n == 0 {
        1
    } else {
        10 * pow10((n - 1) as nat)
    }
}

pub proof fn lemma_pow10_pos(a: nat)
    ensures
        pow10(a) >= 1,
    decreases a,
{
    if a > 0 {
        lemma_pow10_pos((a - 1) as nat);
    }
}

pub proof fn lemma_pow10_mono(a: nat, b: nat)
    requires
        a <= b,
    ensures
        1 <= pow10(a) <= pow10(b),
    decreases b,
{
    lemma_pow10_pos(a);
    if a < b {
        lemma_pow10_mono(a, (b - 1) as nat);
    }
}

/// Runs of digits are everywhere digits, and their value is bounded by a
/// power of ten in the run length.
pub proof fn lemma_digits_all(s: Seq<u8>, i: int)
    requires
        0 <= i <= s.len(),
    ensures
        forall|x: int| i <= x < digits_end(s, i) ==> is_digit(s[x]),
    decreases s.len() - i,
{
    if i < s.len() && is_digit(s[i]) {
        lemma_digits_all(s, i + 1);
        lemma_digits_end(s, i + 1);
    }
}

pub proof fn lemma_digits_val_bound(s: Seq<u8>, i: int, j: int)
    requires
        i <= j,
        forall|x: int| i <= x < j ==> is_digit(s[x]),
    ensures
        0 <= digits_val(s, i, j) < pow10((j - i) as nat),
    decreases j - i,
{
    if i < j {
        lemma_digits_val_bound(s, i, j - 1);
    }
}

fn ws_byte(b: u8) -> (r: bool)
    ensures
        r == is_ws(b),
{
    b == 32 || b == 9 || b == 10 || b == 13 || b == 12
}

fn digit_byte(b: u8) -> (r: bool)
    ensures
        r == is_digit(b),
{
    48 <= b && b <= 57
}

fn ident_start_byte(b: u8) -> (r: bool)
    ensures
        r == is_ident_start(b),
{
    (65 <= b && b <= 90) || (97 <= b && b <= 122) || b == 95 || b >= 128
}

fn ident_char_byte(b: u8) -> (r: bool)
    ensures
        r == is_ident_char(b),
{
    ident_start_byte(b) || digit_byte(b) || b == 45
}

/// Copies `s[a..b)` out as a fresh byte vector.
pub fn sub_vec_pub(s: &Vec<u8>, a: usize, b: usize) -> (v: Vec<u8>)
    requires
        a <= b <= s@.len(),
    ensures
        v@ == s@.subrange(a as int, b as int),
{
    sub_vec(s, a, b)
}

fn sub_vec(s: &Vec<u8>, a: usize, b: usize) -> (v: Vec<u8>)
    requires
        a <= b <= s@.len(),
    ensures
        v@ == s@.subrange(a as int, b as int),
{
    let sl = vstd::slice::slice_subrange(s.as_slice(), a, b);
    vstd::slice::slice_to_vec(sl)
}

fn scan_ws(s: &Vec<u8>, i: usize) -> (j: usize)
    requires
        i <= s@.len(),
    ensures
        j == ws_end(s@, i as int),
        i <= j <= s@.len(),
{
    let mut k = i;
    while k < s.len() && ws_byte(s[k])
        invariant
            i <= k <= s@.len(),
            ws_end(s@, i as int) == ws_end(s@, k as int),
        decreases s@.len() - k,
    {
        k += 1;
    }
    k
}

fn scan_ident(s: &Vec<u8>, i: usize) -> (j: usize)
    requires
        i <= s@.len(),
    ensures
        j == ident_end(s@, i as int),
        i <= j <= s@.len(),
{
    let mut k = i;
    while k < s.len() && ident_char_byte(s[k])
        invariant
            i <= k <= s@.len(),
            ident_end(s@, i as int) == ident_end(s@, k as int),
        decreases s@.len() - k,
    {
        k += 1;
    }
    k
}

fn scan_digits(s: &Vec<u8>, i: usize) -> (j: usize)
    requires
        i <= s@.len(),
    ensures
        j == digits_end(s@, i as int),
        i <= j <= s@.len(),
{
    let mut k = i;
    while k < s.len() && digit_byte(s[k])
        invariant
            i <= k <= s@.len(),
            digits_end(s@, i as int) == digits_end(s@, k as int),
        decreases s@.len() - k,
    {
        k += 1;
    }
    k
}

/// Finds a byte, for callers outside this module.
pub fn scan_find_pub(s: &Vec<u8>, i: usize, q: u8) -> (r: Option<usize>)
    requires
        i <= s@.len(),
    ensures
        match r {
            Some(j) => find_byte(s@, i as int, q) == Some(j as int) && i <= j < s@.len(),
            None => find_byte(s@, i as int, q) is None,
        },
{
    scan_find(s, i, q)
}

fn scan_find(s: &Vec<u8>, i: usize, q: u8) -> (r: Option<usize>)
    requires
        i <= s@.len(),
    ensures
        match r {
            Some(j) => find_byte(s@, i as int, q) == Some(j as int) && i <= j < s@.len(),
            None => find_byte(s@, i as int, q) is None,
        },
{
    let mut k = i;
    while k < s.len()
        invariant
            i <= k <= s@.len(),
            find_byte(s@, i as int, q) == find_byte(s@, k as int, q),
        decreases s@.len() - k,
    {
        if s[k] == q {
            return Some(k);
        }
        k += 1;
    }
    None
}

fn scan_comment(s: &Vec<u8>, i: usize) -> (r: Option<usize>)
    requires
        i <= s@.len(),
    ensures
        match r {
            Some(j) => comment_end(s@, i as int) == Some(j as int) && i <= j <= s@.len(),
            None => comment_end(s@, i as int) is None,
        },
{
    let n = s.len();
    if n < 2 {
        return None;
    }
    let mut k = i;
    while k < n - 1
        invariant
            n == s@.len(),
            2 <= n,
            i <= k <= n,
            comment_end(s@, i as int) == comment_end(s@, k as int),
        decreases s@.len() - k,
    {
        if s[k] == 42 && s[k + 1] == 47 {
            return Some(k + 2);
        }
        k += 1;
    }
    None
}

/// Reads the numeric token at `i`.
fn read_number(s: &Vec<u8>, i: usize) -> (r: Option<(Token, usize)>)
    requires
        i < s@.len(),
        starts_number(s@, i as int),
    ensures
        match r {
            Some((t, j)) => spec_number(s@, i as int) == Some((t@, j as int)) && i < j <= s@.len(),
            None => spec_number(s@, i as int) is None,
        },
{
    proof {
        lemma_number_advances(s@, i as int);
    }
    let n = s.len();
    let (neg, p): (bool, usize) = if s[i] == 43 {
        (false, i + 1)
    } else if s[i] == 45 {
        (true, i + 1)
    } else {
        (false, i)
    };
    let d = scan_digits(s, p);
    if d - p > 9 {
        return None;
    }
    proof {
        lemma_digits_all(s@, p as int);
        lemma_digits_val_bound(s@, p as int, d as int);
        lemma_pow10_mono((d - p) as nat, 9);
        assert(pow10(9) == 1000000000) by {
            reveal_with_fuel(pow10, 11);
        }
    }
    // Integer part, at most nine digits.
    let mut iv: u64 = 0;
    let mut k = p;
    while k < d
        invariant
            p <= k <= d,
            d - p <= 9,
            d == digits_end(s@, p as int),
            d <= s@.len(),
            forall|x: int| p <= x < d ==> is_digit(s@[x]),
            iv == digits_val(s@, p as int, k as int),
            0 <= digits_val(s@, p as int, d as int) < 1000000000,
        decreases d - k,
    {
        proof {
            lemma_digits_val_bound(s@, p as int, k as int);
            lemma_pow10_mono((k - p) as nat, 9);
            assert(pow10(9) == 1000000000) by {
                reveal_with_fuel(pow10, 11);
            }
            assert(digits_val(s@, p as int, k as int + 1) == digits_val(s@, p as int, k as int) * 10
                + (s@[k as int] - 48));
        }
        iv = iv * 10 + (s[k] - 48) as u64;
        k += 1;
    }
    // Fraction: all digits are consumed, the first three carry value.
    let (mval, q): (u64, usize) = if d < s.len() && s[d] == 46 && d + 1 < s.len() && digit_byte(
        s[d + 1],
    ) {
        let f = scan_digits(s, d + 1);
        proof {
            lemma_digits_all(s@, d as int + 1);
            assert(digits_end(s@, d as int + 1) == digits_end(s@, d as int + 2));
            lemma_digits_end(s@, d as int + 2);
        }
        let f1: u64 = (s[d + 1] - 48) as u64 * 100;
        let f2: u64 = if f > d + 2 {
            (s[d + 2] - 48) as u64 * 10
        } else {
            0
        };
        let f3: u64 = if f - d > 3 {
            (s[d + 3] - 48) as u64
        } else {
            0
        };
        (iv * 1000 + f1 + f2 + f3, f)
    } else {
        (iv * 1000, d)
    };
    if q < s.len() && s[q] == 37 {
        let frac = mval / 100;
        let v: i64 = if neg {
            -(frac as i64)
        } else {
            frac as i64
        };
        Some((Token::Percentage(v), q + 1))
    } else if q < s.len() && (ident_start_byte(s[q]) || (s[q] == 45 && q + 1 < s.len()
        && ident_char_byte(s[q + 1]))) {
        let e = scan_ident(s, q);
        let v: i64 = if neg {
            -(mval as i64)
        } else {
            mval as i64
        };
        Some((Token::Dimension(v, sub_vec(s, q, e)), e))
    } else {
        let v: i64 = if neg {
            -(mval as i64)
        } else {
            mval as i64
        };
        Some((Token::Number(v), q))
    }
}

/// Reads the body of a `url(...)` token.
fn read_url(s: &Vec<u8>, i: usize) -> (r: Option<(Token, usize)>)
    requires
        i <= s@.len(),
    ensures
        match r {
            Some((t, j)) => spec_url(s@, i as int) == Some((t@, j as int)) && i < j <= s@.len(),
            None => spec_url(s@, i as int) is None,
        },
{
    proof {
        lemma_url_advances(s@, i as int);
    }
    let k = scan_ws(s, i);
    if k < s.len() && (s[k] == 34 || s[k] == 39) {
        match scan_find(s, k + 1, s[k]) {
            Some(q) => {
                let e = scan_ws(s, q + 1);
                if e < s.len() && s[e] == 41 {
                    Some((Token::Url(sub_vec(s, k + 1, q)), e + 1))
                } else {
                    None
                }
            },
            None => None,
        }
    } else {
        match scan_find(s, k, 41) {
            Some(q) => Some((Token::Url(sub_vec(s, k, q)), q + 1)),
            None => None,
        }
    }
}

/// Reads the token at position `i`.
pub fn next_token(s: &Vec<u8>, i: usize) -> (r: Option<(Token, usize)>)
    requires
        i < s@.len(),
    ensures
        match r {
            Some((t, j)) => spec_next(s@, i as int) == Some((t@, j as int)) && i < j <= s@.len(),
            None => spec_next(s@, i as int) is None,
        },
{
    proof {
        lemma_next_advances(s@, i as int);
    }
    let n = s.len();
    let b = s[i];
    if ws_byte(b) {
        let j = scan_ws(s, i + 1);
        Some((Token::Space, j))
    } else if b == 47 && i + 1 < s.len() && s[i + 1] == 42 {
        match scan_comment(s, i + 2) {
            Some(j) => Some((Token::Space, j)),
            None => None,
        }
    } else if b == 34 || b == 39 {
        match scan_find(s, i + 1, b) {
            Some(j) => Some((Token::Quoted(sub_vec(s, i + 1, j)), j + 1)),
            None => None,
        }
    } else if b == 35 {
        let j = scan_ident(s, i + 1);
        Some((Token::Hash(sub_vec(s, i + 1, j)), j))
    } else if b == 64 {
        if i + 1 < s.len() && ident_char_byte(s[i + 1]) {
            let j = scan_ident(s, i + 1);
            Some((Token::AtKeyword(sub_vec(s, i + 1, j)), j))
        } else {
            Some((Token::Delim(64), i + 1))
        }
    } else if digit_byte(b) || ((b == 43 || b == 45) && i + 1 < s.len() && (digit_byte(s[i + 1])
        || (s[i + 1] == 46 && i + 2 < s.len() && digit_byte(s[i + 2])))) || (b == 46 && i + 1
        < s.len() && digit_byte(s[i + 1])) {
        read_number(s, i)
    } else if ident_start_byte(b) || (b == 45 && i + 1 < s.len() && ident_char_byte(s[i + 1])) {
        let j = scan_ident(s, i);
        let name = sub_vec(s, i, j);
        if j < s.len() && s[j] == 40 {
            if name_eq(&name, "url") {
                read_url(s, j + 1)
            } else {
                Some((Token::Function(name), j + 1))
            }
        } else {
            Some((Token::Ident(name), j))
        }
    } else if b == 44 {
        Some((Token::Comma, i + 1))
    } else if b == 58 {
        Some((Token::Colon, i + 1))
    } else if b == 59 {
        Some((Token::Semicolon, i + 1))
    } else if b == 123 {
        Some((Token::LBrace, i + 1))
    } else if b == 125 {
        Some((Token::RBrace, i + 1))
    } else if b == 40 {
        Some((Token::LParen, i + 1))
    } else if b == 41 {
        Some((Token::RParen, i + 1))
    } else {
        Some((Token::Delim(b), i + 1))
    }
}

/// Tokenizes the whole input, or fails on a malformed construct.
pub fn tokenize(s: &Vec<u8>) -> (r: Option<Vec<Token>>)
    ensures
        match r {
            Some(v) => spec_tokenize(s@, 0) == Some(toks_view(v@)),
            None => spec_tokenize(s@, 0) is None,
        },
{
    let mut acc: Vec<Token> = Vec::new();
    let mut i: usize = 0;
    proof {
        assert(toks_view(acc@) =~= Seq::<TokenV>::empty());
    }
    while i < s.len()
        invariant
            i <= s@.len(),
            spec_tokenize(s@, 0) == (match spec_tokenize(s@, i as int) {
                None => None::<Seq<TokenV>>,
                Some(rest) => Some(toks_view(acc@) + rest),
            }),
        decreases s@.len() - i,
    {
        match next_token(s, i) {
            None => {
                return None;
            },
            Some((t, j)) => {
                proof {
                    assert(toks_view(acc@.push(t)) =~= toks_view(acc@).push(t@));
                    assert(forall|rest: Seq<TokenV>|
                        toks_view(acc@).push(t@) + rest =~= toks_view(acc@) + (seq![t@] + rest));
                }
                acc.push(t);
                i = j;
            },
        }
    }
    proof {
        assert(spec_tokenize(s@, i as int) == Some(Seq::<TokenV>::empty()));
        assert(toks_view(acc@) + Seq::<TokenV>::empty() =~= toks_view(acc@));
    }
    Some(acc)
}

} // verus!
