//! The colour value that the whole pipeline computes with, and the channel
//! interpolation used by `mix()`.
use vstd::prelude::*;

verus! {

/// A byte string read as the sequence of characters its bytes stand for
/// (one byte, one character; stylesheet input is handled byte-wise).
pub open spec fn bytes_chars(s: Seq<u8>) -> Seq<char> {
    s.map_values(|b: u8| b as char)
}

/// An 8-bit RGBA colour. Alpha is straight (unmultiplied) everywhere in this
/// crate; the convention is fixed here once instead of varying per call site.
#[derive(Clone, Copy, Debug, PartialEq, Eq, Structural)]
pub struct Rgba8 {
    pub r: u8,
    pub g: u8,
    pub b: u8,
    pub a: u8,
}

pub open spec fn spec_rgb(r: u8, g: u8, b: u8) -> Rgba8 {
    Rgba8 { r, g, b, a: 255 }
}

impl Rgba8 {
    /// An opaque colour from its three channels.
    pub fn rgb(r: u8, g: u8, b: u8) -> (c: Rgba8)
        ensures
            c == spec_rgb(r, g, b),
    {
        Rgba8 { r, g, b, a: 255 }
    }

    /// A colour from all four channels.
    pub fn rgba(r: u8, g: u8, b: u8, a: u8) -> (c: Rgba8)
        ensures
            c == (Rgba8 { r, g, b, a }),
    {
        Rgba8 { r, g, b, a }
    }
}

/// The neutral fallback for colour forms the converter does not support.
pub open spec fn spec_dark_gray() -> Rgba8 {
    Rgba8 { r: 96, g: 96, b: 96, a: 255 }
}

pub fn dark_gray() -> (c: Rgba8)
    ensures
        c == spec_dark_gray(),
{
    Rgba8 { r: 96, g: 96, b: 96, a: 255 }
}

/// Compares a byte-string name against a known keyword.
pub fn name_eq(v: &Vec<u8>, s: &str) -> (r: bool)
    ensures
        r <==> bytes_chars(v@) == s@,
{
    let n = s.unicode_len();
    if v.len() != n {
        proof {
            assert(bytes_chars(v@).len() == v@.len());
        }
        return false;
    }
    let mut i: usize = 0;
    while i < n
        invariant
            n == s@.len(),
            v@.len() == n,
            i <= n,
            forall|k: int| 0 <= k < i ==> bytes_chars(v@)[k] == s@[k],
        decreases n - i,
    {
        if v[i] as char != s.get_char(i) {
            proof {
                assert(bytes_chars(v@)[i as int] != s@[i as int]);
            }
            return false;
        }
        i += 1;
    }
    proof {
        assert(bytes_chars(v@) =~= s@);
    }
    true
}

pub open spec fn clamp255(x: int) -> u8 {
    if x < 0 {
        0
    } else if x > 255 {
        255
    } else {
        x as u8
    }
}

/// Interpolation factors are in thousandths; far outside the unit interval
/// they saturate the channel formula anyway, so they are capped where the
/// arithmetic needs a bound.
pub open spec fn clamp_factor(t: int) -> int {
    if t < -1000000 {
        -1000000
    } else if t > 1000000 {
        1000000
    } else {
        t
    }
}

/// One channel of `mix(c1, c2, t)`: the floor of the exact weighted mean
/// `(a*(1000-t) + b*t) / 1000`, clamped to the 8-bit range. `t = 0` gives
/// `a` exactly and `t = 1000` gives `b` exactly.
pub open spec fn spec_mix_chan(a: u8, b: u8, t: int) -> u8 {
    clamp255((a * (1000 - clamp_factor(t)) + b * clamp_factor(t)) / 1000)
}

pub fn mix_chan(a: u8, b: u8, t: i64) -> (r: u8)
    ensures
        r == spec_mix_chan(a, b, t as int),
{
    let tc: i64 = if t < -1000000 {
        -1000000
    } else if t > 1000000 {
        1000000
    } else {
        t
    };
    proof {
        assert(-254745000 <= a as int * (1000 - tc as int) <= 255255000) by (nonlinear_arith)
            requires
                -1000000 <= tc as int <= 1000000,
                0 <= a as int <= 255,
        ;
        assert(-255000000 <= b as int * tc as int <= 255000000) by (nonlinear_arith)
            requires
                -1000000 <= tc as int <= 1000000,
                0 <= b as int <= 255,
        ;
        assert(-255000000 <= a as int * (1000 - tc as int) + b as int * tc as int
            <= 600000000) by (nonlinear_arith)
            requires
                -1000000 <= tc as int <= 1000000,
                0 <= a as int <= 255,
                0 <= b as int <= 255,
        ;
    }
    let v: i64 = a as i64 * (1000 - tc) + b as i64 * tc;
    // Shift into the nonnegative range so the division is a plain floor.
    let w: u64 = (v + 255000000) as u64;
    let q: u64 = w / 1000;
    proof {
        vstd::arithmetic::div_mod::lemma_fundamental_div_mod(v as int, 1000);
        vstd::arithmetic::div_mod::lemma_div_multiples_vanish_fancy(
            v as int / 1000 + 255000,
            v as int % 1000,
            1000,
        );
    }
    let shifted: i64 = q as i64 - 255000;
    if shifted < 0 {
        0
    } else if shifted > 255 {
        255
    } else {
        shifted as u8
    }
}

/// `mix` over whole colours, channel by channel, alpha included.
pub open spec fn spec_mix(c1: Rgba8, c2: Rgba8, t: int) -> Rgba8 {
    Rgba8 {
        r: spec_mix_chan(c1.r, c2.r, t),
        g: spec_mix_chan(c1.g, c2.g, t),
        b: spec_mix_chan(c1.b, c2.b, t),
        a: spec_mix_chan(c1.a, c2.a, t),
    }
}

pub fn mix(c1: Rgba8, c2: Rgba8, t: i64) -> (r: Rgba8)
    ensures
        r == spec_mix(c1, c2, t as int),
{
    Rgba8 {
        r: mix_chan(c1.r, c2.r, t),
        g: mix_chan(c1.g, c2.g, t),
        b: mix_chan(c1.b, c2.b, t),
        a: mix_chan(c1.a, c2.a, t),
    }
}

/// Mixing with factor 0 returns the first colour unchanged.
pub proof fn lemma_mix_zero(c1: Rgba8, c2: Rgba8)
    ensures
        spec_mix(c1, c2, 0) == c1,
{
    lemma_chan_zero(c1.r, c2.r);
    lemma_chan_zero(c1.g, c2.g);
    lemma_chan_zero(c1.b, c2.b);
    lemma_chan_zero(c1.a, c2.a);
}

proof fn lemma_chan_zero(a: u8, b: u8)
    ensures
        spec_mix_chan(a, b, 0) == a,
{
    assert(clamp_factor(0) == 0);
    assert(a as int * (1000 - 0) + b as int * 0 == 1000 * (a as int)) by (nonlinear_arith);
    vstd::arithmetic::div_mod::lemma_div_multiples_vanish_fancy(a as int, 0, 1000);
    assert((1000 * (a as int) + 0) / 1000 == a as int);
}

/// Mixing with factor 1 returns the second colour unchanged.
pub proof fn lemma_mix_one(c1: Rgba8, c2: Rgba8)
    ensures
        spec_mix(c1, c2, 1000) == c2,
{
    lemma_chan_one(c1.r, c2.r);
    lemma_chan_one(c1.g, c2.g);
    lemma_chan_one(c1.b, c2.b);
    lemma_chan_one(c1.a, c2.a);
}

proof fn lemma_chan_one(a: u8, b: u8)
    ensures
        spec_mix_chan(a, b, 1000) == b,
{
    assert(clamp_factor(1000) == 1000);
    assert(a as int * (1000 - 1000) + b as int * 1000 == 1000 * (b as int)) by (nonlinear_arith);
    vstd::arithmetic::div_mod::lemma_div_multiples_vanish_fancy(b as int, 0, 1000);
    assert((1000 * (b as int) + 0) / 1000 == b as int);
}

/// Mixing with factor one half lands within one unit of the channel-wise
/// average on every channel.
pub proof fn lemma_mix_half(c1: Rgba8, c2: Rgba8)
    ensures
        2 * spec_mix_chan(c1.r, c2.r, 500) - (c1.r + c2.r) <= 1,
        (c1.r + c2.r) - 2 * spec_mix_chan(c1.r, c2.r, 500) <= 1,
        2 * spec_mix_chan(c1.g, c2.g, 500) - (c1.g + c2.g) <= 1,
        (c1.g + c2.g) - 2 * spec_mix_chan(c1.g, c2.g, 500) <= 1,
        2 * spec_mix_chan(c1.b, c2.b, 500) - (c1.b + c2.b) <= 1,
        (c1.b + c2.b) - 2 * spec_mix_chan(c1.b, c2.b, 500) <= 1,
        2 * spec_mix_chan(c1.a, c2.a, 500) - (c1.a + c2.a) <= 1,
        (c1.a + c2.a) - 2 * spec_mix_chan(c1.a, c2.a, 500) <= 1,
{
    lemma_chan_half(c1.r, c2.r);
    lemma_chan_half(c1.g, c2.g);
    lemma_chan_half(c1.b, c2.b);
    lemma_chan_half(c1.a, c2.a);
}

proof fn lemma_chan_half(a: u8, b: u8)
    ensures
        2 * spec_mix_chan(a, b, 500) - (a + b) <= 1,
        (a + b) - 2 * spec_mix_chan(a, b, 500) <= 1,
{
    let s = a as int + b as int;
    assert(a as int * 500 + b as int * 500 == 500 * s);
    vstd::arithmetic::div_mod::lemma_div_multiples_vanish_quotient(500, s, 2);
    assert((500 * s) / 1000 == s / 2);
    vstd::arithmetic::div_mod::lemma_fundamental_div_mod(s, 2);
    vstd::arithmetic::div_mod::lemma_div_is_ordered(s, 510, 2);
    vstd::arithmetic::div_mod::lemma_div_pos_is_pos(s, 2);
}

} // verus!
