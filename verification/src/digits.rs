//! Decimal rendering of fixed-point values: a value in thousandths becomes
//! its exact decimal text (sign, integer digits, a point, three fraction
//! digits). The converter serializes colour components with it.
use vstd::prelude::*;

verus! {

/// The decimal digits of `n`, most significant first.
pub open spec fn spec_digits(n: nat) -> Seq<u8>
    decreases n,
{
    if n < 10 {
        seq![(48 + n) as u8]
    } else {
        spec_digits(n / 10).push((48 + n % 10) as u8)
    }
}

/// The canonical decimal text of a value in thousandths.
pub open spec fn spec_milli_text(m: int) -> Seq<u8> {
    let mag = (if m < 0 {
        -m
    } else {
        m
    }) as nat;
    let ip = mag / 1000;
    let fp = mag % 1000;
    let body = spec_digits(ip) + seq![
        46u8,
        (48 + fp / 100) as u8,
        (48 + (fp / 10) % 10) as u8,
        (48 + fp % 10) as u8,
    ];
    if m < 0 {
        seq![45u8] + body
    } else {
        body
    }
}

fn push_digits(n: u64, out: &mut Vec<u8>)
    ensures
        final(out)@ == old(out)@ + spec_digits(n as nat),
    decreases n,
{
    if n < 10 {
        out.push(48 + n as u8);
        proof {
            assert(final(out)@ =~= old(out)@ + spec_digits(n as nat));
        }
    } else {
        let q = n / 10;
        let r = n % 10;
        push_digits(q, out);
        out.push(48 + r as u8);
        proof {
            assert(final(out)@ =~= old(out)@ + spec_digits(n as nat));
        }
    }
}

/// Renders a value in thousandths as decimal text.
pub fn format_milli(m: i64) -> (r: Vec<u8>)
    requires
        -10000000000 <= m <= 10000000000,
    ensures
        r@ == spec_milli_text(m as int),
{
    let neg = m < 0;
    let mag: u64 = if neg {
        (-m) as u64
    } else {
        m as u64
    };
    let ip = mag / 1000;
    let fp = mag % 1000;
    let mut out: Vec<u8> = Vec::new();
    if neg {
        out.push(45);
    }
    let ghost pre = out@;
    push_digits(ip, &mut out);
    out.push(46);
    out.push(48 + (fp / 100) as u8);
    out.push(48 + ((fp / 10) % 10) as u8);
    out.push(48 + (fp % 10) as u8);
    proof {
        assert(out@ =~= spec_milli_text(m as int));
    }
    out
}

} // verus!
