//! Decimal text of numbers and pixels, as failure reports show them.

use vstd::prelude::*;
use vstd::string::StringExecFns;

verus! {

/// The decimal digit `d`.
pub open spec fn digit_text(d: nat) -> Seq<char> {
    if d == 0 {
        "0"@
    } else if d == 1 {
        "1"@
    } else if d == 2 {
        "2"@
    } else if d == 3 {
        "3"@
    } else if d == 4 {
        "4"@
    } else if d == 5 {
        "5"@
    } else if d == 6 {
        "6"@
    } else if d == 7 {
        "7"@
    } else if d == 8 {
        "8"@
    } else {
        "9"@
    }
}

/// The decimal digits of `n`, most significant first, without leading zeros.
pub open spec fn decimal(n: nat) -> Seq<char>
    decreases n,
{
    if n < 10 {
        digit_text(n)
    } else {
        decimal(n / 10) + digit_text(n % 10)
    }
}

/// The decimal text of `v`, with a minus sign when it is negative.
pub open spec fn signed_decimal(v: int) -> Seq<char> {
    if v < 0 {
        "-"@ + decimal((-v) as nat)
    } else {
        decimal(v as nat)
    }
}

/// The channel values of `p`, separated by a comma and a space.
pub open spec fn channels_text(p: Seq<i64>) -> Seq<char>
    decreases p.len(),
{
    if p.len() == 0 {
        Seq::empty()
    } else if p.len() == 1 {
        signed_decimal(p[0] as int)
    } else {
        channels_text(p.drop_last()) + ", "@ + signed_decimal(p.last() as int)
    }
}

/// A pixel at a position: `(x, y, [c0, c1, ...])`.
pub open spec fn located_text(x: int, y: int, p: Seq<i64>) -> Seq<char> {
    "("@ + signed_decimal(x) + ", "@ + signed_decimal(y) + ", ["@ + channels_text(p) + "])"@
}

/// A pair of dimensions: `(w, h)`.
pub open spec fn dims_text(w: int, h: int) -> Seq<char> {
    "("@ + signed_decimal(w) + ", "@ + signed_decimal(h) + ")"@
}

/// Appends the decimal digit `d`.
fn push_digit(s: &mut String, d: u64)
    requires
        d < 10,
    ensures
        final(s)@ == old(s)@ + digit_text(d as nat),
{
    if d == 0 {
        s.append("0");
    } else if d == 1 {
        s.append("1");
    } else if d == 2 {
        s.append("2");
    } else if d == 3 {
        s.append("3");
    } else if d == 4 {
        s.append("4");
    } else if d == 5 {
        s.append("5");
    } else if d == 6 {
        s.append("6");
    } else if d == 7 {
        s.append("7");
    } else if d == 8 {
        s.append("8");
    } else {
        s.append("9");
    }
}

/// Appends the decimal digits of `n`.
pub fn push_decimal(s: &mut String, n: u64)
    ensures
        final(s)@ == old(s)@ + decimal(n as nat),
    decreases n,
{
    if n < 10 {
        push_digit(s, n);
    } else {
        push_decimal(s, n / 10);
        push_digit(s, n % 10);
        assert(final(s)@ =~= old(s)@ + decimal(n as nat));
    }
}

/// Appends the decimal text of `v`.
pub fn push_signed(s: &mut String, v: i64)
    ensures
        final(s)@ == old(s)@ + signed_decimal(v as int),
{
    if v < 0 {
        s.append("-");
        let m: u64 = (0i128 - v as i128) as u64;
        push_decimal(s, m);
        assert(final(s)@ =~= old(s)@ + signed_decimal(v as int));
    } else {
        push_decimal(s, v as u64);
    }
}

/// Appends the channel values of `p`, separated by a comma and a space.
pub fn push_channels(s: &mut String, p: &Vec<i64>)
    ensures
        final(s)@ == old(s)@ + channels_text(p@),
{
    let ghost start = s@;
    let mut k: usize = 0;
    while k < p.len()
        invariant
            k <= p@.len(),
            s@ == start + channels_text(p@.subrange(0, k as int)),
        decreases p@.len() - k,
    {
        let ghost before = s@;
        if k > 0 {
            s.append(", ");
        }
        push_signed(s, p[k]);
        proof {
            let q = p@.subrange(0, k + 1);
            assert(q.drop_last() =~= p@.subrange(0, k as int));
            assert(q.last() == p@[k as int]);
            if k == 0 {
                assert(channels_text(p@.subrange(0, 0)) =~= Seq::empty());
                assert(s@ =~= start + channels_text(q));
            } else {
                assert(s@ =~= start + channels_text(q));
            }
        }
        k += 1;
    }
    assert(p@.subrange(0, p@.len() as int) =~= p@);
}

/// Appends `(x, y, [c0, c1, ...])`.
pub fn push_located(s: &mut String, x: u32, y: u32, p: &Vec<i64>)
    ensures
        final(s)@ == old(s)@ + located_text(x as int, y as int, p@),
{
    s.append("(");
    push_signed(s, x as i64);
    s.append(", ");
    push_signed(s, y as i64);
    s.append(", [");
    push_channels(s, p);
    s.append("])");
    assert(final(s)@ =~= old(s)@ + located_text(x as int, y as int, p@));
}

/// Appends `(w, h)`.
pub fn push_dims(s: &mut String, w: u32, h: u32)
    ensures
        final(s)@ == old(s)@ + dims_text(w as int, h as int),
{
    s.append("(");
    push_signed(s, w as i64);
    s.append(", ");
    push_signed(s, h as i64);
    s.append(")");
    assert(final(s)@ =~= old(s)@ + dims_text(w as int, h as int));
}

} // verus!
