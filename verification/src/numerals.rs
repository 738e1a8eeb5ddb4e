//! Decimal numerals over bytes: rendering a number as ASCII digits and
//! reading a bounded number back from ASCII digits.

use vstd::prelude::*;

verus! {

/// The ASCII decimal digits of `n`, most significant first, with no sign and
/// no leading zero (`0` itself is the single digit `0`).
pub open spec fn dec_rep(n: nat) -> Seq<u8>
    decreases n,
{
    if n < 10 {
        seq![(48 + n) as u8]
    } else {
        dec_rep(n / 10).push((48 + n % 10) as u8)
    }
}

/// The ASCII decimal digits of `n`, left-padded with `0` to at least two
/// digits.
pub open spec fn dec2_rep(n: nat) -> Seq<u8> {
    if n < 10 {
        seq![48u8].add(dec_rep(n))
    } else {
        dec_rep(n)
    }
}

/// The ASCII decimal digits of the integer `v`, preceded by `-` when `v` is
/// negative.
pub open spec fn sdec_rep(v: int) -> Seq<u8> {
    if v < 0 {
        seq![45u8].add(dec_rep((-v) as nat))
    } else {
        dec_rep(v as nat)
    }
}

/// Appends the decimal digits of `n` to `out`.
pub fn push_dec_u64(out: &mut Vec<u8>, n: u64)
    ensures
        final(out)@ == old(out)@.add(dec_rep(n as nat)),
    decreases n,
{
    if n < 10 {
        out.push(48 + (n as u8));
        assert(final(out)@ =~= old(out)@.add(dec_rep(n as nat)));
    } else {
        push_dec_u64(out, n / 10);
        out.push(48 + ((n % 10) as u8));
        assert(final(out)@ =~= old(out)@.add(dec_rep(n as nat)));
    }
}

/// Appends the decimal digits of `n` to `out`, zero-padded to two digits.
pub fn push_dec2_u64(out: &mut Vec<u8>, n: u64)
    ensures
        final(out)@ == old(out)@.add(dec2_rep(n as nat)),
{
    if n < 10 {
        out.push(48);
    }
    push_dec_u64(out, n);
    assert(final(out)@ =~= old(out)@.add(dec2_rep(n as nat)));
}

/// Appends the decimal digits of `v` to `out`, with a leading minus sign
/// when `v` is negative.
pub fn push_dec_i64(out: &mut Vec<u8>, v: i64)
    requires
        v > i64::MIN,
    ensures
        final(out)@ == old(out)@.add(sdec_rep(v as int)),
{
    if v < 0 {
        out.push(45);
        push_dec_u64(out, (-v) as u64);
    } else {
        push_dec_u64(out, v as u64);
    }
    assert(final(out)@ =~= old(out)@.add(sdec_rep(v as int)));
}

/// True when `b` is an ASCII decimal digit.
pub open spec fn is_digit(b: u8) -> bool {
    48 <= b <= 57
}

/// True when `s` consists of ASCII decimal digits only.
pub open spec fn all_digits(s: Seq<u8>) -> bool {
    forall|i: int| 0 <= i < s.len() ==> is_digit(#[trigger] s[i])
}

/// The number the digit sequence `s` denotes, read most significant digit
/// first; the empty sequence denotes zero.
pub open spec fn dec_value(s: Seq<u8>) -> nat
    recommends
        all_digits(s),
    decreases s.len(),
{
    if s.len() == 0 {
        0
    } else {
        dec_value(s.drop_last()) * 10 + (s.last() - 48) as nat
    }
}

/// Reading one more digit of `s` multiplies the value so far by ten and adds
/// the digit.
proof fn lemma_dec_value_step(s: Seq<u8>, i: int)
    requires
        0 <= i < s.len(),
    ensures
        dec_value(s.take(i + 1)) == dec_value(s.take(i)) * 10 + (s[i] - 48) as nat,
{
    assert(s.take(i + 1).drop_last() =~= s.take(i));
    assert(s.take(i + 1).last() == s[i]);
}

/// The value of a digit sequence never falls when it grows to the right.
proof fn lemma_dec_value_monotone(s: Seq<u8>, i: int, j: int)
    requires
        0 <= i <= j <= s.len(),
    ensures
        dec_value(s.take(i)) <= dec_value(s.take(j)),
    decreases j - i,
{
    if i < j {
        lemma_dec_value_monotone(s, i, j - 1);
        lemma_dec_value_step(s, j - 1);
    }
}

/// Reads a decimal numeral of value at most `max` from `s`: `Some` exactly
/// when `s` is one or more digits denoting a number within the bound.
pub fn parse_dec_bounded(s: &[u8], max: u32) -> (r: Option<u32>)
    requires
        max <= 100000000,
    ensures
        match r {
            Some(v) => s@.len() > 0 && all_digits(s@) && dec_value(s@) <= max && v == dec_value(
                s@,
            ),
            None => s@.len() == 0 || !all_digits(s@) || dec_value(s@) > max,
        },
{
    let n: usize = s.len();
    if n == 0 {
        return None;
    }
    let mut acc: u32 = 0;
    let mut i: usize = 0;
    while i < n
        invariant
            n == s@.len(),
            0 <= i <= n,
            all_digits(s@.take(i as int)),
            acc == dec_value(s@.take(i as int)),
            acc <= max,
            max <= 100000000,
        decreases n - i,
    {
        let b = s[i];
        if b < 48 || b > 57 {
            return None;
        }
        let d: u32 = (b - 48) as u32;
        let next: u32 = acc * 10 + d;
        proof {
            lemma_dec_value_step(s@, i as int);
        }
        if next > max {
            proof {
                lemma_dec_value_monotone(s@, i + 1, n as int);
                assert(s@.take(n as int) =~= s@);
            }
            return None;
        }
        assert(s@.take(i + 1) =~= s@.take(i as int).push(s@[i as int]));
        acc = next;
        i = i + 1;
    }
    assert(s@.take(n as int) =~= s@);
    Some(acc)
}

} // verus!
