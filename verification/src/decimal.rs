//! Decimal notation for the integers that appear inside RESP frames:
//! the canonical digit sequence of a number, the value of a digit
//! sequence, and executable conversions proved against both.

use vstd::prelude::*;

verus! {

/// Canonical base-10 digit sequence of `n`, most significant digit first,
/// with no leading zeros (the number 0 is written as the single digit `0`).
pub open spec fn dec_rep(n: nat) -> Seq<u8>
    decreases n,
{
    if n < 10 {
        seq![(n + 48) as u8]
    } else {
        dec_rep(n / 10) + seq![(n % 10 + 48) as u8]
    }
}

/// Numeric value of a digit sequence read most significant digit first.
pub open spec fn digits_val(s: Seq<u8>) -> nat
    decreases s.len(),
{
    if s.len() == 0 {
        0
    } else {
        digits_val(s.drop_last()) * 10 + (if s.last() >= 48 { (s.last() - 48) as nat } else { 0 })
    }
}

/// An ASCII decimal digit.
pub open spec fn is_digit(b: u8) -> bool {
    48 <= b <= 57
}

pub open spec fn all_digits(s: Seq<u8>) -> bool {
    forall|i: int| 0 <= i < s.len() ==> is_digit(#[trigger] s[i])
}

pub proof fn lemma_dec_rep_digits(n: nat)
    ensures
        dec_rep(n).len() >= 1,
        all_digits(dec_rep(n)),
    decreases n,
{
    if n >= 10 {
        lemma_dec_rep_digits(n / 10);
        assert forall|i: int| 0 <= i < dec_rep(n).len() implies is_digit(#[trigger] dec_rep(n)[i]) by {
            if i < dec_rep(n / 10).len() {
                assert(dec_rep(n)[i] == dec_rep(n / 10)[i]);
            }
        }
    }
}

pub proof fn lemma_dec_rep_val(n: nat)
    ensures
        digits_val(dec_rep(n)) == n,
    decreases n,
{
    if n < 10 {
        let s = seq![(n + 48) as u8];
        assert(dec_rep(n) =~= s);
        assert(s.drop_last() =~= Seq::<u8>::empty());
        assert(digits_val(s) == digits_val(s.drop_last()) * 10 + (s.last() - 48));
        assert(s.last() == (n + 48) as u8);
    } else {
        lemma_dec_rep_val(n / 10);
        let s = dec_rep(n);
        assert(s.drop_last() =~= dec_rep(n / 10));
        assert(s.last() == (n % 10 + 48) as u8);
        assert(digits_val(s) == digits_val(dec_rep(n / 10)) * 10 + ((n % 10 + 48) - 48));
        assert(n / 10 * 10 + n % 10 == n) by (nonlinear_arith);
    }
}

/// The leading digit of `dec_rep(n)` is `0` only for the number 0 itself.
pub proof fn lemma_dec_rep_no_leading_zero(n: nat)
    ensures
        n > 0 ==> dec_rep(n)[0] != 48,
        n == 0 ==> dec_rep(n) =~= seq![48u8],
    decreases n,
{
    if n >= 10 {
        lemma_dec_rep_no_leading_zero(n / 10);
    }
}

/// Appending one digit multiplies the value by ten and adds the digit.
pub proof fn lemma_digits_val_push(s: Seq<u8>, d: u8)
    requires
        is_digit(d),
    ensures
        digits_val(s.push(d)) == digits_val(s) * 10 + (d - 48),
{
    assert(s.push(d).drop_last() =~= s);
}

/// A digit sequence is worth at least as much as any of its prefixes,
/// scaled up; in particular extending a sequence never shrinks its value.
pub proof fn lemma_digits_val_prefix_le(s: Seq<u8>, n: int)
    requires
        0 <= n <= s.len(),
        all_digits(s),
    ensures
        digits_val(s.take(n)) <= digits_val(s),
    decreases s.len() - n,
{
    if n < s.len() {
        lemma_digits_val_prefix_le(s, n + 1);
        lemma_digits_val_push(s.take(n), s[n]);
        assert(s.take(n + 1) =~= s.take(n).push(s[n]));
    } else {
        assert(s.take(n) =~= s);
    }
}

/// Writes `n` in decimal, most significant digit first.
pub fn fmt_u64(n: u64) -> (r: Vec<u8>)
    ensures
        r@ =~= dec_rep(n as nat),
{
    let mut rev: Vec<u8> = Vec::new();
    let mut cur: u64 = n;
    // collect the digits of `n`, least significant first
    loop
        invariant_except_break
            dec_rep(n as nat) =~= dec_rep(cur as nat) + rev@.reverse(),
        ensures
            dec_rep(n as nat) =~= rev@.reverse(),
        decreases cur,
    {
        if cur < 10 {
            rev.push((cur as u8) + 48);
            proof {
                assert(dec_rep(cur as nat) =~= seq![(cur + 48) as u8]);
                assert(rev@.reverse() =~= seq![(cur + 48) as u8] + rev@.drop_last().reverse());
                assert(rev@.drop_last() =~= rev@.drop_last());
            }
            break;
        } else {
            let d: u8 = (cur % 10) as u8;
            rev.push(d + 48);
            proof {
                assert(dec_rep(cur as nat) =~= dec_rep((cur / 10) as nat) + seq![(cur % 10 + 48) as u8]);
                assert(rev@.reverse() =~= seq![(cur % 10 + 48) as u8] + rev@.drop_last().reverse());
            }
            cur = cur / 10;
        }
    }
    // reverse into most-significant-first order
    let mut out: Vec<u8> = Vec::new();
    let mut i: usize = rev.len();
    while i > 0
        invariant
            i <= rev.len(),
            out@ =~= rev@.subrange(i as int, rev@.len() as int).reverse(),
        decreases i,
    {
        i = i - 1;
        let b = rev[i];
        out.push(b);
        proof {
            assert(out@ =~= rev@.subrange(i as int, rev@.len() as int).reverse());
        }
    }
    proof {
        assert(rev@.subrange(0, rev@.len() as int) =~= rev@);
        assert(out@ =~= rev@.reverse());
    }
    out
}

/// Writes a signed value in decimal, with a leading minus sign when negative.
pub open spec fn int_rep(i: int) -> Seq<u8> {
    if i < 0 {
        seq![45u8] + dec_rep((-i) as nat)
    } else {
        dec_rep(i as nat)
    }
}

pub fn fmt_i64(n: i64) -> (r: Vec<u8>)
    ensures
        r@ =~= int_rep(n as int),
{
    if n < 0 {
        let mag: u64 = if n == i64::MIN {
            9223372036854775808u64
        } else {
            (-n) as u64
        };
        let mut out: Vec<u8> = Vec::new();
        out.push(45u8);
        let digits = fmt_u64(mag);
        let mut j: usize = 0;
        while j < digits.len()
            invariant
                j <= digits@.len(),
                digits@ =~= dec_rep((-(n as int)) as nat),
                out@ =~= seq![45u8] + digits@.take(j as int),
            decreases digits@.len() - j,
        {
            let b = digits[j];
            out.push(b);
            j = j + 1;
            proof {
                assert(out@ =~= seq![45u8] + digits@.take(j as int));
            }
        }
        proof {
            assert(digits@.take(digits@.len() as int) =~= digits@);
        }
        out
    } else {
        fmt_u64(n as u64)
    }
}

} // verus!
