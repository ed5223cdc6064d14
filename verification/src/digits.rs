//! Decimal rendering of counts and normalized fractions.
//!
//! A plain count renders as its decimal digits. A fraction renders with
//! adaptive precision: starting from the first significant digit of the
//! decimal string, two further digits are kept and the rest truncated, so a
//! small fraction keeps more places than a large one. Integer digits are
//! never dropped, and a zero denominator renders as the literal zero rather
//! than a non-finite value.

use vstd::prelude::*;

verus! {

/// Relies on alloc's String::push: appends the given character to the end
/// of this String.
pub assume_specification[ String::push ](s: &mut String, ch: char)
    ensures
        final(s)@ == old(s)@.push(ch),
;

/// The decimal digit character for one digit value.
pub open spec fn digit_char(d: int) -> char {
    if d == 0 {
        '0'
    } else if d == 1 {
        '1'
    } else if d == 2 {
        '2'
    } else if d == 3 {
        '3'
    } else if d == 4 {
        '4'
    } else if d == 5 {
        '5'
    } else if d == 6 {
        '6'
    } else if d == 7 {
        '7'
    } else if d == 8 {
        '8'
    } else {
        '9'
    }
}

/// The decimal digits of a number, most significant first.
pub open spec fn spec_dec_str(n: nat) -> Seq<char>
    decreases n,
{
    if n < 10 {
        seq![digit_char(n as int)]
    } else {
        spec_dec_str(n / 10).push(digit_char((n % 10) as int))
    }
}

fn push_digit(s: &mut String, d: u64)
    requires
        d < 10,
    ensures
        final(s)@ == old(s)@.push(digit_char(d as int)),
{
    let c: char = if d == 0 {
        '0'
    } else if d == 1 {
        '1'
    } else if d == 2 {
        '2'
    } else if d == 3 {
        '3'
    } else if d == 4 {
        '4'
    } else if d == 5 {
        '5'
    } else if d == 6 {
        '6'
    } else if d == 7 {
        '7'
    } else if d == 8 {
        '8'
    } else {
        '9'
    };
    s.push(c);
}

fn push_dec(s: &mut String, n: u64)
    ensures
        final(s)@ == old(s)@ + spec_dec_str(n as nat),
    decreases n,
{
    if n < 10 {
        push_digit(s, n);
        proof {
            assert(old(s)@.push(digit_char(n as int)) =~= old(s)@ + spec_dec_str(n as nat));
        }
    } else {
        push_dec(s, n / 10);
        push_digit(s, n % 10);
        proof {
            assert((old(s)@ + spec_dec_str((n / 10) as nat)).push(digit_char((n % 10) as int))
                =~= old(s)@ + spec_dec_str(n as nat));
        }
    }
}

/// A count as its decimal digits.
pub fn u64_string(n: u64) -> (r: String)
    ensures
        r@ == spec_dec_str(n as nat),
{
    let mut s = String::new();
    push_dec(&mut s, n);
    proof {
        assert(Seq::<char>::empty() + spec_dec_str(n as nat) =~= spec_dec_str(n as nat));
    }
    s
}

/// The signed decimal digits of an integer: a minus sign before the digits
/// of the magnitude when it is negative.
pub open spec fn spec_int_str(n: int) -> Seq<char> {
    if n < 0 {
        seq!['-'] + spec_dec_str((-n) as nat)
    } else {
        spec_dec_str(n as nat)
    }
}

/// A signed count or instant as its decimal digits.
pub fn i64_string(n: i64) -> (r: String)
    requires
        n > i64::MIN,
    ensures
        r@ == spec_int_str(n as int),
{
    if n < 0 {
        let mut s = String::new();
        s.push('-');
        push_dec(&mut s, (-n) as u64);
        proof {
            assert(s@ =~= spec_int_str(n as int));
        }
        s
    } else {
        u64_string(n as u64)
    }
}

/// Fractional digits once a significant digit has been seen: long division
/// carries on until the remainder is exhausted or the budget of kept digits
/// runs out.
pub open spec fn spec_frac_sig(rem: nat, den: nat, budget: nat) -> Seq<char>
    recommends
        rem < den,
    decreases budget,
{
    if budget == 0 || rem == 0 || den == 0 {
        Seq::empty()
    } else {
        seq![digit_char(((rem * 10) / den) as int)] + spec_frac_sig(
            (rem * 10) % den,
            den,
            (budget - 1) as nat,
        )
    }
}

/// Fractional digits before the first significant one: zeros are kept as
/// placeholders, and the first nonzero digit opens a budget of two more.
/// The fuel bounds the long division; any denominator that fits the matrix
/// reaches its first significant digit well within it.
pub open spec fn spec_frac_lead(rem: nat, den: nat, fuel: nat) -> Seq<char>
    recommends
        rem < den,
    decreases fuel,
{
    if fuel == 0 || rem == 0 || den == 0 {
        Seq::empty()
    } else {
        let d = (rem * 10) / den;
        if d == 0 {
            seq!['0'] + spec_frac_lead((rem * 10) % den, den, (fuel - 1) as nat)
        } else {
            seq![digit_char(d as int)] + spec_frac_sig((rem * 10) % den, den, 2)
        }
    }
}

/// How many fractional digits the long division may take before the first
/// significant one appears: a denominator below 2^32 has at most ten
/// decimal digits, so ten steps always reach a nonzero digit.
pub const LEAD_FUEL: u64 = 12;

/// The adaptive-precision decimal form of `v / den`: the literal zero for a
/// zero denominator or a zero numerator; otherwise the digit string
/// truncated two digits past the first significant digit, except that
/// integer digits are always kept whole.
pub open spec fn spec_fraction_str(v: nat, den: nat) -> Seq<char> {
    if den == 0 {
        seq!['0']
    } else {
        let q = v / den;
        let r = v % den;
        if r == 0 || q >= 100 {
            spec_dec_str(q)
        } else if q >= 10 {
            spec_dec_str(q) + seq!['.'] + spec_frac_sig(r, den, 1)
        } else if q >= 1 {
            spec_dec_str(q) + seq!['.'] + spec_frac_sig(r, den, 2)
        } else {
            seq!['0', '.'] + spec_frac_lead(r, den, LEAD_FUEL as nat)
        }
    }
}

fn push_frac_sig(s: &mut String, rem: u64, den: u64, budget: u64)
    requires
        0 < den <= 0xffff_ffff,
        rem < den,
    ensures
        final(s)@ == old(s)@ + spec_frac_sig(rem as nat, den as nat, budget as nat),
    decreases budget,
{
    if budget == 0 || rem == 0 {
        proof {
            assert(old(s)@ + spec_frac_sig(rem as nat, den as nat, budget as nat) =~= old(s)@);
        }
    } else {
        let d = rem * 10 / den;
        let next = rem * 10 % den;
        proof {
            assert(d < 10) by (nonlinear_arith)
                requires
                    rem < den,
                    den > 0,
                    d as int == (rem as int * 10) / (den as int),
            ;
        }
        push_digit(s, d);
        push_frac_sig(s, next, den, budget - 1);
        proof {
            assert(old(s)@.push(digit_char(d as int)) + spec_frac_sig(
                next as nat,
                den as nat,
                (budget - 1) as nat,
            ) =~= old(s)@ + spec_frac_sig(rem as nat, den as nat, budget as nat));
        }
    }
}

fn push_frac_lead(s: &mut String, rem: u64, den: u64, fuel: u64)
    requires
        0 < den <= 0xffff_ffff,
        rem < den,
    ensures
        final(s)@ == old(s)@ + spec_frac_lead(rem as nat, den as nat, fuel as nat),
    decreases fuel,
{
    if fuel == 0 || rem == 0 {
        proof {
            assert(old(s)@ + spec_frac_lead(rem as nat, den as nat, fuel as nat) =~= old(s)@);
        }
    } else {
        let d = rem * 10 / den;
        let next = rem * 10 % den;
        proof {
            assert(d < 10) by (nonlinear_arith)
                requires
                    rem < den,
                    den > 0,
                    d as int == (rem as int * 10) / (den as int),
            ;
        }
        if d == 0 {
            push_digit(s, 0);
            push_frac_lead(s, next, den, fuel - 1);
            proof {
                assert(old(s)@.push('0') + spec_frac_lead(
                    next as nat,
                    den as nat,
                    (fuel - 1) as nat,
                ) =~= old(s)@ + spec_frac_lead(rem as nat, den as nat, fuel as nat));
            }
        } else {
            push_digit(s, d);
            push_frac_sig(s, next, den, 2);
            proof {
                assert(old(s)@.push(digit_char(d as int)) + spec_frac_sig(
                    next as nat,
                    den as nat,
                    2,
                ) =~= old(s)@ + spec_frac_lead(rem as nat, den as nat, fuel as nat));
            }
        }
    }
}

/// The adaptive-precision decimal form of `value / den`. A zero denominator
/// yields the literal zero, never a non-finite value.
pub fn fraction_string(value: u32, den: u32) -> (r: String)
    ensures
        r@ == spec_fraction_str(value as nat, den as nat),
        den == 0 ==> r@ == seq!['0'],
{
    let mut s = String::new();
    if den == 0 {
        s.push('0');
        proof {
            assert(s@ =~= seq!['0']);
        }
        return s;
    }
    let v = value as u64;
    let d = den as u64;
    let q = v / d;
    let r = v % d;
    if r == 0 || q >= 100 {
        push_dec(&mut s, q);
        proof {
            assert(Seq::<char>::empty() + spec_dec_str(q as nat) =~= spec_dec_str(q as nat));
        }
    } else if q >= 1 {
        let budget: u64 = if q >= 10 {
            1
        } else {
            2
        };
        push_dec(&mut s, q);
        s.push('.');
        push_frac_sig(&mut s, r, d, budget);
        proof {
            assert((Seq::<char>::empty() + spec_dec_str(q as nat)).push('.') + spec_frac_sig(
                r as nat,
                d as nat,
                budget as nat,
            ) =~= spec_fraction_str(value as nat, den as nat));
        }
    } else {
        s.push('0');
        s.push('.');
        push_frac_lead(&mut s, r, d, LEAD_FUEL);
        proof {
            assert(Seq::<char>::empty().push('0').push('.') + spec_frac_lead(
                r as nat,
                d as nat,
                LEAD_FUEL as nat,
            ) =~= spec_fraction_str(value as nat, den as nat));
        }
    }
    s
}

} // verus!
