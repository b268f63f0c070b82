//! Rendering of an exact rational result as text.  The fraction is
//! reduced, an integer renders as its plain digits, a value whose
//! decimal expansion terminates renders as `whole.fraction` by long
//! division, and any other value renders as the reduced fraction `p/q`.

use vstd::prelude::*;

use crate::eval::Value;
use crate::parse::{DOT, MINUS, SLASH, ZERO};

verus! {

/// Euclid's greatest common divisor.
pub open spec fn gcd(a: nat, b: nat) -> nat
    decreases b,
{
    if b == 0 {
        a
    } else {
        gcd(b, a % b)
    }
}

/// For a positive second argument the divisor is between one and that
/// argument.
pub proof fn lemma_gcd_bounds(a: nat, b: nat)
    requires
        1 <= b,
    ensures
        1 <= gcd(a, b) <= b,
    decreases b,
{
    if a % b != 0 {
        lemma_gcd_bounds(b, a % b);
    } else {
        assert(gcd(b, 0) == b);
    }
}

/// The decimal digits of `n`, most significant first.
pub open spec fn digits_of(n: nat) -> Seq<u8>
    decreases n,
{
    if n < 10 {
        seq![(ZERO + n) as u8]
    } else {
        digits_of(n / 10).push((ZERO + n % 10) as u8)
    }
}

/// The digits after the decimal point of `rem / den`, by long division,
/// appended onto `acc`; `None` if the expansion has not terminated
/// after `steps` more digits.
pub open spec fn frac_digits(rem: nat, den: nat, steps: nat, acc: Seq<u8>) -> Option<Seq<u8>>
    decreases steps,
{
    if rem == 0 {
        Some(acc)
    } else if steps == 0 {
        None
    } else {
        frac_digits(rem * 10 % den, den, (steps - 1) as nat, acc.push(
            (ZERO + rem * 10 / den) as u8,
        ))
    }
}

/// How many long-division steps are tried before a decimal expansion is
/// declared non-terminating.  A reduced denominator within `i64` range
/// whose expansion terminates divides `10^63`, so 63 steps decide it.
pub open spec fn frac_steps() -> nat {
    63
}

/// The rendered form of `num / den` (for `den >= 1`): the reduced
/// value's sign and integer digits, then either nothing (an integer), a
/// `.` and the fractional digits (a terminating expansion), or — for a
/// non-terminating expansion — the reduced fraction as `p/q`.
pub open spec fn render_value(num: int, den: int) -> Seq<u8> {
    let mag = (if num < 0 {
        -num
    } else {
        num
    }) as nat;
    let g = gcd(mag, den as nat);
    let n = mag / g;
    let d = (den as nat) / g;
    let sign: Seq<u8> = if num < 0 {
        seq![MINUS]
    } else {
        Seq::empty()
    };
    if n % d == 0 {
        sign + digits_of(n / d)
    } else {
        match frac_digits(n % d, d, frac_steps(), Seq::empty()) {
            Some(fr) => sign + digits_of(n / d) + seq![DOT] + fr,
            None => sign + digits_of(n) + seq![SLASH] + digits_of(d),
        }
    }
}

/// Euclid's algorithm, mirroring [`gcd`].
fn gcd_u64(a: u64, b: u64) -> (r: u64)
    ensures
        r as nat == gcd(a as nat, b as nat),
    decreases b,
{
    if b == 0 {
        a
    } else {
        gcd_u64(b, a % b)
    }
}

/// The decimal digits of `n`, mirroring [`digits_of`].
fn digits_u64(n: u64) -> (v: Vec<u8>)
    ensures
        v@ == digits_of(n as nat),
        forall|i: int| 0 <= i < v@.len() ==> v@[i] < 128,
    decreases n,
{
    if n < 10 {
        let mut v: Vec<u8> = Vec::new();
        v.push(ZERO + n as u8);
        proof {
            assert(v@ =~= digits_of(n as nat));
        }
        v
    } else {
        let mut v = digits_u64(n / 10);
        v.push(ZERO + (n % 10) as u8);
        v
    }
}

/// Long division digits, mirroring [`frac_digits`].
fn frac_u64(rem: u64, den: u64, steps: u64, acc: Vec<u8>) -> (r: Option<Vec<u8>>)
    requires
        rem < den,
        forall|i: int| 0 <= i < acc@.len() ==> acc@[i] < 128,
    ensures
        match r {
            Some(v) => frac_digits(rem as nat, den as nat, steps as nat, acc@) == Some(v@)
                && forall|i: int| 0 <= i < v@.len() ==> v@[i] < 128,
            None => frac_digits(rem as nat, den as nat, steps as nat, acc@) is None,
        },
    decreases steps,
{
    if rem == 0 {
        Some(acc)
    } else if steps == 0 {
        None
    } else {
        let r10: u128 = rem as u128 * 10;
        let digit: u128 = r10 / den as u128;
        let next_rem: u128 = r10 % den as u128;
        proof {
            assert(digit < 10) by (nonlinear_arith)
                requires
                    digit == r10 / (den as u128),
                    r10 == rem as u128 * 10,
                    rem < den,
                    0 < den,
            ;
            assert(r10 % (den as u128) == (rem as nat * 10) % (den as nat));
            assert(r10 / (den as u128) == (rem as nat * 10) / (den as nat));
        }
        let mut acc2 = acc;
        acc2.push(ZERO + digit as u8);
        frac_u64(next_rem as u64, den, steps - 1, acc2)
    }
}

impl Value {
    /// The rendered bytes of this value: reduce, then integer digits,
    /// terminating decimal expansion, or `p/q`.
    pub fn render_bytes(&self) -> (v: Vec<u8>)
        requires
            self.wf(),
        ensures
            v@ == render_value(self.num as int, self.den as int),
            forall|i: int| 0 <= i < v@.len() ==> v@[i] < 128,
    {
        let mag: u64 = if self.num < 0 {
            (-(self.num as i128)) as u64
        } else {
            self.num as u64
        };
        let g = gcd_u64(mag, self.den as u64);
        proof {
            lemma_gcd_bounds(mag as nat, self.den as nat);
        }
        let n = mag / g;
        let d = (self.den as u64) / g;
        proof {
            assert(d >= 1) by (nonlinear_arith)
                requires
                    d == (self.den as u64) / g,
                    1 <= g <= self.den as u64,
            ;
        }
        let whole = n / d;
        let rem = n % d;
        let mut out: Vec<u8> = Vec::new();
        if self.num < 0 {
            out.push(MINUS);
        }
        if rem == 0 {
            let mut digs = digits_u64(whole);
            out.append(&mut digs);
            proof {
                assert(out@ =~= render_value(self.num as int, self.den as int));
            }
            out
        } else {
            match frac_u64(rem, d, 63, Vec::new()) {
                Some(mut fr) => {
                    let mut digs = digits_u64(whole);
                    out.append(&mut digs);
                    out.push(DOT);
                    out.append(&mut fr);
                    proof {
                        assert(out@ =~= render_value(self.num as int, self.den as int));
                    }
                    out
                },
                None => {
                    let mut digs = digits_u64(n);
                    out.append(&mut digs);
                    out.push(SLASH);
                    let mut dens = digits_u64(d);
                    out.append(&mut dens);
                    proof {
                        assert(out@ =~= render_value(self.num as int, self.den as int));
                    }
                    out
                },
            }
        }
    }
}

} // verus!
