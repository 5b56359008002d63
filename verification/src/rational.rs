use vstd::prelude::*;
use vstd::arithmetic::div_mod::{
    lemma_fundamental_div_mod,
    lemma_fundamental_div_mod_converse,
    lemma_mod_division_less_than_divisor,
    lemma_mod_self_0,
};

verus! {

// ---------------------------------------------------------------------------
// Reduction of rationals to lowest terms with a positive denominator, as the
// engine normalizes every rational numeral.
// ---------------------------------------------------------------------------

pub open spec fn abs_int(x: int) -> nat {
    if x < 0 {
        (-x) as nat
    } else {
        x as nat
    }
}

/// The greatest common divisor, by the classical remainder recursion.
pub open spec fn gcd(a: nat, b: nat) -> nat
    decreases b,
{
    if b == 0 {
        a
    } else {
        gcd(b, a % b)
    }
}

/// The divisor divides both arguments, and is positive when they are not
/// both zero.
pub proof fn lemma_gcd_divides(a: nat, b: nat)
    requires
        a + b > 0,
    ensures
        gcd(a, b) > 0,
        (a as int) % (gcd(a, b) as int) == 0,
        (b as int) % (gcd(a, b) as int) == 0,
    decreases b,
{
    if b == 0 {
        lemma_mod_self_0(a as int);
    } else {
        lemma_mod_division_less_than_divisor(a as int, b as int);
        lemma_gcd_divides(b, a % b);
        let g = gcd(b, a % b) as int;
        lemma_fundamental_div_mod(a as int, b as int);
        lemma_fundamental_div_mod(b as int, g);
        lemma_fundamental_div_mod((a % b) as int, g);
        let qb = b as int / g;
        let qr = (a % b) as int / g;
        let qab = a as int / b as int;
        assert(a as int == g * (qb * qab + qr) + 0) by (nonlinear_arith)
            requires
                a as int == b * qab + (a % b),
                b as int == g * qb + 0,
                (a % b) as int == g * qr + 0,
        ;
        lemma_fundamental_div_mod_converse(a as int, g, qb * qab + qr, 0);
    }
}

/// The numerator of `num/den` reduced to lowest terms with a positive
/// denominator.
pub open spec fn reduced_num(num: int, den: int) -> int {
    let g = gcd(abs_int(num), abs_int(den)) as int;
    (if den < 0 {
        -num
    } else {
        num
    }) / g
}

/// The (positive) denominator of `num/den` reduced to lowest terms.
pub open spec fn reduced_den(num: int, den: int) -> int {
    let g = gcd(abs_int(num), abs_int(den)) as int;
    abs_int(den) as int / g
}

fn gcd_exec(a0: u64, b0: u64) -> (g: u64)
    ensures
        g == gcd(a0 as nat, b0 as nat),
{
    let mut a = a0;
    let mut b = b0;
    while b != 0
        invariant
            gcd(a as nat, b as nat) == gcd(a0 as nat, b0 as nat),
        decreases b,
    {
        let t = a % b;
        a = b;
        b = t;
    }
    a
}

/// Divides both components by their greatest common divisor and makes the
/// denominator positive.
pub(crate) fn reduce_rational(num: i64, den: i64) -> (r: (i64, i64))
    requires
        den != 0,
        num > i64::MIN,
        den > i64::MIN,
    ensures
        r.0 as int == reduced_num(num as int, den as int),
        r.1 as int == reduced_den(num as int, den as int),
{
    let na: u64 = if num < 0 {
        (-(num as i128)) as u64
    } else {
        num as u64
    };
    let da: u64 = if den < 0 {
        (-(den as i128)) as u64
    } else {
        den as u64
    };
    proof {
        assert(na as nat == abs_int(num as int));
        assert(da as nat == abs_int(den as int));
        lemma_gcd_divides(na as nat, da as nat);
    }
    let g = gcd_exec(na, da);
    let mn = na / g;
    let md = da / g;
    proof {
        // exact division of the magnitudes carries over to the signed values
        lemma_fundamental_div_mod(na as int, g as int);
        assert(na as int == g * (mn as int) + 0);
        assert(-(na as int) == (-(mn as int)) * (g as int) + 0) by (nonlinear_arith)
            requires
                na as int == g * (mn as int),
        ;
        lemma_fundamental_div_mod_converse(-(na as int), g as int, -(mn as int), 0);
        assert((-(na as int)) / (g as int) == -(mn as int));
        lemma_fundamental_div_mod(da as int, g as int);
    }
    let flip = (num < 0) != (den < 0);
    let rn: i64 = if flip {
        -(mn as i64)
    } else {
        mn as i64
    };
    proof {
        let numi = num as int;
        let deni = den as int;
        if deni < 0 {
            assert(abs_int(-numi) == abs_int(numi));
            if numi <= 0 {
                assert(-numi == na as int);
                assert(reduced_num(numi, deni) == mn as int);
            } else {
                assert(-numi == -(na as int));
                assert(reduced_num(numi, deni) == -(mn as int));
            }
        } else {
            if numi < 0 {
                assert(numi == -(na as int));
                assert(reduced_num(numi, deni) == -(mn as int));
            } else {
                assert(numi == na as int);
                assert(reduced_num(numi, deni) == mn as int);
            }
        }
    }
    (rn, md as i64)
}

} // verus!
