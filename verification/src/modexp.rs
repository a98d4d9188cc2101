//! Modular exponentiation on 64-bit operands, by square and multiply, with
//! intermediate products widened to 128 bits so that no step can overflow.

use vstd::prelude::*;
use vstd::calc;
use vstd::arithmetic::power::*;
use vstd::arithmetic::div_mod::*;
use vstd::arithmetic::mul::*;

verus! {

/// One square-and-multiply step preserves the running-product invariant:
/// folding the low bit of the exponent into the accumulator and squaring the
/// base keeps `accumulator * base^exponent` unchanged modulo `m`.
#[verifier::rlimit(50)]
proof fn lemma_square_multiply_step(r: int, b: int, e: nat, m: int)
    requires
        m > 1,
    ensures
        e % 2 == 1 ==> ((((r * b) % m) * pow((b * b) % m, e / 2)) % m == (r * pow(b, e)) % m),
        e % 2 == 0 ==> ((r * pow((b * b) % m, e / 2)) % m == (r * pow(b, e)) % m),
{
    let h = e / 2;
    lemma_square_is_pow2(b);
    lemma_pow_multiplies(b, 2, h);
    assert(pow(b * b, h) == pow(b, 2 * h));
    lemma_pow_mod_noop(b * b, h, m);
    assert(pow((b * b) % m, h) % m == pow(b, 2 * h) % m);
    if e % 2 == 1 {
        assert(e == 2 * h + 1);
        lemma_pow_adds(b, 1, 2 * h);
        lemma_pow1(b);
        assert(pow(b, e) == b * pow(b, 2 * h));
        calc! {
            (==)
            (((r * b) % m) * pow((b * b) % m, h)) % m; {
                lemma_mul_mod_noop_general(r * b, pow((b * b) % m, h), m);
            }
            ((r * b) * (pow((b * b) % m, h) % m)) % m; {}
            ((r * b) * (pow(b, 2 * h) % m)) % m; {
                lemma_mul_mod_noop_general(r * b, pow(b, 2 * h), m);
            }
            ((r * b) * pow(b, 2 * h)) % m; {
                lemma_mul_is_associative(r, b, pow(b, 2 * h));
            }
            (r * (b * pow(b, 2 * h))) % m; {}
            (r * pow(b, e)) % m;
        }
    } else {
        assert(e == 2 * h);
        calc! {
            (==)
            (r * pow((b * b) % m, h)) % m; {
                lemma_mul_mod_noop_general(r, pow((b * b) % m, h), m);
            }
            (r * (pow((b * b) % m, h) % m)) % m; {}
            (r * (pow(b, 2 * h) % m)) % m; {
                lemma_mul_mod_noop_general(r, pow(b, 2 * h), m);
            }
            (r * pow(b, e)) % m;
        }
    }
}

/// `base^exponent mod modulus`, all 64-bit, matching exact (arbitrary
/// precision) exponentiation followed by the remainder. `modulus == 1` is a
/// defined edge case returning `0`; the function is pure and total for every
/// nonzero modulus, including `exponent == 0`.
pub fn modular_pow(base: u64, exponent: u64, modulus: u64) -> (r: u64)
    requires
        modulus >= 1,
    ensures
        r as int == pow(base as int, exponent as nat) % (modulus as int),
{
    if modulus == 1 {
        proof {
            lemma_mod_multiples_basic(pow(base as int, exponent as nat), 1int);
            lemma_mul_basics(pow(base as int, exponent as nat));
        }
        return 0;
    }
    let mut result: u64 = 1;
    let mut b: u64 = base % modulus;
    let mut e: u64 = exponent;
    proof {
        lemma_pow_mod_noop(base as int, exponent as nat, modulus as int);
        lemma_mul_basics(pow(b as int, e as nat));
    }
    while e > 0
        invariant
            1 < modulus,
            b < modulus,
            result < modulus,
            (result as int * pow(b as int, e as nat)) % (modulus as int) == pow(
                base as int,
                exponent as nat,
            ) % (modulus as int),
        decreases e,
    {
        proof {
            lemma_square_multiply_step(result as int, b as int, e as nat, modulus as int);
            lemma_mul_upper_bound(
                result as int,
                0xFFFF_FFFF_FFFF_FFFFint,
                b as int,
                0xFFFF_FFFF_FFFF_FFFFint,
            );
            lemma_mul_upper_bound(
                b as int,
                0xFFFF_FFFF_FFFF_FFFFint,
                b as int,
                0xFFFF_FFFF_FFFF_FFFFint,
            );
        }
        if e % 2 == 1 {
            let wide: u128 = (result as u128 * b as u128) % (modulus as u128);
            assert(wide == (result as int * b as int) % (modulus as int));
            result = wide as u64;
        }
        let squared: u128 = (b as u128 * b as u128) % (modulus as u128);
        assert(squared == (b as int * b as int) % (modulus as int));
        e = e / 2;
        b = squared as u64;
    }
    proof {
        lemma_pow0(b as int);
        lemma_mul_basics(result as int);
        lemma_small_mod(result as nat, modulus as nat);
    }
    result
}

} // verus!
