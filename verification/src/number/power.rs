use vstd::prelude::*;
use vstd::arithmetic::power::pow;
use vstd::wrapping::i64_specs::signed_crop;

verus! {

/// `base` to the power `exp`, cut down to 64 bits as a product of `exp`
/// wrapping multiplications is.
pub open spec fn wrapping_pow(base: i64, exp: nat) -> i64 {
    signed_crop(pow(base as int, exp))
}

/// The crop of a number leaves its remainder modulo 2^64 as it is.
pub proof fn lemma_crop_mod(x: int)
    ensures
        (signed_crop(x) as int) % 0x1_0000_0000_0000_0000 == x % 0x1_0000_0000_0000_0000,
{
    let r: int = 0x1_0000_0000_0000_0000;
    if (x % r) > i64::MAX as int {
        vstd::arithmetic::div_mod::lemma_mod_sub_multiples_vanish(x % r, r);
    }
    vstd::arithmetic::div_mod::lemma_mod_twice(x, r);
}

/// Cropping before a multiplication changes nothing of the cropped product.
pub proof fn lemma_crop_mul(x: int, y: int)
    ensures
        signed_crop(signed_crop(x) * y) == signed_crop(x * y),
{
    let r: int = 0x1_0000_0000_0000_0000;
    lemma_crop_mod(x);
    vstd::arithmetic::div_mod::lemma_mul_mod_noop_left(signed_crop(x) as int, y, r);
    vstd::arithmetic::div_mod::lemma_mul_mod_noop_left(x, y, r);
}

/// A value that fits in 64 bits is its own crop.
pub proof fn lemma_crop_small(x: int)
    requires
        i64::MIN <= x <= i64::MAX,
    ensures
        signed_crop(x) == x,
{
    let r: int = 0x1_0000_0000_0000_0000;
    if x >= 0 {
        vstd::arithmetic::div_mod::lemma_small_mod(x as nat, r as nat);
    } else {
        vstd::arithmetic::div_mod::lemma_mod_add_multiples_vanish(x, r);
        vstd::arithmetic::div_mod::lemma_small_mod((x + r) as nat, r as nat);
    }
}

/// A power is a product of as many factors as the exponent says: one more
/// wrapping multiplication gives the next wrapping power.
pub proof fn lemma_wrapping_pow_step(base: i64, exp: nat)
    ensures
        wrapping_pow(base, 0) == 1,
        wrapping_pow(base, exp + 1) == wrapping_pow(base, exp).wrapping_mul(base),
{
    let p = pow(base as int, exp);
    vstd::arithmetic::power::lemma_pow0(base as int);
    vstd::arithmetic::power::lemma_pow1(base as int);
    vstd::arithmetic::power::lemma_pow_adds(base as int, exp, 1);
    lemma_crop_small(1);
    lemma_crop_mul(p, base as int);
}

/// One round of squaring: with `acc * b^e` in hand, multiplying `acc` by `b`
/// where `e` is odd, squaring `b` and halving `e` leaves the product as it
/// was, modulo 2^64.
proof fn lemma_square_step(acc: int, b: int, e: nat, new_acc: int, new_b: int)
    requires
        e > 0,
        new_b % 0x1_0000_0000_0000_0000 == (b * b) % 0x1_0000_0000_0000_0000,
        new_acc % 0x1_0000_0000_0000_0000 == (if e % 2 == 1 {
            acc * b
        } else {
            acc
        }) % 0x1_0000_0000_0000_0000,
    ensures
        (new_acc * pow(new_b, e / 2)) % 0x1_0000_0000_0000_0000 == (acc * pow(b, e))
            % 0x1_0000_0000_0000_0000,
{
    let r: int = 0x1_0000_0000_0000_0000;
    let k: nat = e / 2;
    let squares = pow(b * b, k);
    let with_new = pow(new_b, k);
    let x = if e % 2 == 1 {
        acc * b
    } else {
        acc
    };
    assert(pow(b, 2) == b * b) by {
        vstd::arithmetic::power::lemma_pow1(b);
        vstd::arithmetic::power::lemma_pow_adds(b, 1, 1);
    }
    assert(squares == pow(b, 2 * k)) by {
        vstd::arithmetic::power::lemma_pow_multiplies(b, 2, k);
    }
    assert(x * squares == acc * pow(b, e)) by {
        if e % 2 == 1 {
            assert(e == 2 * k + 1);
            vstd::arithmetic::power::lemma_pow1(b);
            vstd::arithmetic::power::lemma_pow_adds(b, 2 * k, 1);
            assert(pow(b, e) == squares * b);
            assert((acc * b) * squares == acc * (squares * b)) by (nonlinear_arith);
        } else {
            assert(e == 2 * k);
        }
    }
    assert(with_new % r == squares % r) by {
        vstd::arithmetic::power::lemma_pow_mod_noop(new_b, k, r);
        vstd::arithmetic::power::lemma_pow_mod_noop(b * b, k, r);
    }
    vstd::arithmetic::div_mod::lemma_mul_mod_noop(new_acc, with_new, r);
    vstd::arithmetic::div_mod::lemma_mul_mod_noop(x, squares, r);
}

/// `base` to the power `exp`, by squaring: the result of `exp` wrapping
/// multiplications in a number of rounds that the length of `exp` bounds.
pub fn int_pow(base: i64, exp: i64) -> (r: i64)
    requires
        exp >= 0,
    ensures
        r == wrapping_pow(base, exp as nat),
{
    let mut acc: i64 = 1;
    let mut b: i64 = base;
    let mut e: i64 = exp;
    proof {
        assert(1 * pow(base as int, exp as nat) == pow(base as int, exp as nat));
    }
    while e > 0
        invariant
            0 <= e,
            (acc * pow(b as int, e as nat)) % 0x1_0000_0000_0000_0000 == pow(
                base as int,
                exp as nat,
            ) % 0x1_0000_0000_0000_0000,
        decreases e,
    {
        let odd = e % 2 == 1;
        let new_acc = if odd {
            acc.wrapping_mul(b)
        } else {
            acc
        };
        let new_b = b.wrapping_mul(b);
        proof {
            lemma_crop_mod(acc * b);
            lemma_crop_mod(b * b);
            lemma_square_step(acc as int, b as int, e as nat, new_acc as int, new_b as int);
        }
        acc = new_acc;
        b = new_b;
        e = e / 2;
    }
    proof {
        vstd::arithmetic::power::lemma_pow0(b as int);
        assert(acc * 1 == acc);
        lemma_crop_small(acc as int);
    }
    acc
}

} // verus!
