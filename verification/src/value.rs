//! What a pattern denotes: the number it holds, counted in units of 2^-149,
//! the smallest step of single precision. In these units every number that is
//! not an infinity is whole.

use vstd::prelude::*;
use vstd::arithmetic::power2::pow2;
use vstd::arithmetic::power2::lemma_pow2_pos;
use vstd::arithmetic::power2::lemma_pow2_adds;
use vstd::arithmetic::power2::lemma_pow2_unfold;
use vstd::arithmetic::power2::lemma_pow2_strictly_increases;
use vstd::arithmetic::power2::lemma2_to64;
use vstd::arithmetic::mul::lemma_mul_inequality;
use vstd::arithmetic::mul::lemma_mul_strict_inequality;
use vstd::arithmetic::mul::lemma_mul_is_associative;
use crate::bird::BORDER;
use crate::frames::whole;
use crate::scalar::Scalar;
use crate::state::NO_LIMIT;
use crate::state::SEPARATION;
use crate::state::VELOCITY_LIMIT;
use crate::state::VISION_RANGE;

verus! {

/// The weight of the bit that a pattern leaves out: 2^23, one more than the
/// largest fraction.
pub const HIDDEN_BIT: u32 = 0x80_0000;

/// The size, in units of 2^-149, of the number whose pattern without the sign
/// is `m`: the fraction alone while the exponent is 0, and after that the
/// fraction with the hidden bit, doubled with each step of the exponent.
pub open spec fn size(m: int) -> int {
    let exponent = m / (HIDDEN_BIT as int);
    let fraction = m % (HIDDEN_BIT as int);
    if exponent == 0 {
        fraction
    } else {
        (HIDDEN_BIT + fraction) * pow2((exponent - 1) as nat)
    }
}

impl Scalar {
    /// The number held, in units of 2^-149. An infinity counts as the next
    /// power of two beyond the largest number. A NaN holds no number, and what
    /// this gives for one means nothing.
    pub open spec fn units(self) -> int {
        if self.negative() {
            -size(self.magnitude())
        } else {
            size(self.magnitude())
        }
    }
}

/// The larger the pattern without its sign, the larger the number.
pub proof fn lemma_size_grows(m1: int, m2: int)
    requires
        0 <= m1 < m2,
    ensures
        0 <= size(m1) < size(m2),
{
    let b = HIDDEN_BIT as int;
    let e1 = m1 / b;
    let f1 = m1 % b;
    let e2 = m2 / b;
    let f2 = m2 % b;
    assert(m1 == e1 * b + f1 && m2 == e2 * b + f2);
    assert(e1 <= e2);
    assert(e1 == e2 ==> f1 < f2);
    if e1 > 0 {
        lemma_pow2_pos((e1 - 1) as nat);
    }
    if e2 > 0 {
        let double_high = pow2((e2 - 1) as nat) as int;
        lemma_pow2_pos((e2 - 1) as nat);
        if e1 == e2 {
            lemma_mul_strict_inequality(b + f1, b + f2, double_high);
        } else {
            // the smaller number stays below 2^23 doubled as often as its exponent says
            assert(b * double_high <= (b + f2) * double_high) by {
                lemma_mul_inequality(b, b + f2, double_high);
            }
            if e1 == 0 {
                assert(b <= b * double_high) by (nonlinear_arith)
                    requires
                        double_high >= 1,
                        b >= 0,
                ;
            } else {
                let double_low = pow2((e1 - 1) as nat) as int;
                lemma_mul_strict_inequality(b + f1, 2 * b, double_low);
                lemma_pow2_unfold(e1 as nat);
                assert((2 * b) * double_low == b * (2 * double_low)) by (nonlinear_arith);
                if e1 < e2 - 1 {
                    lemma_pow2_strictly_increases(e1 as nat, (e2 - 1) as nat);
                }
                assert(pow2(e1 as nat) <= double_high);
                assert(b * pow2(e1 as nat) <= b * double_high) by (nonlinear_arith)
                    requires
                        pow2(e1 as nat) <= double_high,
                        b >= 0,
                ;
            }
        }
    }
}

/// The rank of a pattern orders as the number it holds does: one pattern's
/// rank is below another's exactly when its number is, and two ranks are equal
/// exactly when the numbers are. So the comparisons of scalars are those of
/// the numbers held.
pub proof fn lemma_rank_orders_as_value(a: Scalar, b: Scalar)
    ensures
        a.rank() <= b.rank() <==> a.units() <= b.units(),
        a.rank() < b.rank() <==> a.units() < b.units(),
        a.rank() == b.rank() <==> a.units() == b.units(),
        a.le_spec(b) <==> !a.nan() && !b.nan() && a.units() <= b.units(),
        a.lt_spec(b) <==> !a.nan() && !b.nan() && a.units() < b.units(),
        a.same_spec(b) <==> !a.nan() && !b.nan() && a.units() == b.units(),
{
    let ma = a.magnitude();
    let mb = b.magnitude();
    assert(size(0) == 0);
    if ma < mb {
        lemma_size_grows(ma, mb);
    } else if mb < ma {
        lemma_size_grows(mb, ma);
    }
    if 0 < ma {
        lemma_size_grows(0, ma);
    }
    if 0 < mb {
        lemma_size_grows(0, mb);
    }
}

/// A pattern with the exponent `t` steps below 150 whose fraction, with the
/// hidden bit, is `n` times 2^t holds the number `n`.
proof fn lemma_size_of_whole(m: int, n: int, t: nat)
    requires
        m >= 0,
        m / (HIDDEN_BIT as int) >= 1,
        t + m / (HIDDEN_BIT as int) == 150,
        HIDDEN_BIT + m % (HIDDEN_BIT as int) == n * pow2(t),
    ensures
        size(m) == n * pow2(149),
{
    let e = (m / (HIDDEN_BIT as int) - 1) as nat;
    lemma_pow2_adds(t, e);
    lemma_mul_is_associative(n, pow2(t) as int, pow2(e) as int);
}

/// The patterns that the flock's rules name hold the numbers they are named
/// for: the whole numbers from 1 to 10, the border of 50, the vision range of
/// 125, the velocity limit of 10, the separation weight of 1 and the -1 that
/// switches the limit off.
pub proof fn lemma_named_numbers()
    ensures
        forall|n: int| 1 <= n <= 10 ==> (#[trigger] whole(n)).units() == n * pow2(149),
        (Scalar { bits: BORDER }).units() == 50 * pow2(149),
        (Scalar { bits: VISION_RANGE }).units() == 125 * pow2(149),
        (Scalar { bits: VELOCITY_LIMIT }).units() == 10 * pow2(149),
        (Scalar { bits: SEPARATION }).units() == pow2(149),
        (Scalar { bits: NO_LIMIT }).units() == -pow2(149),
{
    lemma2_to64();
    lemma_size_of_whole(0x3f80_0000, 1, 23);
    lemma_size_of_whole(0x4000_0000, 2, 22);
    lemma_size_of_whole(0x4040_0000, 3, 22);
    lemma_size_of_whole(0x4080_0000, 4, 21);
    lemma_size_of_whole(0x40a0_0000, 5, 21);
    lemma_size_of_whole(0x40c0_0000, 6, 21);
    lemma_size_of_whole(0x40e0_0000, 7, 21);
    lemma_size_of_whole(0x4100_0000, 8, 20);
    lemma_size_of_whole(0x4110_0000, 9, 20);
    lemma_size_of_whole(0x4120_0000, 10, 20);
    lemma_size_of_whole(0x4248_0000, 50, 18);
    lemma_size_of_whole(0x42fa_0000, 125, 17);
    assert forall|n: int| 1 <= n <= 10 implies (#[trigger] whole(n)).units() == n * pow2(149) by {
        assert(whole(n).magnitude() == whole(n).bits);
    }
}

} // verus!
