//! Which image of the wing beat is drawn: the faster a bird, the fewer ticks
//! each image stays.

use vstd::prelude::*;
use vstd::arithmetic::power2::pow2;
use vstd::arithmetic::div_mod::lemma_fundamental_div_mod;
use vstd::arithmetic::div_mod::lemma_fundamental_div_mod_converse;
use crate::bird::Bird;
use crate::scalar::Scalar;
use crate::value::lemma_named_numbers;
use crate::value::lemma_rank_orders_as_value;

verus! {

/// The number of images in the wing beat.
pub const FRAMES: usize = 8;

/// The longest that an image stays, in ticks.
pub const SLOWEST: usize = 10;

/// The pattern of the whole number `n`, for `n` from 1 to 10.
pub open spec fn whole(n: int) -> Scalar {
    Scalar {
        bits: if n == 1 {
            0x3f80_0000u32
        } else if n == 2 {
            0x4000_0000u32
        } else if n == 3 {
            0x4040_0000u32
        } else if n == 4 {
            0x4080_0000u32
        } else if n == 5 {
            0x40a0_0000u32
        } else if n == 6 {
            0x40c0_0000u32
        } else if n == 7 {
            0x40e0_0000u32
        } else if n == 8 {
            0x4100_0000u32
        } else if n == 9 {
            0x4110_0000u32
        } else {
            0x4120_0000u32
        },
    }
}

/// The least whole number from `n` to 10 that `level` does not exceed, and 10
/// where it exceeds them all.
pub open spec fn period_from(level: Scalar, n: int) -> int
    decreases 10 - n,
{
    if n >= 10 {
        10
    } else if level.le_spec(whole(n)) {
        n
    } else {
        period_from(level, n + 1)
    }
}

/// The number of ticks that each image stays at the given level: the level
/// rounded up to a whole number and kept between 1 and 10. A level that is a
/// NaN gives 10.
pub open spec fn frame_period(level: Scalar) -> int {
    if level.nan() {
        10
    } else {
        period_from(level, 1)
    }
}

/// The image drawn at tick `ticks` where each stays `period` ticks: the
/// images follow one another and start again after the last.
pub open spec fn frame_at(ticks: int, period: int) -> int {
    (ticks % (8 * period)) / period
}

/// Whether `ticks` ticks are `turns` whole turns through the images, then
/// `period` ticks for each of the `image` images before the one drawn, and
/// `rest` ticks of that one.
pub open spec fn counted(ticks: int, period: int, turns: int, image: int, rest: int) -> bool {
    &&& 0 <= turns
    &&& 0 <= image < 8
    &&& 0 <= rest < period
    &&& ticks == (turns * 8 + image) * period + rest
}

fn whole_number(n: usize) -> (r: Scalar)
    requires
        1 <= n <= 10,
    ensures
        r == whole(n as int),
{
    let bits: u32 = if n == 1 {
        0x3f80_0000
    } else if n == 2 {
        0x4000_0000
    } else if n == 3 {
        0x4040_0000
    } else if n == 4 {
        0x4080_0000
    } else if n == 5 {
        0x40a0_0000
    } else if n == 6 {
        0x40c0_0000
    } else if n == 7 {
        0x40e0_0000
    } else if n == 8 {
        0x4100_0000
    } else if n == 9 {
        0x4110_0000
    } else {
        0x4120_0000
    };
    Scalar::from_bits(bits)
}

fn round_up(level: Scalar) -> (r: usize)
    ensures
        r == frame_period(level),
        1 <= r <= 10,
        level.nan() ==> r == 10,
        !level.nan() && r < 10 ==> level.le_spec(whole(r as int)),
        !level.nan() && r > 1 ==> whole(r - 1).lt_spec(level),
{
    if level.is_nan() {
        return SLOWEST;
    }
    let mut n: usize = 1;
    while n < SLOWEST
        invariant
            1 <= n <= 10,
            !level.nan(),
            frame_period(level) == period_from(level, n as int),
            n > 1 ==> whole(n - 1).lt_spec(level),
        decreases 10 - n,
    {
        if level.le(whole_number(n)) {
            return n;
        }
        n += 1;
    }
    SLOWEST
}

impl Bird {
    /// The number of ticks that each image of a bird stays, from 1 for the
    /// fastest to 10 for the slowest. `level` is what the bird's speed comes
    /// to on that scale before it is rounded up: the result is the least
    /// whole number from 1 to 10 that is not below the level, and 10 where
    /// there is none or the level is a NaN.
    pub fn bird_frame_velocity(level: Scalar) -> (r: usize)
        ensures
            r == frame_period(level),
            1 <= r <= 10,
            level.nan() ==> r == 10,
            !level.nan() && r < 10 ==> level.units() <= r * pow2(149),
            !level.nan() && r > 1 ==> (r - 1) * pow2(149) < level.units(),
    {
        let r = round_up(level);
        proof {
            lemma_named_numbers();
            lemma_rank_orders_as_value(level, whole(r as int));
            lemma_rank_orders_as_value(whole(r - 1), level);
        }
        r
    }
}

/// The image drawn at tick `ticks` where each stays `period` ticks: the one
/// that the count of the ticks in turns, images and a rest arrives at.
pub fn frame_index(ticks: usize, period: usize) -> (r: usize)
    requires
        0 < period,
        FRAMES * period <= usize::MAX,
    ensures
        r == frame_at(ticks as int, period as int),
        r < FRAMES,
        exists|turns: int, rest: int| counted(ticks as int, period as int, turns, r as int, rest),
{
    let round: usize = FRAMES * period;
    let within: usize = ticks % round;
    let r: usize = within / period;
    proof {
        let p = period as int;
        let turns = ticks as int / (8 * p);
        let rest = within as int % p;
        lemma_fundamental_div_mod(ticks as int, 8 * p);
        lemma_fundamental_div_mod(within as int, p);
        assert(r < 8) by (nonlinear_arith)
            requires
                r == within as int / p,
                within < 8 * p,
                0 < p,
        ;
        assert(0 <= turns) by (nonlinear_arith)
            requires
                turns == ticks as int / (8 * p),
                0 < p,
                0 <= ticks,
        ;
        assert(ticks == (turns * 8 + r) * p + rest) by (nonlinear_arith)
            requires
                ticks == (8 * p) * turns + within,
                within == p * r + rest,
        ;
        assert(counted(ticks as int, p, turns, r as int, rest));
    }
    r
}

/// The ticks can be counted in one way only, and the image that the count
/// arrives at is the one drawn.
pub proof fn lemma_count_is_settled(ticks: int, period: int, turns: int, image: int, rest: int)
    requires
        0 <= ticks,
        0 < period,
        counted(ticks, period, turns, image, rest),
    ensures
        image == frame_at(ticks, period),
        turns == ticks / (8 * period),
        rest == ticks % period,
{
    let p = period;
    let q = ticks / (8 * p);
    let within = ticks % (8 * p);
    let i = within / p;
    let r = within % p;
    lemma_fundamental_div_mod(ticks, 8 * p);
    lemma_fundamental_div_mod(within, p);
    lemma_fundamental_div_mod(ticks, p);
    let a = turns * 8 + image;
    let b = q * 8 + i;
    assert(i < 8 && 0 <= i) by (nonlinear_arith)
        requires
            i == within / p,
            0 <= within < 8 * p,
            0 < p,
    ;
    assert(ticks == b * p + r) by (nonlinear_arith)
        requires
            ticks == (8 * p) * q + within,
            within == p * i + r,
            b == q * 8 + i,
    ;
    lemma_fundamental_div_mod_converse(ticks, p, a, rest);
    lemma_fundamental_div_mod_converse(ticks, p, b, r);
}

/// After `period` more ticks the next image is drawn, and after the last
/// image the first.
pub proof fn lemma_image_moves_on(ticks: int, period: int)
    requires
        0 <= ticks,
        0 < period,
    ensures
        frame_at(ticks + period, period) == (frame_at(ticks, period) + 1) % 8,
{
    let p = period;
    let q = ticks / (8 * p);
    let within = ticks % (8 * p);
    let i = within / p;
    let r = within % p;
    lemma_fundamental_div_mod(ticks, 8 * p);
    lemma_fundamental_div_mod(within, p);
    assert(0 <= i < 8) by (nonlinear_arith)
        requires
            i == within / p,
            0 <= within < 8 * p,
            0 < p,
    ;
    assert(0 <= q) by (nonlinear_arith)
        requires
            q == ticks / (8 * p),
            0 <= ticks,
            0 < p,
    ;
    let (q2, i2) = if i == 7 {
        (q + 1, 0int)
    } else {
        (q, i + 1)
    };
    assert(ticks + p == (q2 * 8 + i2) * p + r) by (nonlinear_arith)
        requires
            ticks == (8 * p) * q + within,
            within == p * i + r,
            q2 * 8 + i2 == q * 8 + i + 1,
    ;
    assert(counted(ticks + p, p, q2, i2, r));
    lemma_count_is_settled(ticks + p, p, q2, i2, r);
}

} // verus!
