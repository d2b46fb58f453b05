//! Fixed-point weights, playback speeds and the arithmetic on them.

use vstd::prelude::*;
use vstd::arithmetic::div_mod::*;
use vstd::arithmetic::mul::*;

verus! {

/// The weight 1. Weights are counted in units of 1/65536.
pub const WEIGHT_ONE: u32 = 65536;

/// The playback speed 1. Speeds are counted in units of 1/65536, and a
/// negative speed plays backwards.
pub const SPEED_ONE: i32 = 65536;

/// The share of `weight` in `total`, in units of 1/65536 and rounded down.
/// With nothing to share the result is 0.
pub open spec fn spec_share(weight: nat, total: nat) -> nat {
    if total == 0 {
        0
    } else {
        (weight * 65536) / total
    }
}

/// The weight of the target of a cross-fade that has run for `elapsed` out
/// of `duration`: it grows linearly from 0 and stays at 1 once the fade is
/// over. A fade without duration is over at once.
pub open spec fn spec_fade_in(elapsed: nat, duration: nat) -> nat {
    if elapsed >= duration {
        65536
    } else {
        (elapsed * 65536) / duration
    }
}

/// The weight of the source of a cross-fade: what the target leaves of 1.
pub open spec fn spec_fade_out(elapsed: nat, duration: nat) -> nat {
    (65536 - spec_fade_in(elapsed, duration)) as nat
}

/// The playback time covered by a wall-clock step `dt` at `speed`, rounded
/// down to whole nanoseconds. It is negative where the speed is.
pub open spec fn spec_scaled(dt: nat, speed: int) -> int {
    (dt * speed) / 65536
}

/// The rounded-down share of a part in a whole never exceeds 1.
pub proof fn lemma_share_bounded(weight: nat, total: nat)
    requires
        weight <= total,
    ensures
        spec_share(weight, total) <= 65536,
{
    if total > 0 {
        assert(weight * 65536 <= total * 65536) by (nonlinear_arith)
            requires
                weight <= total,
        ;
        lemma_div_is_ordered((weight * 65536) as int, (total * 65536) as int, total as int);
        lemma_div_multiples_vanish(65536, total as int);
        assert(total * 65536 == 65536 * total) by (nonlinear_arith);
    }
}

/// A weight that is all of the total has the share 1 exactly.
pub proof fn lemma_share_of_whole(weight: nat)
    requires
        weight > 0,
    ensures
        spec_share(weight, weight) == 65536,
{
    lemma_div_multiples_vanish(65536, weight as int);
    assert(weight * 65536 == 65536 * weight) by (nonlinear_arith);
}

/// Shares do not change when the weight and the total are multiplied by
/// the same positive factor.
pub proof fn lemma_share_scale_invariant(weight: nat, total: nat, factor: nat)
    requires
        factor > 0,
    ensures
        spec_share(factor * weight, factor * total) == spec_share(weight, total),
{
    if total == 0 {
        assert(factor * total == 0) by (nonlinear_arith)
            requires
                total == 0,
        ;
    } else {
        assert(factor * total > 0) by (nonlinear_arith)
            requires
                factor > 0,
                total > 0,
        ;
        assert((factor * weight) * 65536 == factor * (weight * 65536)) by (nonlinear_arith);
        lemma_div_multiples_vanish_quotient(
            factor as int,
            (weight * 65536) as int,
            total as int,
        );
    }
}

/// The two weights of a cross-fade always add up to 1, the source starts
/// at 1, and the target holds 1 from the end of the fade on.
pub proof fn lemma_fade_weights(elapsed: nat, duration: nat)
    ensures
        spec_fade_in(elapsed, duration) <= 65536,
        spec_fade_out(elapsed, duration) + spec_fade_in(elapsed, duration) == 65536,
        elapsed == 0 && duration > 0 ==> spec_fade_out(elapsed, duration) == 65536,
        elapsed >= duration ==> spec_fade_in(elapsed, duration) == 65536 && spec_fade_out(
            elapsed,
            duration,
        ) == 0,
{
    if elapsed < duration {
        lemma_share_bounded(elapsed, duration);
        assert(spec_fade_in(elapsed, duration) == spec_share(elapsed, duration));
        if elapsed == 0 {
            assert(0 * 65536 == 0);
            lemma_div_basics(duration as int);
        }
    }
}

/// Computes the share of `weight` in `total`.
pub fn share(weight: u32, total: u128) -> (r: u32)
    requires
        weight <= total,
    ensures
        r == spec_share(weight as nat, total as nat),
        r <= WEIGHT_ONE,
{
    proof {
        lemma_share_bounded(weight as nat, total as nat);
    }
    if total == 0 {
        0
    } else {
        let scaled: u128 = (weight as u128) * 65536;
        let q: u128 = scaled / total;
        q as u32
    }
}

/// Computes the two weights of a cross-fade, source first.
pub fn fade_weights(elapsed: u64, duration: u64) -> (r: (u32, u32))
    ensures
        r.0 == spec_fade_out(elapsed as nat, duration as nat),
        r.1 == spec_fade_in(elapsed as nat, duration as nat),
        r.0 + r.1 == WEIGHT_ONE,
{
    proof {
        lemma_fade_weights(elapsed as nat, duration as nat);
    }
    if elapsed >= duration {
        (0, 65536)
    } else {
        let scaled: u128 = (elapsed as u128) * 65536;
        let q: u128 = scaled / (duration as u128);
        let target: u32 = q as u32;
        (65536 - target, target)
    }
}

/// Computes the playback time covered by the step `dt` at `speed`.
pub fn scaled(dt: u64, speed: i32) -> (r: i128)
    ensures
        r == spec_scaled(dt as nat, speed as int),
        -(dt * 32768) <= r <= dt * 32768,
{
    let wide: i64 = speed as i64;
    let magnitude: u128 = if wide >= 0 {
        wide as u128
    } else {
        (-wide) as u128
    };
    proof {
        assert(dt * magnitude <= dt * 2147483648) by (nonlinear_arith)
            requires
                magnitude <= 2147483648,
                dt >= 0,
        ;
    }
    let product: u128 = (dt as u128) * magnitude;
    if wide >= 0 {
        proof {
            assert(dt * speed == product) by (nonlinear_arith)
                requires
                    product == dt * magnitude,
                    magnitude == speed,
            ;
        }
        (product / 65536) as i128
    } else {
        proof {
            assert(dt * speed == -product) by (nonlinear_arith)
                requires
                    product == dt * magnitude,
                    magnitude == -speed,
            ;
            assert((-product) / 65536 == -((product + 65535) / 65536));
        }
        -(((product + 65535) / 65536) as i128)
    }
}

} // verus!
