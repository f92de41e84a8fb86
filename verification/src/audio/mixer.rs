use vstd::prelude::*;

verus! {

/// A requested gain in thousandths, clamped to `[0, 2000]`.
pub open spec fn clamped_gain(g: i32) -> int {
    if g < 0 {
        0
    } else if g > 2000 {
        2000
    } else {
        g as int
    }
}

/// Whether `q` is the gain, in thousandths, that shares `c` among `n`
/// sounds playing at once: `c / sqrt(n)` rounded down, but at most 1000.
pub open spec fn shared_gain(q: int, c: int, n: int) -> bool {
    &&& 0 <= q <= 1000
    &&& q * q * n <= c * c
    &&& q == 1000 || (q + 1) * (q + 1) * n > c * c
}

/// The gain for one of `concurrent_instances` sounds playing at once, so that
/// their total power stays that of one: the requested gain, clamped to
/// `[0, 2000]`, divided by the square root of the count and capped at 1000.
pub fn normalize_gain(requested_gain_milli: i32, concurrent_instances: usize) -> (r: i32)
    ensures
        concurrent_instances <= 1 ==> r == clamped_gain(requested_gain_milli),
        concurrent_instances > 1 ==> shared_gain(
            r as int,
            clamped_gain(requested_gain_milli),
            concurrent_instances as int,
        ),
{
    let clamped: i32 = if requested_gain_milli < 0 {
        0
    } else if requested_gain_milli > 2000 {
        2000
    } else {
        requested_gain_milli
    };
    if concurrent_instances <= 1 {
        return clamped;
    }
    let c = clamped as u128;
    let n = concurrent_instances as u128;
    proof {
        assert(c * c <= 2000 * 2000) by (nonlinear_arith)
            requires
                c <= 2000,
        ;
    }
    let limit = c * c;
    let mut q: u128 = 0;
    proof {
        assert(0 * 0 * n == 0) by (nonlinear_arith);
    }
    loop
        invariant
            q <= 1000,
            c <= 2000,
            2 <= n <= 0xffff_ffff_ffff_ffff,
            limit == c * c,
            q * q * n <= limit,
        ensures
            q <= 1000,
            q * q * n <= limit,
            q == 1000 || (q + 1) * (q + 1) * n > limit,
        decreases 1000 - q,
    {
        if q >= 1000 {
            break;
        }
        let next = q + 1;
        proof {
            assert(next * next <= 1001 * 1001) by (nonlinear_arith)
                requires
                    next <= 1000,
            ;
            assert(next * next * n <= 1001 * 1001 * 0xffff_ffff_ffff_ffff) by (nonlinear_arith)
                requires
                    next * next <= 1001 * 1001,
                    n <= 0xffff_ffff_ffff_ffff,
            ;
        }
        let square = next * next;
        let product = square * n;
        if product > limit {
            break;
        }
        q = next;
    }
    q as i32
}

} // verus!
