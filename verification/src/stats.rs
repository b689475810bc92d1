//! The statistics aggregator: reduces the ordered sequence of attempts of
//! one session to counts, loss percentage and round-trip-time
//! min/avg/max/mdev, all in integer nanoseconds.
//!
//! Conventions, chosen once and applied throughout: the loss percentage is
//! 0 for a session with no attempts, and otherwise the exact percentage
//! rounded to the nearest whole number, half rounding up; min, max, avg
//! and mdev range over every attempt, received or not, and are 0 for a
//! session with no attempts; avg is the nanosecond mean rounded down; mdev
//! is the population standard deviation in nanoseconds, rounded down.

use vstd::prelude::*;

verus! {

use crate::probe::Transmission;
use vstd::arithmetic::div_mod::{
    lemma_basic_div,
    lemma_div_is_ordered,
    lemma_div_multiples_vanish,
    lemma_fundamental_div_mod,
    lemma_fundamental_div_mod_converse,
    lemma_mod_division_less_than_divisor,
    lemma_multiply_divide_lt,
};
use vstd::arithmetic::mul::lemma_mul_inequality;

/// The most attempts one aggregation accepts; keeps the 128-bit variance
/// arithmetic below exact.
pub const MAX_SESSION_ATTEMPTS: usize = 0x100000;

/// The longest round trip time one aggregation accepts, in nanoseconds
/// (about 4.8 hours); keeps the 128-bit variance arithmetic below exact.
pub const MAX_RTT_NANOS: u64 = 0xFFF_FFFF_FFFF;

/// How many attempts of the session were received.
pub open spec fn received_count(s: Seq<Transmission>) -> int
    decreases s.len(),
{
    if s.len() == 0 {
        0
    } else {
        received_count(s.drop_last()) + if s.last().received {
            1int
        } else {
            0int
        }
    }
}

/// Sum of the round trip times of all attempts, in nanoseconds.
pub open spec fn rtt_sum(s: Seq<Transmission>) -> int
    decreases s.len(),
{
    if s.len() == 0 {
        0
    } else {
        rtt_sum(s.drop_last()) + s.last().round_trip_time_nanos
    }
}

/// Smallest round trip time over all attempts; 0 for an empty session.
pub open spec fn rtt_min(s: Seq<Transmission>) -> int
    decreases s.len(),
{
    if s.len() == 0 {
        0
    } else if s.len() == 1 {
        s[0].round_trip_time_nanos as int
    } else {
        let m = rtt_min(s.drop_last());
        if s.last().round_trip_time_nanos < m {
            s.last().round_trip_time_nanos as int
        } else {
            m
        }
    }
}

/// Largest round trip time over all attempts; 0 for an empty session.
pub open spec fn rtt_max(s: Seq<Transmission>) -> int
    decreases s.len(),
{
    if s.len() == 0 {
        0
    } else {
        let m = rtt_max(s.drop_last());
        if s.last().round_trip_time_nanos > m {
            s.last().round_trip_time_nanos as int
        } else {
            m
        }
    }
}

/// Sum of the squared deviations of the round trip times from `m`.
pub open spec fn sum_sq_dev(s: Seq<Transmission>, m: int) -> int
    decreases s.len(),
{
    if s.len() == 0 {
        0
    } else {
        sum_sq_dev(s.drop_last(), m) + (s.last().round_trip_time_nanos - m) * (
        s.last().round_trip_time_nanos - m)
    }
}

/// The population variance of the round trip times, scaled by the square
/// of the attempt count so that it is an integer: with `n` attempts, sum
/// `t` and floor mean `m = t / n`, this is `n * sum_sq_dev(s, m) - (t % n)^2`,
/// which equals `n^2` times the exact population variance (clamped at 0,
/// though it is never negative).
pub open spec fn variance_num(s: Seq<Transmission>) -> int
    recommends
        s.len() > 0,
{
    let n = s.len() as int;
    let t = rtt_sum(s);
    let a = n * sum_sq_dev(s, t / n);
    let b = (t % n) * (t % n);
    if a >= b {
        a - b
    } else {
        0
    }
}

/// The whole-number packet loss percentage: 0 for a session with no
/// attempts, otherwise `100 * lost / transmitted` rounded to the nearest
/// integer, half up.
pub open spec fn loss_percent(s: Seq<Transmission>) -> int {
    let n = s.len() as int;
    if n == 0 {
        0
    } else {
        (200 * (n - received_count(s)) + n) / (2 * n)
    }
}

/// The summary of one session.
#[derive(Clone, Copy, PartialEq, Eq, Structural, Debug)]
pub struct Stats {
    pub transmitted: usize,
    pub received: usize,
    /// Whole-number percentage, 0 to 100.
    pub loss_percent: u64,
    pub rtt_min_nanos: u64,
    pub rtt_avg_nanos: u64,
    pub rtt_max_nanos: u64,
    pub rtt_mdev_nanos: u64,
}

pub proof fn lemma_received_count_bounds(s: Seq<Transmission>)
    ensures
        0 <= received_count(s) <= s.len(),
    decreases s.len(),
{
    if s.len() > 0 {
        lemma_received_count_bounds(s.drop_last());
    }
}

/// Integer square root: the greatest `r` with `r * r <= x`.
fn isqrt(x: u128) -> (r: u128)
    ensures
        r * r <= x,
        (r + 1) * (r + 1) > x,
        r < 0x1_0000_0000_0000_0000u128,
{
    let mut lo: u128 = 0;
    let mut hi: u128 = 0x1_0000_0000_0000_0000;
    proof {
        assert((hi as int) * (hi as int) > x as int) by (nonlinear_arith)
            requires
                hi == 0x1_0000_0000_0000_0000u128,
                x <= u128::MAX,
        ;
    }
    while hi - lo > 1
        invariant
            lo < hi,
            hi <= 0x1_0000_0000_0000_0000u128,
            (lo as int) * (lo as int) <= x as int,
            (x as int) < (hi as int) * (hi as int),
        decreases hi - lo,
    {
        let mid = lo + (hi - lo) / 2;
        assert(lo < mid < hi);
        proof {
            assert((mid as int) * (mid as int) < 0x1_0000_0000_0000_0000_0000_0000_0000_0000int)
                by (nonlinear_arith)
                requires
                    mid < 0x1_0000_0000_0000_0000u128,
            ;
        }
        if mid * mid <= x {
            lo = mid;
        } else {
            hi = mid;
        }
    }
    lo
}

/// Reduces a session's attempts to its summary statistics.
///
/// The bounds on the attempt count and the round trip times keep the
/// 128-bit variance arithmetic exact; both are far beyond any session the
/// probe loop produces.
pub fn compute_stats(transmissions: &Vec<Transmission>) -> (r: Stats)
    requires
        transmissions@.len() <= MAX_SESSION_ATTEMPTS,
        forall|i: int|
            0 <= i < transmissions@.len() ==> transmissions@[i].round_trip_time_nanos
                <= MAX_RTT_NANOS,
    ensures
        r.transmitted == transmissions@.len(),
        r.received == received_count(transmissions@),
        r.loss_percent == loss_percent(transmissions@),
        r.loss_percent <= 100,
        r.rtt_min_nanos == rtt_min(transmissions@),
        r.rtt_max_nanos == rtt_max(transmissions@),
        r.rtt_avg_nanos == if transmissions@.len() == 0 {
            0int
        } else {
            rtt_sum(transmissions@) / transmissions@.len() as int
        },
        transmissions@.len() == 0 ==> r.rtt_mdev_nanos == 0,
        transmissions@.len() > 0 ==> {
            let nn = (transmissions@.len() * transmissions@.len()) as int;
            &&& (r.rtt_mdev_nanos as int) * (r.rtt_mdev_nanos as int) * nn <= variance_num(
                transmissions@,
            )
            &&& variance_num(transmissions@) < (r.rtt_mdev_nanos + 1) * (r.rtt_mdev_nanos + 1)
                * nn
        },
{
    let ghost s = transmissions@;
    let n = transmissions.len();
    if n == 0 {
        return Stats {
            transmitted: 0,
            received: 0,
            loss_percent: 0,
            rtt_min_nanos: 0,
            rtt_avg_nanos: 0,
            rtt_max_nanos: 0,
            rtt_mdev_nanos: 0,
        };
    }
    let mut sum: u64 = 0;
    let mut rc: usize = 0;
    let mut mn: u64 = 0;
    let mut mx: u64 = 0;
    let mut i: usize = 0;
    while i < n
        invariant
            i <= n,
            n == s.len(),
            s == transmissions@,
            forall|j: int| 0 <= j < n ==> s[j].round_trip_time_nanos <= MAX_RTT_NANOS,
            n <= MAX_SESSION_ATTEMPTS,
            sum == rtt_sum(s.take(i as int)),
            sum <= (i as int) * (MAX_RTT_NANOS as int),
            rc == received_count(s.take(i as int)),
            rc <= i,
            i > 0 ==> mn == rtt_min(s.take(i as int)),
            i > 0 ==> mx == rtt_max(s.take(i as int)),
        decreases n - i,
    {
        let t = transmissions[i];
        let x = t.round_trip_time_nanos;
        proof {
            assert(s.take(i as int + 1).drop_last() =~= s.take(i as int));
            assert(s.take(i as int + 1).last() == s[i as int]);
            assert(s.take(i as int + 1)[0] == s[0]);
            assert(rtt_min(s.take(0)) == 0 && rtt_max(s.take(0)) == 0);
            assert((i as int + 1) * (MAX_RTT_NANOS as int) == (i as int) * (MAX_RTT_NANOS as int)
                + MAX_RTT_NANOS);
            lemma_mul_inequality(i as int + 1, n as int, MAX_RTT_NANOS as int);
        }
        sum = sum + x;
        if t.received {
            rc = rc + 1;
        }
        if i == 0 {
            mn = x;
            mx = x;
        } else {
            if x < mn {
                mn = x;
            }
            if x > mx {
                mx = x;
            }
        }
        i = i + 1;
    }
    proof {
        assert(s.take(n as int) =~= s);
    }
    let n64 = n as u64;
    let avg = sum / n64;
    let m = avg;
    let rem = sum % n64;
    proof {
        lemma_div_is_ordered(sum as int, (n as int) * (MAX_RTT_NANOS as int), n as int);
        lemma_div_multiples_vanish(MAX_RTT_NANOS as int, n as int);
        assert(m <= MAX_RTT_NANOS);
    }
    let mut sumsq: u128 = 0;
    i = 0;
    while i < n
        invariant
            i <= n,
            n == s.len(),
            s == transmissions@,
            forall|j: int| 0 <= j < n ==> s[j].round_trip_time_nanos <= MAX_RTT_NANOS,
            n <= MAX_SESSION_ATTEMPTS,
            m <= MAX_RTT_NANOS,
            sumsq == sum_sq_dev(s.take(i as int), m as int),
            sumsq <= (i as int) * ((MAX_RTT_NANOS as int) * (MAX_RTT_NANOS as int)),
        decreases n - i,
    {
        let x = transmissions[i].round_trip_time_nanos;
        let d: u64 = if x >= m {
            x - m
        } else {
            m - x
        };
        proof {
            assert(s.take(i as int + 1).drop_last() =~= s.take(i as int));
            assert(s.take(i as int + 1).last() == s[i as int]);
            assert(d <= MAX_RTT_NANOS);
            assert((d as int) * (d as int) == (x - m) * (x - m)) by (nonlinear_arith)
                requires
                    d == if x >= m {
                        (x - m) as u64
                    } else {
                        (m - x) as u64
                    },
            ;
            assert((d as int) * (d as int) <= (MAX_RTT_NANOS as int) * (MAX_RTT_NANOS as int))
                by (nonlinear_arith)
                requires
                    0 <= d <= MAX_RTT_NANOS,
            ;
            assert((i as int + 1) * ((MAX_RTT_NANOS as int) * (MAX_RTT_NANOS as int)) == (
            i as int) * ((MAX_RTT_NANOS as int) * (MAX_RTT_NANOS as int)) + (MAX_RTT_NANOS as int)
                * (MAX_RTT_NANOS as int)) by (nonlinear_arith);
            lemma_mul_inequality(
                i as int + 1,
                n as int,
                (MAX_RTT_NANOS as int) * (MAX_RTT_NANOS as int),
            );
            lemma_mul_inequality(
                n as int,
                MAX_SESSION_ATTEMPTS as int,
                (MAX_RTT_NANOS as int) * (MAX_RTT_NANOS as int),
            );
        }
        let dd: u128 = (d as u128) * (d as u128);
        sumsq = sumsq + dd;
        i = i + 1;
    }
    proof {
        assert(s.take(n as int) =~= s);
        // n * sumsq stays below 2^128: sumsq <= n * MAX^2 and
        // n^2 * MAX^2 < 2^128.
        lemma_mul_inequality(
            sumsq as int,
            (n as int) * ((MAX_RTT_NANOS as int) * (MAX_RTT_NANOS as int)),
            n as int,
        );
        assert((n as int) * ((MAX_RTT_NANOS as int) * (MAX_RTT_NANOS as int)) * (n as int)
            <= u128::MAX) by (nonlinear_arith)
            requires
                0 < n <= 0x100000,
        ;
        assert((n as int) * (sumsq as int) == (sumsq as int) * (n as int)) by (nonlinear_arith);
        assert(rem < n64);
        assert((rem as int) * (rem as int) <= u128::MAX) by (nonlinear_arith)
            requires
                rem < 0x100000u64,
        ;
        assert((n as int) * (n as int) <= u128::MAX) by (nonlinear_arith)
            requires
                0 < n <= 0x100000,
        ;
    }
    let a: u128 = (n as u128) * sumsq;
    let b: u128 = (rem as u128) * (rem as u128);
    let num: u128 = if a >= b {
        a - b
    } else {
        0
    };
    let nn: u128 = (n as u128) * (n as u128);
    proof {
        assert(nn >= 1) by (nonlinear_arith)
            requires
                nn == (n as int) * (n as int),
                n >= 1,
        ;
    }
    let q = num / nn;
    let root = isqrt(q);
    let mdev = root as u64;
    proof {
        lemma_fundamental_div_mod(num as int, nn as int);
        lemma_mod_division_less_than_divisor(num as int, nn as int);
        // q * nn <= num < (q + 1) * nn, so the two isqrt bounds on q
        // transfer to num scaled by nn.
        assert((q as int) * (nn as int) <= num as int) by (nonlinear_arith)
            requires
                num as int == (nn as int) * (q as int) + (num as int) % (nn as int),
                (num as int) % (nn as int) >= 0,
        ;
        assert((num as int) < (q as int + 1) * (nn as int)) by (nonlinear_arith)
            requires
                num as int == (nn as int) * (q as int) + (num as int) % (nn as int),
                (num as int) % (nn as int) < nn as int,
        ;
        lemma_mul_inequality((root as int) * (root as int), q as int, nn as int);
        lemma_mul_inequality(q as int + 1, (root as int + 1) * (root as int + 1), nn as int);
        assert(variance_num(s) == num);
        assert((root as int) * (root as int) * (nn as int) <= num as int);
        assert((num as int) < (root as int + 1) * (root as int + 1) * (nn as int));
    }
    let lost = (n - rc) as u64;
    proof {
        lemma_received_count_bounds(s);
    }
    let lp = (200 * lost + n64) / (2 * n64);
    proof {
        // lost <= n, so the numerator stays below 101 times the divisor.
        assert(200 * (lost as int) + n64 < (2 * n64 as int) * 101);
        lemma_multiply_divide_lt(200 * (lost as int) + n64, 2 * (n64 as int), 101);
    }
    Stats {
        transmitted: n,
        received: rc,
        loss_percent: lp,
        rtt_min_nanos: mn,
        rtt_avg_nanos: avg,
        rtt_max_nanos: mx,
        rtt_mdev_nanos: mdev,
    }
}

/// A session in which every attempt was received has zero packet loss.
pub proof fn lemma_loss_percent_all_received(s: Seq<Transmission>)
    requires
        forall|i: int| 0 <= i < s.len() ==> s[i].received,
    ensures
        loss_percent(s) == 0,
{
    lemma_received_count_full(s);
    if s.len() > 0 {
        lemma_basic_div(s.len() as int, 2 * s.len() as int);
    }
}

/// A session in which no attempt was received has one hundred percent
/// packet loss.
pub proof fn lemma_loss_percent_none_received(s: Seq<Transmission>)
    requires
        s.len() > 0,
        forall|i: int| 0 <= i < s.len() ==> !s[i].received,
    ensures
        loss_percent(s) == 100,
{
    lemma_received_count_empty(s);
    let n = s.len() as int;
    assert(200 * n + n == 100 * (2 * n) + n);
    lemma_fundamental_div_mod_converse(200 * n + n, 2 * n, 100, n);
}

proof fn lemma_received_count_full(s: Seq<Transmission>)
    requires
        forall|i: int| 0 <= i < s.len() ==> s[i].received,
    ensures
        received_count(s) == s.len(),
    decreases s.len(),
{
    if s.len() > 0 {
        lemma_received_count_full(s.drop_last());
    }
}

proof fn lemma_received_count_empty(s: Seq<Transmission>)
    requires
        forall|i: int| 0 <= i < s.len() ==> !s[i].received,
    ensures
        received_count(s) == 0,
    decreases s.len(),
{
    if s.len() > 0 {
        lemma_received_count_empty(s.drop_last());
    }
}

} // verus!
