//! Wilder-smoothed indicators over scaled-integer candles: average true
//! range, relative strength, directional movement, Bollinger bands, and the
//! choppiness index.

use vstd::prelude::*;

verus! {

use crate::candle::Candle;
use crate::num::{div_floor, is_isqrt, isqrt_u128, lemma_div_between, log2_fp, log2_fp_spec};
use crate::PRICE_MAX;

/// Wilder's smoothing of an average: `(avg * (n - 1) + x) / n`.
pub open spec fn wilder_avg_spec(avg: int, x: int, n: nat) -> int {
    (avg * (n - 1) + x) / n as int
}

/// One step of Wilder's smoothing of an average, staying within `[0, hi]`.
pub fn wilder_avg(avg: i64, x: i64, n: usize, Ghost(hi): Ghost<int>) -> (r: i64)
    requires
        1 <= n <= 1000,
        0 < hi <= 2 * PRICE_MAX,
        0 <= avg <= hi,
        0 <= x <= hi,
    ensures
        r == wilder_avg_spec(avg as int, x as int, n as nat),
        0 <= r <= hi,
{
    proof {
        assert(avg * (n - 1) <= 2 * PRICE_MAX * 1000 && avg * (n - 1) >= 0) by (nonlinear_arith)
            requires 0 <= avg <= 2 * PRICE_MAX, 0 <= (n - 1) as int <= 999;
        assert(0 * (n as int) <= avg * (n - 1) + x <= hi * (n as int)) by (nonlinear_arith)
            requires 0 <= avg <= hi, 0 <= x <= hi, n >= 1;
        lemma_div_between(0, hi, avg * (n - 1) + x, n as int);
    }
    (avg * ((n - 1) as i64) + x) / (n as i64)
}

/// The average true range after one more candle: a running mean while the
/// first `period` candles arrive, Wilder's smoothing afterwards. `i` is the
/// index of the candle that produced `tr`.
pub open spec fn atr_step_spec(last_atr: int, tr: int, i: nat, period: nat) -> int {
    if i == 0 {
        tr
    } else if i < period {
        (last_atr * i + tr) / (i + 1) as int
    } else {
        (last_atr * (period - 1) + tr) / period as int
    }
}

/// Advance the average true range by one candle.
pub fn atr_step(last_atr: i64, tr: i64, i: usize, period: usize) -> (r: i64)
    requires
        1 <= period <= 1000,
        0 <= last_atr <= PRICE_MAX,
        0 <= tr <= PRICE_MAX,
    ensures
        r == atr_step_spec(last_atr as int, tr as int, i as nat, period as nat),
        0 <= r <= PRICE_MAX,
{
    if i == 0 {
        tr
    } else if i < period {
        proof {
            assert(last_atr * i <= PRICE_MAX * 1000 && last_atr * i >= 0) by (nonlinear_arith)
                requires 0 <= last_atr <= PRICE_MAX, 0 <= i as int <= 999;
            assert(0 * ((i + 1) as int) <= last_atr * i + tr <= PRICE_MAX * ((i + 1) as int))
                by (nonlinear_arith)
                requires 0 <= last_atr <= PRICE_MAX, 0 <= tr <= PRICE_MAX, i >= 0;
            lemma_div_between(0, PRICE_MAX as int, last_atr * i + tr, (i + 1) as int);
        }
        (last_atr * (i as i64) + tr) / ((i + 1) as i64)
    } else {
        wilder_avg(last_atr, tr, period, Ghost(PRICE_MAX as int))
    }
}

/// The relative strength index from smoothed gain and loss averages:
/// 100 when the loss average is zero, else `100 * gain / (gain + loss)`.
pub open spec fn rsi_of_spec(gain: int, loss: int) -> int {
    if loss == 0 {
        100
    } else {
        gain * 100 / (gain + loss)
    }
}

/// The index is always within [0, 100], and reaches 100 exactly when the
/// loss average is zero.
pub proof fn lemma_rsi_bounds(gain: int, loss: int)
    requires
        gain >= 0,
        loss >= 0,
    ensures
        0 <= rsi_of_spec(gain, loss) <= 100,
        rsi_of_spec(gain, loss) == 100 <==> loss == 0,
{
    if loss != 0 {
        vstd::arithmetic::div_mod::lemma_div_pos_is_pos(gain * 100, gain + loss);
        assert(gain * 100 >= 0) by (nonlinear_arith)
            requires gain >= 0;
        assert(gain * 100 <= 99 * (gain + loss) + (gain + loss) - 1) by (nonlinear_arith)
            requires gain >= 0, loss >= 1;
        vstd::arithmetic::div_mod::lemma_div_is_ordered(
            gain * 100,
            99 * (gain + loss) + (gain + loss) - 1,
            gain + loss,
        );
        vstd::arithmetic::div_mod::lemma_fundamental_div_mod_converse(
            99 * (gain + loss) + (gain + loss) - 1,
            gain + loss,
            99,
            gain + loss - 1,
        );
    }
}

/// Compute the relative strength index from smoothed averages.
pub fn rsi_of(gain: i64, loss: i64) -> (r: i64)
    requires
        0 <= gain <= 2 * PRICE_MAX,
        0 <= loss <= 2 * PRICE_MAX,
    ensures
        r == rsi_of_spec(gain as int, loss as int),
        0 <= r <= 100,
        r == 100 <==> loss == 0,
{
    proof {
        lemma_rsi_bounds(gain as int, loss as int);
    }
    if loss == 0 {
        100
    } else {
        (gain * 100) / (gain + loss)
    }
}

/// One step of the relative strength state. Entering index `i` (which has a
/// previous close), the gain and loss accumulators hold sums of the first
/// `i - 1` changes while `i <= period`, and Wilder averages afterwards.
/// The result is the new accumulators and the index value, present from
/// index `period` on.
pub open spec fn rsi_step_spec(g: int, l: int, gain: int, loss: int, i: nat, period: nat) -> (
    int,
    int,
    Option<int>,
) {
    if i < period {
        (g + gain, l + loss, Option::None)
    } else if i == period {
        let g2 = (g + gain) / period as int;
        let l2 = (l + loss) / period as int;
        (g2, l2, Option::Some(rsi_of_spec(g2, l2)))
    } else {
        let g2 = wilder_avg_spec(g, gain, period);
        let l2 = wilder_avg_spec(l, loss, period);
        (g2, l2, Option::Some(rsi_of_spec(g2, l2)))
    }
}

/// Advance the relative strength state by the change of one candle.
pub fn rsi_step(g: i64, l: i64, gain: i64, loss: i64, i: usize, period: usize) -> (r: (
    i64,
    i64,
    Option<i64>,
))
    requires
        1 <= period <= 1000,
        1 <= i,
        0 <= gain <= PRICE_MAX,
        0 <= loss <= PRICE_MAX,
        i <= period ==> 0 <= g <= (i - 1) * PRICE_MAX && 0 <= l <= (i - 1) * PRICE_MAX,
        i > period ==> 0 <= g <= PRICE_MAX && 0 <= l <= PRICE_MAX,
    ensures
        (r.0 as int, r.1 as int,
        match r.2 {
            Option::None => Option::<int>::None,
            Option::Some(v) => Option::Some(v as int),
        }) == rsi_step_spec(g as int, l as int, gain as int, loss as int, i as nat, period as nat),
        i < period ==> r.0 <= i * PRICE_MAX && r.1 <= i * PRICE_MAX && r.2 is None,
        i >= period ==> 0 <= r.0 <= PRICE_MAX && 0 <= r.1 <= PRICE_MAX && r.2 is Some,
        r.0 >= 0 && r.1 >= 0,
        r.2 is Some ==> 0 <= r.2.unwrap() <= 100,
        r.2 is Some ==> (r.2.unwrap() == 100 <==> r.1 == 0),
{
    proof {
        if i <= period {
            assert((i - 1) * PRICE_MAX + PRICE_MAX == i * PRICE_MAX) by (nonlinear_arith);
            assert(i * PRICE_MAX <= 1000 * PRICE_MAX) by (nonlinear_arith)
                requires 1 <= i as int <= 1000;
        }
    }
    if i < period {
        (g + gain, l + loss, Option::None)
    } else if i == period {
        proof {
            assert(0 * (period as int) <= g + gain <= PRICE_MAX * (period as int))
                by (nonlinear_arith)
                requires 0 <= g + gain <= (period as int) * PRICE_MAX, period >= 1;
            assert(0 * (period as int) <= l + loss <= PRICE_MAX * (period as int))
                by (nonlinear_arith)
                requires 0 <= l + loss <= (period as int) * PRICE_MAX, period >= 1;
            lemma_div_between(0, PRICE_MAX as int, g as int + gain, period as int);
            lemma_div_between(0, PRICE_MAX as int, l as int + loss, period as int);
        }
        let g2: i64 = (g + gain) / (period as i64);
        let l2: i64 = (l + loss) / (period as i64);
        (g2, l2, Option::Some(rsi_of(g2, l2)))
    } else {
        let g2: i64 = wilder_avg(g, gain, period, Ghost(PRICE_MAX as int));
        let l2: i64 = wilder_avg(l, loss, period, Ghost(PRICE_MAX as int));
        (g2, l2, Option::Some(rsi_of(g2, l2)))
    }
}

/// The upward and downward directional movements between two candles: only
/// the dominant move counts, and only when positive.
pub open spec fn dm_spec(c: Candle, prev: Candle) -> (int, int) {
    let up = c.high - prev.high;
    let down = prev.low - c.low;
    let pdm = if up > down && up > 0 {
        up
    } else {
        0
    };
    let mdm = if down > up && down > 0 {
        down
    } else {
        0
    };
    (pdm, mdm)
}

/// Compute the directional movements of a candle against its predecessor.
pub fn directional_moves(c: &Candle, prev: &Candle) -> (r: (i64, i64))
    requires
        c.well_formed(),
        prev.well_formed(),
    ensures
        (r.0 as int, r.1 as int) == dm_spec(*c, *prev),
        0 <= r.0 <= PRICE_MAX,
        0 <= r.1 <= PRICE_MAX,
{
    let up: i64 = c.high - prev.high;
    let down: i64 = prev.low - c.low;
    let pdm: i64 = if up > down && up > 0 {
        up
    } else {
        0
    };
    let mdm: i64 = if down > up && down > 0 {
        down
    } else {
        0
    };
    (pdm, mdm)
}

/// Wilder's running sum: `s - s / n + x`.
pub open spec fn wilder_sum_spec(s: int, x: int, n: nat) -> int {
    s - s / n as int + x
}

/// One step of Wilder's running sum, staying within `[0, n * (cap + 1)]`.
pub fn wilder_sum(s: i64, x: i64, n: usize, Ghost(cap): Ghost<int>) -> (r: i64)
    requires
        1 <= n <= 1000,
        0 < cap <= 2 * PRICE_MAX,
        0 <= s <= n * (cap + 1),
        0 <= x <= cap,
    ensures
        r == wilder_sum_spec(s as int, x as int, n as nat),
        0 <= r <= n * (cap + 1),
{
    proof {
        let q = s as int / n as int;
        vstd::arithmetic::div_mod::lemma_fundamental_div_mod(s as int, n as int);
        vstd::arithmetic::div_mod::lemma_div_pos_is_pos(s as int, n as int);
        vstd::arithmetic::div_mod::lemma_div_is_ordered(s as int, n as int * (cap + 1), n as int);
        vstd::arithmetic::div_mod::lemma_div_multiples_vanish(cap + 1, n as int);
        assert(n as int * (cap + 1) <= 1000 * (2 * PRICE_MAX + 1)) by (nonlinear_arith)
            requires 1 <= n as int <= 1000, 0 < cap <= 2 * PRICE_MAX;
        assert(q <= s as int) by {
            vstd::arithmetic::div_mod::lemma_div_nonincreasing(s as int, n as int);
        }
        // The updated sum stays under the cap: either the quotient is large
        // and the sum shrinks, or it is small and the parts are bounded.
        if q >= cap + 1 {
            assert(s as int - q + x <= n as int * (cap + 1)) by (nonlinear_arith)
                requires s as int <= n as int * (cap + 1), q >= cap + 1, x <= cap;
        } else {
            assert(s as int - q + x <= n as int * (cap + 1)) by (nonlinear_arith)
                requires
                    s as int == n as int * q + s as int % n as int,
                    0 <= s as int % (n as int) < n as int,
                    0 <= q <= cap,
                    0 <= x <= cap,
                    1 <= n as int,
            ;
        }
    }
    s - s / (n as i64) + x
}

/// The directional index from smoothed movement sums: zero when both vanish,
/// else the scaled ratio of their difference to their total.
pub open spec fn dx_spec(p: int, m: int) -> int {
    if p + m == 0 {
        0
    } else {
        (if p >= m {
            p - m
        } else {
            m - p
        }) * 100 / (p + m)
    }
}

/// Compute the directional index; it always lies in [0, 100], and is zero
/// (not undefined) when the smoothed movements cancel.
pub fn dx_of(p: i64, m: i64) -> (r: i64)
    requires
        0 <= p <= 1000 * (2 * PRICE_MAX + 1),
        0 <= m <= 1000 * (2 * PRICE_MAX + 1),
    ensures
        r == dx_spec(p as int, m as int),
        0 <= r <= 100,
{
    if p + m == 0 {
        0
    } else {
        let diff: i64 = if p >= m {
            p - m
        } else {
            m - p
        };
        proof {
            assert(0 * (p + m) <= diff * 100 <= 100 * (p as int + m as int)) by (nonlinear_arith)
                requires 0 <= diff <= p + m, p + m >= 1;
            lemma_div_between(0, 100, diff as int * 100, p as int + m as int);
        }
        (diff * 100) / (p + m)
    }
}

/// The smoothed directional-movement state of one generator.
#[derive(Clone, Copy, Debug, PartialEq, Eq, Structural)]
pub struct AdxState {
    pub tr_sum: i64,
    pub pdm_sum: i64,
    pub mdm_sum: i64,
    /// Sum of the first directional-index values while seeding, the smoothed
    /// average afterwards.
    pub acc: i64,
    /// How many directional-index values have been produced, saturating at
    /// the period.
    pub count: usize,
}

impl AdxState {
    /// The bounds every reachable state satisfies.
    pub open spec fn inv(self, period: nat) -> bool {
        &&& 0 <= self.tr_sum <= period * (PRICE_MAX + 1)
        &&& 0 <= self.pdm_sum <= period * (PRICE_MAX + 1)
        &&& 0 <= self.mdm_sum <= period * (PRICE_MAX + 1)
        &&& self.count <= period
        &&& (self.count < period ==> 0 <= self.acc <= 100 * self.count)
        &&& (self.count == period ==> 0 <= self.acc <= 100)
    }

    /// The empty state a generator starts from.
    pub fn new() -> (r: AdxState)
        ensures
            r == (AdxState { tr_sum: 0, pdm_sum: 0, mdm_sum: 0, acc: 0, count: 0 }),
            forall|p: nat| 1 <= p ==> r.inv(p),
    {
        proof {
            assert forall|p: nat| 1 <= p implies (AdxState {
                tr_sum: 0,
                pdm_sum: 0,
                mdm_sum: 0,
                acc: 0,
                count: 0,
            }).inv(p) by {
                assert(p * (PRICE_MAX + 1) >= 0) by (nonlinear_arith);
            }
        }
        AdxState { tr_sum: 0, pdm_sum: 0, mdm_sum: 0, acc: 0, count: 0 }
    }
}

/// One step of the directional-movement pipeline, as six components: the
/// three updated sums, the updated accumulator, the updated count, and the
/// index value when present.
pub open spec fn adx_step_spec(
    s: AdxState,
    pdm: int,
    mdm: int,
    tr: int,
    i: nat,
    period: nat,
) -> (int, int, int, int, int, Option<int>) {
    let tr2 = if i < period {
        s.tr_sum + tr
    } else {
        wilder_sum_spec(s.tr_sum as int, tr, period)
    };
    let pdm2 = if i < period {
        s.pdm_sum + pdm
    } else {
        wilder_sum_spec(s.pdm_sum as int, pdm, period)
    };
    let mdm2 = if i < period {
        s.mdm_sum + mdm
    } else {
        wilder_sum_spec(s.mdm_sum as int, mdm, period)
    };
    if i >= period && tr2 > 0 {
        let dx = dx_spec(pdm2, mdm2);
        if s.count + 1 < period {
            (tr2, pdm2, mdm2, s.acc + dx, s.count + 1, Option::None)
        } else if s.count + 1 == period {
            let adx = (s.acc + dx) / period as int;
            (tr2, pdm2, mdm2, adx, s.count + 1, Option::Some(adx))
        } else {
            let adx = wilder_avg_spec(s.acc as int, dx, period);
            (tr2, pdm2, mdm2, adx, s.count as int, Option::Some(adx))
        }
    } else {
        (tr2, pdm2, mdm2, s.acc as int, s.count as int, Option::None)
    }
}

/// Advance the directional-movement state by one candle (index `i`, which
/// has a predecessor). Returns the new state and the average directional
/// index, present once `period` index values have been produced.
pub fn adx_step(s: AdxState, pdm: i64, mdm: i64, tr: i64, i: usize, period: usize) -> (r: (
    AdxState,
    Option<i64>,
))
    requires
        1 <= period <= 1000,
        1 <= i,
        s.inv(period as nat),
        0 <= pdm <= PRICE_MAX,
        0 <= mdm <= PRICE_MAX,
        0 <= tr <= PRICE_MAX,
        i <= period ==> s.tr_sum <= (i - 1) * (PRICE_MAX + 1) && s.pdm_sum <= (i - 1) * (PRICE_MAX
            + 1) && s.mdm_sum <= (i - 1) * (PRICE_MAX + 1),
    ensures
        ({
            let spec = adx_step_spec(s, pdm as int, mdm as int, tr as int, i as nat, period as nat);
            &&& r.0.tr_sum == spec.0
            &&& r.0.pdm_sum == spec.1
            &&& r.0.mdm_sum == spec.2
            &&& r.0.acc == spec.3
            &&& r.0.count == spec.4
            &&& (match r.1 {
                Option::None => spec.5 is None,
                Option::Some(v) => spec.5 == Option::Some(v as int),
            })
        }),
        r.0.inv(period as nat),
        r.1 is Some <==> r.0.count == period && (i >= period && (if i < period {
            s.tr_sum + tr
        } else {
            wilder_sum_spec(s.tr_sum as int, tr as int, period as nat)
        }) > 0),
        r.1 is Some ==> 0 <= r.1.unwrap() <= 100,
        i <= period ==> r.0.tr_sum <= i * (PRICE_MAX + 1) && r.0.pdm_sum <= i * (PRICE_MAX + 1)
            && r.0.mdm_sum <= i * (PRICE_MAX + 1),
{
    proof {
        assert(period as int * (PRICE_MAX + 1) <= 1000 * (2 * PRICE_MAX + 1)) by (nonlinear_arith)
            requires period as int <= 1000;
        if i <= period {
            assert((i - 1) * (PRICE_MAX + 1) + (PRICE_MAX + 1) == i * (PRICE_MAX + 1))
                by (nonlinear_arith);
            assert(i * (PRICE_MAX + 1) <= 1000 * (PRICE_MAX + 1)) by (nonlinear_arith)
                requires 1 <= i as int <= 1000;
            assert(i * (PRICE_MAX + 1) <= period as int * (PRICE_MAX + 1)) by (nonlinear_arith)
                requires i as int <= period as int, PRICE_MAX + 1 > 0;
        }
    }
    let tr2: i64;
    let pdm2: i64;
    let mdm2: i64;
    if i < period {
        tr2 = s.tr_sum + tr;
        pdm2 = s.pdm_sum + pdm;
        mdm2 = s.mdm_sum + mdm;
    } else {
        tr2 = wilder_sum(s.tr_sum, tr, period, Ghost(PRICE_MAX as int));
        pdm2 = wilder_sum(s.pdm_sum, pdm, period, Ghost(PRICE_MAX as int));
        mdm2 = wilder_sum(s.mdm_sum, mdm, period, Ghost(PRICE_MAX as int));
    }
    if i >= period && tr2 > 0 {
        let dx: i64 = dx_of(pdm2, mdm2);
        if s.count + 1 < period {
            let s2 = AdxState {
                tr_sum: tr2,
                pdm_sum: pdm2,
                mdm_sum: mdm2,
                acc: s.acc + dx,
                count: s.count + 1,
            };
            (s2, Option::None)
        } else if s.count + 1 == period {
            proof {
                assert(0 * (period as int) <= s.acc + dx <= 100 * (period as int))
                    by (nonlinear_arith)
                    requires 0 <= s.acc <= 100 * ((period - 1) as int), 0 <= dx <= 100, period >= 1;
                lemma_div_between(0, 100, s.acc as int + dx, period as int);
            }
            let adx: i64 = (s.acc + dx) / (period as i64);
            let s2 = AdxState {
                tr_sum: tr2,
                pdm_sum: pdm2,
                mdm_sum: mdm2,
                acc: adx,
                count: s.count + 1,
            };
            (s2, Option::Some(adx))
        } else {
            let adx: i64 = wilder_avg(s.acc, dx, period, Ghost(100int));
            let s2 = AdxState {
                tr_sum: tr2,
                pdm_sum: pdm2,
                mdm_sum: mdm2,
                acc: adx,
                count: s.count,
            };
            (s2, Option::Some(adx))
        }
    } else {
        let s2 = AdxState { tr_sum: tr2, pdm_sum: pdm2, mdm_sum: mdm2, acc: s.acc, count: s.count };
        (s2, Option::None)
    }
}

/// The sum of squared deviations of the values of `w` from `avg`.
pub open spec fn sq_dev_sum(w: Seq<i64>, avg: int, t: nat) -> int
    decreases t,
{
    if t == 0 {
        0
    } else {
        sq_dev_sum(w, avg, (t - 1) as nat) + (w[t - 1] - avg) * (w[t - 1] - avg)
    }
}

/// The three Bollinger band values of a full window: the simple average,
/// and two population standard deviations to either side.
pub open spec fn bb_spec(w: Seq<i64>) -> (int, int, int) {
    let n = w.len();
    let mid = crate::ma::sma_at(w, n as int, n);
    let var = sq_dev_sum(w, mid, n) / n as int;
    let std = isqrt_spec(var);
    (mid + 2 * std, mid, mid - 2 * std)
}

/// The integer square root as a spec-level value.
pub open spec fn isqrt_spec(n: int) -> int {
    choose|r: int| is_isqrt(n, r)
}

/// The integer square root is unique, so any witness determines it.
pub proof fn lemma_isqrt_unique(n: int, r: int)
    requires
        is_isqrt(n, r),
    ensures
        isqrt_spec(n) == r,
{
    assert(is_isqrt(n, isqrt_spec(n)));
    let s = isqrt_spec(n);
    if s < r {
        assert((s + 1) * (s + 1) <= r * r) by (nonlinear_arith)
            requires 0 <= s, s + 1 <= r;
        assert(false);
    }
    if r < s {
        assert((r + 1) * (r + 1) <= s * s) by (nonlinear_arith)
            requires 0 <= r, r + 1 <= s;
        assert(false);
    }
}

/// Compute the Bollinger bands of a full window of closes. The bands always
/// satisfy `lower <= middle <= upper`.
pub fn bb_of(w: &Vec<i64>, period: usize) -> (r: (i64, i64, i64))
    requires
        1 <= period <= 1000,
        w.len() == period,
        forall|j: int| 0 <= j < w.len() ==> 0 <= #[trigger] w[j] <= PRICE_MAX,
    ensures
        (r.0 as int, r.1 as int, r.2 as int) == bb_spec(w@),
        r.2 <= r.1 <= r.0,
        -2 * PRICE_MAX <= r.2,
        r.0 <= 3 * PRICE_MAX,
        0 <= r.1 <= PRICE_MAX,
{
    let mid: i64 = crate::ma::sma_window(w, period, period, Ghost(0int), Ghost(PRICE_MAX as int));
    let mut acc: i128 = 0;
    let mut t: usize = 0;
    while t < period
        invariant
            0 <= t <= period <= 1000,
            w.len() == period,
            forall|j: int| 0 <= j < w.len() ==> 0 <= #[trigger] w[j] <= PRICE_MAX,
            0 <= mid <= PRICE_MAX,
            acc == sq_dev_sum(w@, mid as int, t as nat),
            0 <= acc <= t * (PRICE_MAX * PRICE_MAX),
        decreases period - t,
    {
        let d: i64 = w[t] - mid;
        proof {
            assert(0 <= (d as i128) * (d as i128) <= PRICE_MAX * PRICE_MAX) by (nonlinear_arith)
                requires -PRICE_MAX <= d as int <= PRICE_MAX;
            assert((t + 1) as int * (PRICE_MAX * PRICE_MAX) == t * (PRICE_MAX * PRICE_MAX)
                + PRICE_MAX * PRICE_MAX) by (nonlinear_arith);
            assert(t as int * (PRICE_MAX * PRICE_MAX) <= 1000 * (PRICE_MAX * PRICE_MAX))
                by (nonlinear_arith)
                requires 0 <= t as int <= 1000;
        }
        let sq: i128 = (d as i128) * (d as i128);
        acc = acc + sq;
        t = t + 1;
    }
    proof {
        assert(0 * (period as int) <= acc <= (PRICE_MAX * PRICE_MAX) * (period as int))
            by (nonlinear_arith)
            requires 0 <= acc <= period as int * (PRICE_MAX * PRICE_MAX);
        lemma_div_between(0, PRICE_MAX as int * PRICE_MAX as int, acc as int, period as int);
    }
    let var: i128 = acc / (period as i128);
    let std_w: u64 = isqrt_u128(var as u128);
    proof {
        lemma_isqrt_unique(var as int, std_w as int);
        assert(std_w as int * std_w as int <= PRICE_MAX * PRICE_MAX) by (nonlinear_arith)
            requires
                is_isqrt(var as int, std_w as int),
                var as int <= PRICE_MAX * PRICE_MAX,
                std_w as int * std_w as int <= var as int,
        ;
        assert(std_w as int <= PRICE_MAX) by (nonlinear_arith)
            requires std_w as int * std_w as int <= PRICE_MAX * PRICE_MAX, std_w as int >= 0,
                PRICE_MAX >= 1;
    }
    let std: i64 = std_w as i64;
    (mid + 2 * std, mid, mid - 2 * std)
}

/// Where the close sits in the band: the band splits into three equal
/// zones, and the close is near the band it has entered.
#[derive(Debug, Clone, Copy, PartialEq, Eq, Structural)]
pub enum BbPosition {
    NearUpper,
    Middle,
    NearLower,
    Unknown,
}

impl BbPosition {
    /// The position's conventional display name.
    pub fn as_str(&self) -> (r: &'static str)
        ensures
            *self is NearUpper ==> r@ == "NearUpper"@,
            *self is Middle ==> r@ == "Middle"@,
            *self is NearLower ==> r@ == "NearLower"@,
            *self is Unknown ==> r@ == "Unknown"@,
    {
        match self {
            BbPosition::NearUpper => "NearUpper",
            BbPosition::Middle => "Middle",
            BbPosition::NearLower => "NearLower",
            BbPosition::Unknown => "Unknown",
        }
    }
}

/// Which zone of the band a close falls in.
pub open spec fn bb_position_spec(upper: int, lower: int, close: int) -> BbPosition {
    let range = upper - lower;
    let zone = range * 33 / 100;
    if close >= upper - zone {
        BbPosition::NearUpper
    } else if close <= lower + zone {
        BbPosition::NearLower
    } else {
        BbPosition::Middle
    }
}

/// Classify a close against computed bands.
pub fn bb_position_of(upper: i64, lower: i64, close: i64) -> (r: BbPosition)
    requires
        -2 * PRICE_MAX <= lower <= upper <= 3 * PRICE_MAX,
        0 <= close <= PRICE_MAX,
    ensures
        r == bb_position_spec(upper as int, lower as int, close as int),
{
    let range: i64 = upper - lower;
    let zone: i64 = range * 33 / 100;
    proof {
        vstd::arithmetic::div_mod::lemma_div_pos_is_pos(range as int * 33, 100);
        assert(range as int * 33 >= 0) by (nonlinear_arith)
            requires range >= 0;
        assert(range as int * 33 <= 5 * PRICE_MAX * 33) by (nonlinear_arith)
            requires range as int <= 5 * PRICE_MAX;
        vstd::arithmetic::div_mod::lemma_div_is_ordered(range as int * 33, 5 * PRICE_MAX * 33, 100);
    }
    if close >= upper - zone {
        BbPosition::NearUpper
    } else if close <= lower + zone {
        BbPosition::NearLower
    } else {
        BbPosition::Middle
    }
}

/// The greatest high of a window of candles.
pub open spec fn window_high_spec(w: Seq<Candle>, t: nat) -> int
    decreases t,
{
    if t <= 1 {
        w[0].high as int
    } else {
        let rest = window_high_spec(w, (t - 1) as nat);
        if w[t - 1].high as int > rest {
            w[t - 1].high as int
        } else {
            rest
        }
    }
}

/// The least low of a window of candles.
pub open spec fn window_low_spec(w: Seq<Candle>, t: nat) -> int
    decreases t,
{
    if t <= 1 {
        w[0].low as int
    } else {
        let rest = window_low_spec(w, (t - 1) as nat);
        if (w[t - 1].low as int) < rest {
            w[t - 1].low as int
        } else {
            rest
        }
    }
}

/// The sum of a window of average-true-range values.
pub open spec fn window_sum_spec(w: Seq<i64>, t: nat) -> int
    decreases t,
{
    if t == 0 {
        0
    } else {
        window_sum_spec(w, (t - 1) as nat) + w[t - 1]
    }
}

/// The choppiness index of a full window: the base-`period` logarithm of the
/// ratio of summed true-range averages to the window's full price range,
/// scaled to a percentage. Degenerate windows (no range, no measured range
/// activity, or a one-candle period) give zero.
pub open spec fn ci_spec(sum_atr: int, range: int, period: nat) -> int {
    if sum_atr <= 0 || range <= 0 {
        0
    } else {
        let lp = log2_fp_spec(period as int);
        if lp < 1 {
            0
        } else {
            100 * (log2_fp_spec(sum_atr) - log2_fp_spec(range)) / lp
        }
    }
}

/// Compute the choppiness index from a full window of candles and their
/// average-true-range values.
pub fn ci_of(w: &Vec<Candle>, atrs: &Vec<i64>, period: usize) -> (r: i64)
    requires
        1 <= period <= 1000,
        w.len() == period,
        atrs.len() == period,
        forall|j: int| 0 <= j < w.len() ==> (#[trigger] w[j]).well_formed(),
        forall|j: int| 0 <= j < atrs.len() ==> 0 <= #[trigger] atrs[j] <= PRICE_MAX,
    ensures
        r == ci_spec(
            window_sum_spec(atrs@, period as nat),
            window_high_spec(w@, period as nat) - window_low_spec(w@, period as nat),
            period as nat,
        ),
{
    let mut high: i64 = w[0].high;
    let mut low: i64 = w[0].low;
    let mut sum: i64 = 0;
    let mut t: usize = 1;
    while t < period
        invariant
            1 <= t <= period <= 1000,
            w.len() == period,
            forall|j: int| 0 <= j < w.len() ==> (#[trigger] w[j]).well_formed(),
            high == window_high_spec(w@, t as nat),
            low == window_low_spec(w@, t as nat),
            0 <= low <= high <= PRICE_MAX,
        decreases period - t,
    {
        if w[t].high > high {
            high = w[t].high;
        }
        if w[t].low < low {
            low = w[t].low;
        }
        t = t + 1;
    }
    let mut u: usize = 0;
    while u < period
        invariant
            0 <= u <= period <= 1000,
            atrs.len() == period,
            forall|j: int| 0 <= j < atrs.len() ==> 0 <= #[trigger] atrs[j] <= PRICE_MAX,
            sum == window_sum_spec(atrs@, u as nat),
            0 <= sum <= u * PRICE_MAX,
        decreases period - u,
    {
        proof {
            assert((u + 1) as int * PRICE_MAX == u * PRICE_MAX + PRICE_MAX) by (nonlinear_arith);
            assert(u as int * PRICE_MAX <= 1000 * PRICE_MAX) by (nonlinear_arith)
                requires 0 <= u as int <= 1000;
        }
        sum = sum + atrs[u];
        u = u + 1;
    }
    let range: i64 = high - low;
    if sum <= 0 || range <= 0 {
        0
    } else {
        let lp: i64 = log2_fp(period as u64);
        if lp < 1 {
            0
        } else {
            let ls: i64 = log2_fp(sum as u64);
            let lr: i64 = log2_fp(range as u64);
            div_floor(100 * (ls - lr), lp)
        }
    }
}

/// The directional index is always within [0, 100], and the cancelling
/// case is zero by definition, never undefined.
pub proof fn lemma_dx_bounds(p: int, m: int)
    requires
        p >= 0,
        m >= 0,
    ensures
        0 <= dx_spec(p, m) <= 100,
        p + m == 0 ==> dx_spec(p, m) == 0,
{
    if p + m != 0 {
        let diff = if p >= m {
            p - m
        } else {
            m - p
        };
        assert(0 * (p + m) <= diff * 100 <= 100 * (p + m)) by (nonlinear_arith)
            requires 0 <= diff <= p + m, p + m >= 1;
        lemma_div_between(0, 100, diff * 100, p + m);
    }
}

/// Wilder's running sum stays nonnegative.
pub proof fn lemma_wilder_sum_nonneg(s: int, x: int, n: nat)
    requires
        s >= 0,
        x >= 0,
        n >= 1,
    ensures
        wilder_sum_spec(s, x, n) >= 0,
{
    vstd::arithmetic::div_mod::lemma_div_nonincreasing(s, n as int);
    vstd::arithmetic::div_mod::lemma_div_pos_is_pos(s, n as int);
}

/// Every nonnegative integer has an integer square root.
pub proof fn lemma_isqrt_exists(n: int)
    requires
        n >= 0,
    ensures
        is_isqrt(n, isqrt_spec(n)),
        isqrt_spec(n) >= 0,
    decreases n,
{
    if n == 0 {
        assert(is_isqrt(0, 0)) by (nonlinear_arith);
        assert(is_isqrt(n, isqrt_spec(n)));
    } else {
        lemma_isqrt_exists(n - 1);
        let r = isqrt_spec(n - 1);
        if (r + 1) * (r + 1) <= n {
            assert((r + 2) * (r + 2) > n) by (nonlinear_arith)
                requires r >= 0, (r + 1) * (r + 1) > n - 1, (r + 1) * (r + 1) <= n;
            assert(is_isqrt(n, r + 1));
        } else {
            assert(is_isqrt(n, r));
        }
        assert(is_isqrt(n, isqrt_spec(n)));
    }
}

/// Sums of squared deviations are nonnegative, and bounded when the values
/// and their center are.
pub proof fn lemma_sq_dev_bounds(w: Seq<i64>, avg: int, t: nat)
    requires
        t <= w.len(),
        0 <= avg <= PRICE_MAX,
        forall|j: int| 0 <= j < w.len() ==> 0 <= #[trigger] w[j] <= PRICE_MAX,
    ensures
        0 <= sq_dev_sum(w, avg, t) <= t * (PRICE_MAX * PRICE_MAX),
    decreases t,
{
    if t > 0 {
        lemma_sq_dev_bounds(w, avg, (t - 1) as nat);
        let d = w[t - 1] - avg;
        assert(0 <= d * d <= PRICE_MAX * PRICE_MAX) by (nonlinear_arith)
            requires -PRICE_MAX <= d <= PRICE_MAX;
        assert(t * (PRICE_MAX * PRICE_MAX) == (t - 1) * (PRICE_MAX * PRICE_MAX) + PRICE_MAX
            * PRICE_MAX) by (nonlinear_arith);
    }
}

/// The Bollinger bands of a full window are ordered: the lower band is at
/// or below the middle, the middle at or below the upper.
pub proof fn lemma_bb_ordered(w: Seq<i64>)
    requires
        1 <= w.len() <= 1000,
        forall|j: int| 0 <= j < w.len() ==> 0 <= #[trigger] w[j] <= PRICE_MAX,
    ensures
        bb_spec(w).2 <= bb_spec(w).1 <= bb_spec(w).0,
        0 <= bb_spec(w).1 <= PRICE_MAX,
        -2 * PRICE_MAX <= bb_spec(w).2,
        bb_spec(w).0 <= 3 * PRICE_MAX,
{
    let n = w.len();
    let mid = crate::ma::sma_at(w, n as int, n);
    lemma_ssum_bounds(w, n as int, n);
    assert(0 * (n as int) <= crate::ma::ssum(w, n as int, n) <= PRICE_MAX * (n as int))
        by (nonlinear_arith)
        requires 0 <= crate::ma::ssum(w, n as int, n) <= (n as int) * PRICE_MAX;
    lemma_div_between(0, PRICE_MAX as int, crate::ma::ssum(w, n as int, n), n as int);
    lemma_sq_dev_bounds(w, mid, n);
    let total = sq_dev_sum(w, mid, n);
    assert(0 * (n as int) <= total <= (PRICE_MAX * PRICE_MAX) * (n as int)) by (nonlinear_arith)
        requires 0 <= total <= (n as int) * (PRICE_MAX * PRICE_MAX);
    lemma_div_between(0, PRICE_MAX as int * PRICE_MAX as int, total, n as int);
    let var = total / (n as int);
    lemma_isqrt_exists(var);
    let std = isqrt_spec(var);
    assert(std <= PRICE_MAX) by (nonlinear_arith)
        requires std * std <= var, var <= PRICE_MAX * PRICE_MAX, std >= 0, PRICE_MAX >= 1;
}

/// The sum of a window of bounded values is bounded.
proof fn lemma_ssum_bounds(w: Seq<i64>, end: int, t: nat)
    requires
        t <= end <= w.len(),
        forall|j: int| 0 <= j < w.len() ==> 0 <= #[trigger] w[j] <= PRICE_MAX,
    ensures
        0 <= crate::ma::ssum(w, end, t) <= t * PRICE_MAX,
    decreases t,
{
    if t > 0 {
        lemma_ssum_bounds(w, end - 1, (t - 1) as nat);
        assert(t * PRICE_MAX == (t - 1) * PRICE_MAX + PRICE_MAX) by (nonlinear_arith);
    }
}

} // verus!
