//! Moving averages over scaled-integer closes: simple, weighted, and
//! exponential averages, and the Hull forms built from them.
//!
//! Every average is defined by a spec function over the sequence of closes,
//! and the executable code is proved to compute exactly that value. Division
//! rounds toward negative infinity throughout (the library's fixed-point
//! convention).

use vstd::prelude::*;

verus! {

use crate::num::{div_floor, lemma_div_between, is_isqrt};
use crate::{PRICE_MAX, PERIOD_MAX};

/// The five moving-average kinds a generator can be configured with.
#[derive(Clone, Copy, Debug, PartialEq, Eq, Structural)]
pub enum MaType {
    EMA,
    HMA,
    WMA,
    SMA,
    EHMA,
}

/// Moving-average values live in this interval whenever the closes they are
/// built from lie in `[0, PRICE_MAX]` (Hull raw terms can undershoot zero).
pub open spec fn ma_bounded(v: int) -> bool {
    -PRICE_MAX <= v <= 2 * PRICE_MAX
}

/// The weight total of an `n`-term weighted moving average: 1 + 2 + ... + n.
pub open spec fn wma_denom(n: nat) -> int {
    (n * (n + 1)) as int / 2
}

/// Partial weighted sum of the `n` values ending at `end` (exclusive): the
/// first `t` of them, where the value at `end - n + j` carries weight `j + 1`.
pub open spec fn wsum(w: Seq<i64>, end: int, n: nat, t: nat) -> int
    decreases t,
{
    if t == 0 {
        0
    } else {
        wsum(w, end, n, (t - 1) as nat) + w[end - n + t - 1] * t
    }
}

/// The weighted moving average of the `n` values ending at `end` (exclusive).
pub open spec fn wma_at(w: Seq<i64>, end: int, n: nat) -> int {
    wsum(w, end, n, n) / wma_denom(n)
}

/// The sum of the `t` values ending at `end` (exclusive).
pub open spec fn ssum(w: Seq<i64>, end: int, t: nat) -> int
    decreases t,
{
    if t == 0 {
        0
    } else {
        ssum(w, end - 1, (t - 1) as nat) + w[end - 1]
    }
}

/// The simple moving average of the `n` values ending at `end` (exclusive).
pub open spec fn sma_at(w: Seq<i64>, end: int, n: nat) -> int {
    ssum(w, end, n) / (n as int)
}

/// One step of the exponential moving average with smoothing `2 / (n + 1)`:
/// `(2 * price + (n - 1) * prev) / (n + 1)`.
pub open spec fn ema_step_spec(prev: int, price: int, n: nat) -> int {
    (2 * price + (n - 1) * prev) / (n + 1) as int
}

/// The exponential moving average of the first `t` values of `w`, seeded at
/// `w[0]`.
pub open spec fn ema_prefix(w: Seq<i64>, n: nat, t: nat) -> int
    decreases t,
{
    if t <= 1 {
        w[0] as int
    } else {
        ema_step_spec(ema_prefix(w, n, (t - 1) as nat), w[t - 1] as int, n)
    }
}

/// The Hull raw term at `end`: twice the half-period weighted average minus
/// the full-period one.
pub open spec fn hull_raw_at(w: Seq<i64>, end: int, n: nat, half: nat) -> int {
    2 * wma_at(w, end, half) - wma_at(w, end, n)
}

/// The sequence of Hull raw terms feeding the final smoothing: one for each
/// of the last `sqrt` positions of `w`.
pub open spec fn hull_raw_seq(w: Seq<i64>, n: nat, half: nat, sqrt: nat) -> Seq<i64> {
    Seq::new(sqrt, |t: int| (hull_raw_at(w, w.len() - sqrt + 1 + t, n, half)) as i64)
}

/// The Hull moving average: a weighted average of the Hull raw terms.
pub open spec fn hma_spec(w: Seq<i64>, n: nat, half: nat, sqrt: nat) -> int {
    wma_at(hull_raw_seq(w, n, half, sqrt), sqrt as int, sqrt)
}

/// The exponential-Hull raw terms: twice the half-period exponential average
/// minus the full-period one, one term per position after the first.
pub open spec fn ehull_raw_seq(w: Seq<i64>, n: nat, half: nat) -> Seq<i64> {
    Seq::new(
        (w.len() - 1) as nat,
        |j: int| (2 * ema_prefix(w, half, (j + 2) as nat) - ema_prefix(w, n, (j + 2) as nat)) as i64,
    )
}

/// The exponential Hull moving average: an exponential smoothing, with the
/// square-root period, of the exponential-Hull raw terms.
pub open spec fn ehma_spec(w: Seq<i64>, n: nat, half: nat, sqrt: nat) -> int {
    ema_prefix(ehull_raw_seq(w, n, half), sqrt, (w.len() - 1) as nat)
}

/// Weighted moving average of the `n` values of `w` ending at `end`
/// (exclusive). The ghost bounds `lo`/`hi` enclose those values and carry to
/// the result.
pub fn wma_window(w: &Vec<i64>, end: usize, n: usize, Ghost(lo): Ghost<int>, Ghost(hi): Ghost<int>) -> (r: i64)
    requires
        1 <= n <= end <= w.len(),
        n <= PERIOD_MAX,
        -2 * PRICE_MAX <= lo <= hi <= 2 * PRICE_MAX,
        forall|j: int| end - n <= j < end ==> lo <= #[trigger] w[j] <= hi,
    ensures
        r == wma_at(w@, end as int, n as nat),
        lo <= r <= hi,
{
    let mut num: i64 = 0;
    let mut den: i64 = 0;
    let mut t: usize = 0;
    while t < n
        invariant
            0 <= t <= n,
            1 <= n <= end <= w.len(),
            n <= PERIOD_MAX,
            -2 * PRICE_MAX <= lo <= hi <= 2 * PRICE_MAX,
            forall|j: int| end - n <= j < end ==> lo <= #[trigger] w[j] <= hi,
            den == (t * (t + 1)) / 2,
            den >= t,
            den <= 500500,
            num == wsum(w@, end as int, n as nat, t as nat),
            lo * den <= num <= hi * den,
            -2 * PRICE_MAX * 500500 <= num <= 2 * PRICE_MAX * 500500,
        decreases n - t,
    {
        let v: i64 = w[end - n + t];
        let wt: i64 = (t + 1) as i64;
        proof {
            assert(lo * wt <= v as int * wt <= hi * wt) by (nonlinear_arith)
                requires lo <= v as int <= hi, 1 <= wt;
            assert(v as int * wt <= 2 * PRICE_MAX * 1000 && v as int * wt >= -2 * PRICE_MAX * 1000)
                by (nonlinear_arith)
                requires -2 * PRICE_MAX <= v as int <= 2 * PRICE_MAX, 1 <= wt <= 1000;
            assert(lo * (den + wt) == lo * den + lo * wt && hi * (den + wt) == hi * den + hi * wt)
                by (nonlinear_arith);
            assert(((t + 1) * (t + 2)) / 2 == (t * (t + 1)) / 2 + (t + 1)) by (nonlinear_arith);
            assert(((t + 1) * (t + 2)) / 2 <= 500500) by (nonlinear_arith)
                requires t + 1 <= 1000;
            assert(lo * (den + wt) >= -2 * PRICE_MAX * 500500 && hi * (den + wt) <= 2 * PRICE_MAX
                * 500500) by (nonlinear_arith)
                requires -2 * PRICE_MAX <= lo <= hi <= 2 * PRICE_MAX, 0 <= den + wt <= 500500;
        }
        num = num + v * wt;
        den = den + wt;
        t = t + 1;
    }
    proof {
        lemma_div_between(lo, hi, num as int, den as int);
    }
    div_floor(num, den)
}

/// Simple moving average of the `n` values of `w` ending at `end`
/// (exclusive), with ghost bounds as in `wma_window`.
pub fn sma_window(w: &Vec<i64>, end: usize, n: usize, Ghost(lo): Ghost<int>, Ghost(hi): Ghost<int>) -> (r: i64)
    requires
        1 <= n <= end <= w.len(),
        n <= PERIOD_MAX,
        -2 * PRICE_MAX <= lo <= hi <= 2 * PRICE_MAX,
        forall|j: int| end - n <= j < end ==> lo <= #[trigger] w[j] <= hi,
    ensures
        r == sma_at(w@, end as int, n as nat),
        lo <= r <= hi,
{
    let mut num: i64 = 0;
    let mut t: usize = 0;
    while t < n
        invariant
            0 <= t <= n,
            1 <= n <= end <= w.len(),
            n <= PERIOD_MAX,
            -2 * PRICE_MAX <= lo <= hi <= 2 * PRICE_MAX,
            forall|j: int| end - n <= j < end ==> lo <= #[trigger] w[j] <= hi,
            num == ssum(w@, (end - n + t) as int, t as nat),
            lo * t <= num <= hi * t,
            -2 * PRICE_MAX * 1000 <= num <= 2 * PRICE_MAX * 1000,
        decreases n - t,
    {
        let v: i64 = w[end - n + t];
        proof {
            assert(lo * (t + 1) == lo * t + lo && hi * (t + 1) == hi * t + hi) by (nonlinear_arith);
            assert(lo * (t + 1) >= -2 * PRICE_MAX * 1000 && hi * (t + 1) <= 2 * PRICE_MAX * 1000)
                by (nonlinear_arith)
                requires -2 * PRICE_MAX <= lo <= hi <= 2 * PRICE_MAX, 0 <= t + 1 <= 1000;
        }
        num = num + v;
        t = t + 1;
    }
    proof {
        lemma_div_between(lo, hi, num as int, n as int);
    }
    div_floor(num, n as i64)
}

/// One exponential-average step, with ghost bounds carried to the result.
pub fn ema_step(prev: i64, price: i64, n: usize, Ghost(lo): Ghost<int>, Ghost(hi): Ghost<int>) -> (r: i64)
    requires
        1 <= n <= PERIOD_MAX,
        -2 * PRICE_MAX <= lo <= hi <= 2 * PRICE_MAX,
        lo <= prev <= hi,
        lo <= price <= hi,
    ensures
        r == ema_step_spec(prev as int, price as int, n as nat),
        lo <= r <= hi,
{
    proof {
        assert((n - 1) as int * prev <= 1000 * (2 * PRICE_MAX) && (n - 1) as int * prev >= 1000 * (
        -2 * PRICE_MAX)) by (nonlinear_arith)
            requires 0 <= (n - 1) as int <= 999, -2 * PRICE_MAX <= prev <= 2 * PRICE_MAX;
        assert(lo * (n + 1) <= 2 * price + (n - 1) * prev <= hi * (n + 1)) by (nonlinear_arith)
            requires lo <= prev <= hi, lo <= price <= hi, n >= 1;
        lemma_div_between(lo, hi, 2 * price + (n - 1) as int * prev, (n + 1) as int);
    }
    let num: i64 = 2 * price + ((n - 1) as i64) * prev;
    div_floor(num, (n + 1) as i64)
}

/// Exponential moving average over all of `w`, seeded at its first value,
/// with ghost bounds as in `wma_window`.
pub fn ema_slice(w: &Vec<i64>, n: usize, Ghost(lo): Ghost<int>, Ghost(hi): Ghost<int>) -> (r: i64)
    requires
        w.len() >= 1,
        1 <= n <= PERIOD_MAX,
        -2 * PRICE_MAX <= lo <= hi <= 2 * PRICE_MAX,
        forall|j: int| 0 <= j < w.len() ==> lo <= #[trigger] w[j] <= hi,
    ensures
        r == ema_prefix(w@, n as nat, w.len() as nat),
        lo <= r <= hi,
{
    let mut acc: i64 = w[0];
    let mut t: usize = 1;
    while t < w.len()
        invariant
            1 <= t <= w.len(),
            1 <= n <= PERIOD_MAX,
            -2 * PRICE_MAX <= lo <= hi <= 2 * PRICE_MAX,
            forall|j: int| 0 <= j < w.len() ==> lo <= #[trigger] w[j] <= hi,
            acc == ema_prefix(w@, n as nat, t as nat),
            lo <= acc <= hi,
        decreases w.len() - t,
    {
        acc = ema_step(acc, w[t], n, Ghost(lo), Ghost(hi));
        t = t + 1;
    }
    acc
}

/// The Hull moving average of all of `w` (closes in `[0, PRICE_MAX]`).
/// Requires enough history for every raw term: `w.len() >= n + sqrt - 1`.
pub fn hma_value(w: &Vec<i64>, n: usize, half: usize, sqrt: usize) -> (r: i64)
    requires
        1 <= n <= PERIOD_MAX,
        1 <= half <= n,
        1 <= sqrt <= n,
        w.len() >= n + sqrt - 1,
        forall|j: int| 0 <= j < w.len() ==> 0 <= #[trigger] w[j] <= PRICE_MAX,
    ensures
        r == hma_spec(w@, n as nat, half as nat, sqrt as nat),
        ma_bounded(r as int),
{
    let ghost raw_seq = hull_raw_seq(w@, n as nat, half as nat, sqrt as nat);
    let mut raw: Vec<i64> = Vec::new();
    let len: usize = w.len();
    let mut t: usize = 0;
    while t < sqrt
        invariant
            0 <= t <= sqrt,
            1 <= n <= PERIOD_MAX,
            1 <= half <= n,
            1 <= sqrt <= n,
            len == w.len(),
            len >= n + sqrt - 1,
            forall|j: int| 0 <= j < w.len() ==> 0 <= #[trigger] w[j] <= PRICE_MAX,
            raw.len() == t,
            raw_seq == hull_raw_seq(w@, n as nat, half as nat, sqrt as nat),
            forall|j: int| 0 <= j < t ==> #[trigger] raw[j] == raw_seq[j],
            forall|j: int| 0 <= j < t ==> -PRICE_MAX <= #[trigger] raw[j] <= 2 * PRICE_MAX,
        decreases sqrt - t,
    {
        let end: usize = len - sqrt + 1 + t;
        let a: i64 = wma_window(w, end, half, Ghost(0int), Ghost(PRICE_MAX as int));
        let b: i64 = wma_window(w, end, n, Ghost(0int), Ghost(PRICE_MAX as int));
        let v: i64 = 2 * a - b;
        raw.push(v);
        t = t + 1;
    }
    let r: i64 = wma_window(&raw, sqrt, sqrt, Ghost(-PRICE_MAX as int), Ghost(2 * PRICE_MAX as int));
    proof {
        assert(raw@ =~= raw_seq);
    }
    r
}

/// The exponential Hull moving average of all of `w` (closes in
/// `[0, PRICE_MAX]`). Requires at least two values and a full period.
pub fn ehma_value(w: &Vec<i64>, n: usize, half: usize, sqrt: usize) -> (r: i64)
    requires
        1 <= n <= PERIOD_MAX,
        1 <= half <= PERIOD_MAX,
        1 <= sqrt <= n,
        w.len() >= n,
        w.len() >= 2,
        forall|j: int| 0 <= j < w.len() ==> 0 <= #[trigger] w[j] <= PRICE_MAX,
    ensures
        r == ehma_spec(w@, n as nat, half as nat, sqrt as nat),
        ma_bounded(r as int),
{
    let ghost raw_seq = ehull_raw_seq(w@, n as nat, half as nat);
    let mut raw: Vec<i64> = Vec::new();
    let mut vh: i64 = w[0];
    let mut vf: i64 = w[0];
    let mut i: usize = 1;
    while i < w.len()
        invariant
            1 <= i <= w.len(),
            w.len() >= 2,
            1 <= n <= PERIOD_MAX,
            1 <= half <= PERIOD_MAX,
            forall|j: int| 0 <= j < w.len() ==> 0 <= #[trigger] w[j] <= PRICE_MAX,
            vh == ema_prefix(w@, half as nat, i as nat),
            vf == ema_prefix(w@, n as nat, i as nat),
            0 <= vh <= PRICE_MAX,
            0 <= vf <= PRICE_MAX,
            raw.len() == i - 1,
            raw_seq == ehull_raw_seq(w@, n as nat, half as nat),
            forall|j: int| 0 <= j < i - 1 ==> #[trigger] raw[j] == raw_seq[j],
            forall|j: int| 0 <= j < i - 1 ==> -PRICE_MAX <= #[trigger] raw[j] <= 2 * PRICE_MAX,
        decreases w.len() - i,
    {
        vh = ema_step(vh, w[i], half, Ghost(0int), Ghost(PRICE_MAX as int));
        vf = ema_step(vf, w[i], n, Ghost(0int), Ghost(PRICE_MAX as int));
        let v: i64 = 2 * vh - vf;
        raw.push(v);
        i = i + 1;
    }
    let r: i64 = ema_slice(&raw, sqrt, Ghost(-PRICE_MAX as int), Ghost(2 * PRICE_MAX as int));
    proof {
        assert(raw@ =~= raw_seq);
        assert(raw@.len() == w@.len() - 1);
    }
    r
}

/// What one step of each moving-average kind produces, given the closes seen
/// so far (`window`, oldest first, not yet including `close`), the new close,
/// and the previous value of this same average.
pub open spec fn ma_step_spec(
    t: MaType,
    n: nat,
    half: nat,
    sqrt: nat,
    window: Seq<i64>,
    close: i64,
    prev: i64,
) -> int {
    let data = window.push(close);
    match t {
        MaType::EMA => ema_step_spec(prev as int, close as int, n),
        MaType::SMA => if data.len() < n {
            close as int
        } else {
            sma_at(data, data.len() as int, n)
        },
        MaType::WMA => if data.len() < n {
            close as int
        } else {
            wma_at(data, data.len() as int, n)
        },
        MaType::HMA => if data.len() < n + sqrt - 1 {
            close as int
        } else {
            hma_spec(data, n, half, sqrt)
        },
        MaType::EHMA => if data.len() < n || data.len() < 2 {
            close as int
        } else {
            ehma_spec(data, n, half, sqrt)
        },
    }
}

/// Advance one moving average by one closed candle.
///
/// `window` holds the closes seen before this candle (oldest first), `close`
/// is the new close, and `prev` the average's previous value. Sub-period
/// windows fall back to the current close.
pub fn ma_step(
    t: MaType,
    n: usize,
    half: usize,
    sqrt: usize,
    window: &Vec<i64>,
    close: i64,
    prev: i64,
) -> (r: i64)
    requires
        1 <= n <= PERIOD_MAX,
        1 <= half <= n,
        1 <= sqrt <= n,
        is_isqrt(n as int, sqrt as int),
        half == if n / 2 >= 1 { n / 2 } else { 1usize },
        window.len() <= 2 * PERIOD_MAX,
        forall|j: int| 0 <= j < window.len() ==> 0 <= #[trigger] window[j] <= PRICE_MAX,
        0 <= close <= PRICE_MAX,
        ma_bounded(prev as int),
    ensures
        r == ma_step_spec(t, n as nat, half as nat, sqrt as nat, window@, close, prev),
        ma_bounded(r as int),
{
    match t {
        MaType::EMA => ema_step(prev, close, n, Ghost(-PRICE_MAX as int), Ghost(2 * PRICE_MAX as int)),
        MaType::SMA => {
            if window.len() + 1 < n {
                close
            } else {
                let mut data: Vec<i64> = clone_closes(window);
                data.push(close);
                sma_window(&data, data.len(), n, Ghost(0int), Ghost(PRICE_MAX as int))
            }
        },
        MaType::WMA => {
            if window.len() + 1 < n {
                close
            } else {
                let mut data: Vec<i64> = clone_closes(window);
                data.push(close);
                wma_window(&data, data.len(), n, Ghost(0int), Ghost(PRICE_MAX as int))
            }
        },
        MaType::HMA => {
            if window.len() + 1 < n + sqrt - 1 {
                close
            } else {
                let mut data: Vec<i64> = clone_closes(window);
                data.push(close);
                hma_value(&data, n, half, sqrt)
            }
        },
        MaType::EHMA => {
            if window.len() + 1 < n || window.len() + 1 < 2 {
                close
            } else {
                let mut data: Vec<i64> = clone_closes(window);
                data.push(close);
                ehma_value(&data, n, half, sqrt)
            }
        },
    }
}

/// An element-for-element copy of a vector of closes.
fn clone_closes(w: &Vec<i64>) -> (r: Vec<i64>)
    ensures
        r@ == w@,
{
    let mut r: Vec<i64> = Vec::new();
    let mut i: usize = 0;
    while i < w.len()
        invariant
            0 <= i <= w.len(),
            r@ == w@.take(i as int),
        decreases w.len() - i,
    {
        r.push(w[i]);
        i = i + 1;
    }
    proof {
        assert(w@.take(w.len() as int) =~= w@);
    }
    r
}

} // verus!
