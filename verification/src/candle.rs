//! One-minute OHLC candles over scaled-integer prices, their colors, and
//! their body/wick geometry.

use vstd::prelude::*;

verus! {

use crate::PRICE_MAX;

/// A closed (or forming) candle. `time` is the candle's open time in seconds
/// since the epoch; prices are scaled integers.
#[derive(Clone, Copy, Debug, PartialEq, Eq, Structural)]
pub struct Candle {
    pub time: u64,
    pub open: i64,
    pub high: i64,
    pub low: i64,
    pub close: i64,
}

impl Candle {
    /// The OHLC invariant: the wicks enclose the body and prices are in range.
    pub open spec fn well_formed(self) -> bool {
        &&& 0 <= self.low
        &&& self.low <= self.open <= self.high
        &&& self.low <= self.close <= self.high
        &&& self.high <= PRICE_MAX
    }
}

/// The color of a candle: rising, falling, or unchanged.
#[derive(Clone, Copy, Debug, PartialEq, Eq, Structural)]
pub enum Color {
    Green,
    Red,
    Equal,
}

impl Color {
    /// The color's conventional display name.
    pub fn as_str(&self) -> (r: &'static str)
        ensures
            *self is Green ==> r@ == "Green"@,
            *self is Red ==> r@ == "Red"@,
            *self is Equal ==> r@ == "Equal"@,
    {
        match self {
            Color::Green => "Green",
            Color::Red => "Red",
            Color::Equal => "Equal",
        }
    }
}

pub open spec fn color_of(open: int, close: int) -> Color {
    if close > open {
        Color::Green
    } else if close < open {
        Color::Red
    } else {
        Color::Equal
    }
}

/// Classify a candle by comparing its close to its open.
pub fn get_color(open: i64, close: i64) -> (r: Color)
    ensures
        r == color_of(open as int, close as int),
{
    if close > open {
        Color::Green
    } else if close < open {
        Color::Red
    } else {
        Color::Equal
    }
}

pub open spec fn body_top_of(c: Candle) -> int {
    if c.open >= c.close {
        c.open as int
    } else {
        c.close as int
    }
}

pub open spec fn body_bottom_of(c: Candle) -> int {
    if c.open <= c.close {
        c.open as int
    } else {
        c.close as int
    }
}

pub open spec fn body_of(c: Candle) -> int {
    body_top_of(c) - body_bottom_of(c)
}

pub open spec fn upper_wick_of(c: Candle) -> int {
    c.high - body_top_of(c)
}

pub open spec fn lower_wick_of(c: Candle) -> int {
    body_bottom_of(c) - c.low
}

/// A part of the candle's full height, as a whole-number percentage
/// (rounded down); zero when the candle has no height.
pub open spec fn percent_of(part: int, c: Candle) -> int {
    if c.high == c.low {
        0
    } else {
        part * 100 / (c.high - c.low)
    }
}

/// The body and wick heights of a candle. Their sum is exactly the candle's
/// full height.
pub fn geometry(c: &Candle) -> (r: (i64, i64, i64))
    requires
        c.well_formed(),
    ensures
        r.0 == body_of(*c),
        r.1 == upper_wick_of(*c),
        r.2 == lower_wick_of(*c),
        r.0 + r.1 + r.2 == c.high - c.low,
{
    let body_top: i64 = if c.open >= c.close {
        c.open
    } else {
        c.close
    };
    let body_bottom: i64 = if c.open <= c.close {
        c.open
    } else {
        c.close
    };
    (body_top - body_bottom, c.high - body_top, body_bottom - c.low)
}

/// The body and wick heights as percentages of the candle's full height.
/// All three are zero for a candle with `high == low`.
pub fn geometry_percents(c: &Candle) -> (r: (i64, i64, i64))
    requires
        c.well_formed(),
    ensures
        r.0 == percent_of(body_of(*c), *c),
        r.1 == percent_of(upper_wick_of(*c), *c),
        r.2 == percent_of(lower_wick_of(*c), *c),
        0 <= r.0 + r.1 + r.2 <= 100,
        c.high == c.low ==> r.0 == 0 && r.1 == 0 && r.2 == 0,
{
    if c.high == c.low {
        (0, 0, 0)
    } else {
        let (body, u_wick, l_wick) = geometry(c);
        let range: i64 = c.high - c.low;
        let bp: i64 = body * 100 / range;
        let up: i64 = u_wick * 100 / range;
        let lp: i64 = l_wick * 100 / range;
        proof {
            lemma_percent_sum(*c);
        }
        (bp, up, lp)
    }
}

/// The body and the two wicks partition the candle's height exactly:
/// `body + upper wick + lower wick == high - low`.
pub proof fn lemma_candle_parts(c: Candle)
    requires
        c.well_formed(),
    ensures
        body_of(c) + upper_wick_of(c) + lower_wick_of(c) == c.high - c.low,
{
}

proof fn lemma_div_sum_le(x: int, y: int, d: int)
    requires
        d > 0,
        x >= 0,
        y >= 0,
    ensures
        x / d + y / d <= (x + y) / d,
{
    vstd::arithmetic::div_mod::lemma_fundamental_div_mod(x, d);
    vstd::arithmetic::div_mod::lemma_fundamental_div_mod(y, d);
    let qx = x / d;
    let rx = x % d;
    let qy = y / d;
    let ry = y % d;
    vstd::arithmetic::div_mod::lemma_div_pos_is_pos(x, d);
    vstd::arithmetic::div_mod::lemma_div_pos_is_pos(y, d);
    if rx + ry < d {
        assert(x + y == (qx + qy) * d + (rx + ry)) by (nonlinear_arith)
            requires x == d * qx + rx, y == d * qy + ry;
        vstd::arithmetic::div_mod::lemma_fundamental_div_mod_converse(x + y, d, qx + qy, rx + ry);
    } else {
        assert(x + y == (qx + qy + 1) * d + (rx + ry - d)) by (nonlinear_arith)
            requires x == d * qx + rx, y == d * qy + ry;
        vstd::arithmetic::div_mod::lemma_fundamental_div_mod_converse(
            x + y, d, qx + qy + 1, rx + ry - d);
    }
}

/// The three percentage fields of a candle with positive height are
/// nonnegative and sum to at most one hundred.
pub proof fn lemma_percent_sum(c: Candle)
    requires
        c.well_formed(),
        c.high > c.low,
    ensures
        0 <= percent_of(body_of(c), c),
        0 <= percent_of(upper_wick_of(c), c),
        0 <= percent_of(lower_wick_of(c), c),
        percent_of(body_of(c), c) + percent_of(upper_wick_of(c), c) + percent_of(
            lower_wick_of(c),
            c,
        ) <= 100,
{
    let d = c.high - c.low;
    let b = body_of(c) * 100;
    let u = upper_wick_of(c) * 100;
    let l = lower_wick_of(c) * 100;
    vstd::arithmetic::div_mod::lemma_div_pos_is_pos(b, d);
    vstd::arithmetic::div_mod::lemma_div_pos_is_pos(u, d);
    vstd::arithmetic::div_mod::lemma_div_pos_is_pos(l, d);
    lemma_div_sum_le(b, u, d);
    lemma_div_sum_le(b + u, l, d);
    assert(b + u + l == 100 * d);
    assert((100 * d) / d == 100) by {
        vstd::arithmetic::div_mod::lemma_fundamental_div_mod_converse(100 * d, d, 100, 0);
    }
}

/// The true range of a candle given the previous close, per Wilder: the
/// greatest of the candle's height and the gaps from the previous close.
pub open spec fn true_range_of(c: Candle, prev_close: Option<int>) -> int {
    match prev_close {
        Option::None => c.high - c.low,
        Option::Some(pc) => {
            let hl = c.high - c.low;
            let hc = if c.high >= pc {
                c.high - pc
            } else {
                pc - c.high
            };
            let lc = if c.low >= pc {
                c.low - pc
            } else {
                pc - c.low
            };
            if hl >= hc && hl >= lc {
                hl
            } else if hc >= lc {
                hc
            } else {
                lc
            }
        },
    }
}

/// Compute the true range of `c` against the previous candle, if any.
pub fn true_range(c: &Candle, prev: Option<&Candle>) -> (r: i64)
    requires
        c.well_formed(),
        prev is Some ==> prev.unwrap().well_formed(),
    ensures
        r == true_range_of(
            *c,
            match prev {
                Option::None => Option::<int>::None,
                Option::Some(p) => Option::Some(p.close as int),
            },
        ),
        0 <= r <= PRICE_MAX,
{
    match prev {
        Option::None => c.high - c.low,
        Option::Some(p) => {
            let hl: i64 = c.high - c.low;
            let hc: i64 = if c.high >= p.close {
                c.high - p.close
            } else {
                p.close - c.high
            };
            let lc: i64 = if c.low >= p.close {
                c.low - p.close
            } else {
                p.close - c.low
            };
            if hl >= hc && hl >= lc {
                hl
            } else if hc >= lc {
                hc
            } else {
                lc
            }
        },
    }
}

} // verus!
