//! The per-candle analysis record and the small classifiers that fill its
//! discrete fields: directions, turns, convergence classes, cut positions,
//! and abnormality flags.

use vstd::prelude::*;

verus! {

use crate::candle::{Candle, Color, body_top_of, body_bottom_of};
use crate::codebook::{AboveLong, ConvClass, Direction, StatusKey, desc_seq, render_status_desc};
use crate::indicators::BbPosition;
use crate::PRICE_MAX;

/// A turn of the short moving average: its first difference flips sign
/// between two consecutive steps.
#[derive(Clone, Copy, Debug, PartialEq, Eq, Structural)]
pub enum TurnType {
    TurnUp,
    TurnDown,
    NoTurn,
}

impl TurnType {
    /// The turn's conventional display name; no turn displays as a dash.
    pub fn as_str(&self) -> (r: &'static str)
        ensures
            *self is TurnUp ==> r@ == "TurnUp"@,
            *self is TurnDown ==> r@ == "TurnDown"@,
            *self is NoTurn ==> r@ == "-"@,
    {
        match self {
            TurnType::TurnUp => "TurnUp",
            TurnType::TurnDown => "TurnDown",
            TurnType::NoTurn => "-",
        }
    }
}

/// Which of the short and medium moving averages lies above the other.
#[derive(Clone, Copy, Debug, PartialEq, Eq, Structural)]
pub enum EmaAbove {
    ShortAbove,
    MediumAbove,
}

/// How the separation between two averages moved since the last step.
#[derive(Clone, Copy, Debug, PartialEq, Eq, Structural)]
pub enum ConvergenceType {
    Divergence,
    Convergence,
    Neutral,
}

/// Where the short moving average sits relative to the candle's geometry:
/// above the high, in the upper wick, in the body (upper, middle or lower
/// third), in the lower wick, or below the low.
#[derive(Clone, Copy, Debug, PartialEq, Eq, Structural)]
pub enum CutPosition {
    AboveHigh,
    UpperWick,
    B1,
    B2,
    B3,
    LowerWick,
    BelowLow,
}

impl CutPosition {
    /// The position's conventional display name.
    pub fn as_str(&self) -> (r: &'static str)
        ensures
            *self is AboveHigh ==> r@ == "1"@,
            *self is UpperWick ==> r@ == "2"@,
            *self is B1 ==> r@ == "B1"@,
            *self is B2 ==> r@ == "B2"@,
            *self is B3 ==> r@ == "B3"@,
            *self is LowerWick ==> r@ == "3"@,
            *self is BelowLow ==> r@ == "4"@,
    {
        match self {
            CutPosition::AboveHigh => "1",
            CutPosition::UpperWick => "2",
            CutPosition::B1 => "B1",
            CutPosition::B2 => "B2",
            CutPosition::B3 => "B3",
            CutPosition::LowerWick => "3",
            CutPosition::BelowLow => "4",
        }
    }
}

/// A crossing of the medium moving average over or under the long one.
#[derive(Clone, Copy, Debug, PartialEq, Eq, Structural)]
pub enum Trend {
    UpTrend,
    DownTrend,
}

/// The three Bollinger band values, absent until the window is full.
#[derive(Clone, Copy, Debug, PartialEq, Eq, Structural)]
pub struct BBValues {
    pub upper: Option<i64>,
    pub middle: Option<i64>,
    pub lower: Option<i64>,
}

/// Everything the generator derives from one closed candle.
#[derive(Clone, Copy, Debug, PartialEq, Eq, Structural)]
pub struct AnalysisResult {
    pub index: usize,
    pub candletime: u64,
    pub open: i64,
    pub high: i64,
    pub low: i64,
    pub close: i64,
    pub color: Color,
    /// The color of the following candle, patched into the series entry when
    /// that candle closes; the freshly returned record has it absent.
    pub next_color: Option<Color>,
    pub pip_size: i64,
    pub ema_short_value: i64,
    pub ema_short_direction: Direction,
    pub ema_short_turn_type: TurnType,
    pub ema_medium_value: i64,
    pub ema_medium_direction: Direction,
    pub ema_long_value: i64,
    pub ema_long_direction: Direction,
    pub ema_above: EmaAbove,
    pub ema_long_above: AboveLong,
    pub macd_12: i64,
    pub macd_23: i64,
    pub previous_ema_short_value: Option<i64>,
    pub previous_ema_medium_value: Option<i64>,
    pub previous_ema_long_value: Option<i64>,
    pub previous_macd_12: Option<i64>,
    pub previous_macd_23: Option<i64>,
    pub ema_convergence_type: ConvergenceType,
    pub ema_long_convergence_type: ConvClass,
    pub choppy_indicator: Option<i64>,
    pub adx_value: Option<i64>,
    pub rsi_value: Option<i64>,
    pub bb_values: BBValues,
    pub bb_position: BbPosition,
    pub atr: i64,
    pub is_abnormal_candle: bool,
    pub is_abnormal_atr: bool,
    pub u_wick: i64,
    pub u_wick_percent: i64,
    pub body: i64,
    pub body_percent: i64,
    pub l_wick: i64,
    pub l_wick_percent: i64,
    pub ema_cut_position: CutPosition,
    pub ema_cut_long_type: Option<Trend>,
    pub candles_since_ema_cut: Option<usize>,
    pub up_con_medium_ema: usize,
    pub down_con_medium_ema: usize,
    pub up_con_long_ema: usize,
    pub down_con_long_ema: usize,
    /// The five-field status descriptor of this candle.
    pub status_key: StatusKey,
    /// The descriptor's code in the trading codebook, when it has one.
    pub status_code: Option<u32>,
}

impl AnalysisResult {
    /// The dash-joined display form of the status descriptor.
    pub fn status_desc(&self) -> (r: String)
        ensures
            r@ == desc_seq(self.status_key),
    {
        render_status_desc(&self.status_key)
    }
}

/// The direction of a moving average between two steps: flat within the
/// threshold, otherwise up or down by comparison.
pub open spec fn dir_of(prev: int, curr: int, flat_threshold: int) -> Direction {
    let diff = if prev >= curr {
        prev - curr
    } else {
        curr - prev
    };
    if diff <= flat_threshold {
        Direction::Flat
    } else if prev < curr {
        Direction::Up
    } else {
        Direction::Down
    }
}

/// Classify the direction of a moving average between two steps.
pub fn direction_of(prev: i64, curr: i64, flat_threshold: i64) -> (r: Direction)
    requires
        -2 * PRICE_MAX <= prev <= 2 * PRICE_MAX,
        -2 * PRICE_MAX <= curr <= 2 * PRICE_MAX,
        0 <= flat_threshold,
    ensures
        r == dir_of(prev as int, curr as int, flat_threshold as int),
{
    let diff: i64 = if prev >= curr {
        prev - curr
    } else {
        curr - prev
    };
    if diff <= flat_threshold {
        Direction::Flat
    } else if prev < curr {
        Direction::Up
    } else {
        Direction::Down
    }
}

/// The sign-with-hysteresis of one first difference.
pub open spec fn diff_dir_of(diff: int, threshold: int) -> Direction {
    if diff > threshold {
        Direction::Up
    } else if diff < -threshold {
        Direction::Down
    } else {
        Direction::Flat
    }
}

/// The turn type of the short moving average, from its two most recent first
/// differences: a turn is a sign flip, judged with hysteresis.
pub open spec fn turn_of(prev_diff: int, curr_diff: int, threshold: int) -> TurnType {
    let prev_dir = diff_dir_of(prev_diff, threshold);
    let curr_dir = diff_dir_of(curr_diff, threshold);
    if curr_dir is Up && prev_dir is Down {
        TurnType::TurnUp
    } else if curr_dir is Down && prev_dir is Up {
        TurnType::TurnDown
    } else {
        TurnType::NoTurn
    }
}

/// Classify a turn from two consecutive first differences.
pub fn turn_type_of(prev_diff: i64, curr_diff: i64, threshold: i64) -> (r: TurnType)
    requires
        0 <= threshold <= PRICE_MAX,
        -4 * PRICE_MAX <= prev_diff <= 4 * PRICE_MAX,
        -4 * PRICE_MAX <= curr_diff <= 4 * PRICE_MAX,
    ensures
        r == turn_of(prev_diff as int, curr_diff as int, threshold as int),
{
    let prev_up: bool = prev_diff > threshold;
    let prev_down: bool = prev_diff < -threshold;
    let curr_up: bool = curr_diff > threshold;
    let curr_down: bool = curr_diff < -threshold;
    if curr_up && prev_down {
        TurnType::TurnUp
    } else if curr_down && prev_up {
        TurnType::TurnDown
    } else {
        TurnType::NoTurn
    }
}

/// How a separation moved against its previous value: wider is divergence,
/// narrower is convergence, anything else is neutral.
pub open spec fn conv_of(prev_macd: Option<i64>, macd: int) -> ConvergenceType {
    match prev_macd {
        Option::Some(prev) => {
            if macd > prev {
                ConvergenceType::Divergence
            } else if macd < prev {
                ConvergenceType::Convergence
            } else {
                ConvergenceType::Neutral
            }
        },
        Option::None => ConvergenceType::Neutral,
    }
}

/// Classify the short-medium separation against its previous value.
pub fn convergence_of(prev_macd: Option<i64>, macd: i64) -> (r: ConvergenceType)
    ensures
        r == conv_of(prev_macd, macd as int),
{
    match prev_macd {
        Option::Some(prev) => {
            if macd > prev {
                ConvergenceType::Divergence
            } else if macd < prev {
                ConvergenceType::Convergence
            } else {
                ConvergenceType::Neutral
            }
        },
        Option::None => ConvergenceType::Neutral,
    }
}

/// The convergence class of the medium-long separation, as a codebook field.
pub open spec fn conv_class_of(prev_macd: Option<i64>, macd: int) -> ConvClass {
    match prev_macd {
        Option::Some(prev) => {
            if macd > prev {
                ConvClass::D
            } else if macd < prev {
                ConvClass::C
            } else {
                ConvClass::N
            }
        },
        Option::None => ConvClass::N,
    }
}

/// Classify the medium-long separation against its previous value.
pub fn conv_class(prev_macd: Option<i64>, macd: i64) -> (r: ConvClass)
    ensures
        r == conv_class_of(prev_macd, macd as int),
{
    match prev_macd {
        Option::Some(prev) => {
            if macd > prev {
                ConvClass::D
            } else if macd < prev {
                ConvClass::C
            } else {
                ConvClass::N
            }
        },
        Option::None => ConvClass::N,
    }
}

/// Where a moving-average value sits against a candle: above the high, in
/// the upper wick, in one of three body thirds (middle for a flat body), in
/// the lower wick, or below the low.
pub open spec fn cut_position_of(c: Candle, ma: int) -> CutPosition {
    let top = body_top_of(c);
    let bottom = body_bottom_of(c);
    if ma > c.high {
        CutPosition::AboveHigh
    } else if ma >= top {
        CutPosition::UpperWick
    } else if ma >= bottom {
        let range = top - bottom;
        if range > 0 {
            let ratio = (ma - bottom) * 100 / range;
            if ratio >= 66 {
                CutPosition::B1
            } else if ratio >= 33 {
                CutPosition::B2
            } else {
                CutPosition::B3
            }
        } else {
            CutPosition::B2
        }
    } else if ma >= c.low {
        CutPosition::LowerWick
    } else {
        CutPosition::BelowLow
    }
}

/// Classify a moving-average value against a candle's geometry.
pub fn cut_position(c: &Candle, ma: i64) -> (r: CutPosition)
    requires
        c.well_formed(),
        -2 * PRICE_MAX <= ma <= 2 * PRICE_MAX,
    ensures
        r == cut_position_of(*c, ma as int),
{
    let top: i64 = if c.open >= c.close {
        c.open
    } else {
        c.close
    };
    let bottom: i64 = if c.open <= c.close {
        c.open
    } else {
        c.close
    };
    if ma > c.high {
        CutPosition::AboveHigh
    } else if ma >= top {
        CutPosition::UpperWick
    } else if ma >= bottom {
        let range: i64 = top - bottom;
        if range > 0 {
            proof {
                vstd::arithmetic::div_mod::lemma_div_pos_is_pos((ma - bottom) * 100, range as int);
                assert((ma - bottom) * 100 >= 0) by (nonlinear_arith)
                    requires ma >= bottom;
                assert((ma - bottom) * 100 <= PRICE_MAX * 100) by (nonlinear_arith)
                    requires ma - bottom <= PRICE_MAX;
            }
            let ratio: i64 = (ma - bottom) * 100 / range;
            if ratio >= 66 {
                CutPosition::B1
            } else if ratio >= 33 {
                CutPosition::B2
            } else {
                CutPosition::B3
            }
        } else {
            CutPosition::B2
        }
    } else if ma >= c.low {
        CutPosition::LowerWick
    } else {
        CutPosition::BelowLow
    }
}

/// A candle is abnormal when its true range exceeds the smoothed range by
/// the configured multiplier (a percentage).
pub open spec fn abnormal_candle_of(tr: int, atr: int, mult_pct: int) -> bool {
    tr * 100 > atr * mult_pct
}

/// The body or the full height is abnormal against the smoothed range: the
/// body beyond the multiplier, or the full height beyond one and a half
/// times the multiplier.
pub open spec fn abnormal_atr_of(body: int, full: int, atr: int, mult_pct: int) -> bool {
    atr > 0 && (body * 100 > atr * mult_pct || full * 200 > atr * mult_pct * 3)
}

/// Evaluate the abnormal-candle flag.
pub fn abnormal_candle(tr: i64, atr: i64, mult_pct: i64) -> (r: bool)
    requires
        0 <= tr <= PRICE_MAX,
        0 <= atr <= PRICE_MAX,
        0 <= mult_pct <= 100_000,
    ensures
        r == abnormal_candle_of(tr as int, atr as int, mult_pct as int),
{
    proof {
        assert(atr * mult_pct <= PRICE_MAX * 100_000 && atr * mult_pct >= 0) by (nonlinear_arith)
            requires 0 <= atr <= PRICE_MAX, 0 <= mult_pct <= 100_000;
    }
    tr * 100 > atr * mult_pct
}

/// Evaluate the abnormal-range flag.
pub fn abnormal_atr(body: i64, full: i64, atr: i64, mult_pct: i64) -> (r: bool)
    requires
        0 <= body <= PRICE_MAX,
        0 <= full <= PRICE_MAX,
        0 <= atr <= PRICE_MAX,
        0 <= mult_pct <= 100_000,
    ensures
        r == abnormal_atr_of(body as int, full as int, atr as int, mult_pct as int),
{
    proof {
        assert(0 <= atr * mult_pct <= PRICE_MAX * 100_000) by (nonlinear_arith)
            requires 0 <= atr <= PRICE_MAX, 0 <= mult_pct <= 100_000;
    }
    atr > 0 && (body * 100 > atr * mult_pct || full * 200 > atr * mult_pct * 3)
}

/// The crossing of the medium average over the long one between two steps.
pub open spec fn cut_long_of(prev_m: int, prev_l: int, m: int, l: int) -> Option<Trend> {
    let prev_above = prev_m > prev_l;
    let curr_above = m > l;
    if curr_above != prev_above {
        if curr_above {
            Option::Some(Trend::UpTrend)
        } else {
            Option::Some(Trend::DownTrend)
        }
    } else {
        Option::None
    }
}

/// Detect a crossing of the medium average over or under the long one.
pub fn cut_long(prev_m: i64, prev_l: i64, m: i64, l: i64) -> (r: Option<Trend>)
    ensures
        r == cut_long_of(prev_m as int, prev_l as int, m as int, l as int),
{
    let prev_above: bool = prev_m > prev_l;
    let curr_above: bool = m > l;
    if curr_above != prev_above {
        if curr_above {
            Option::Some(Trend::UpTrend)
        } else {
            Option::Some(Trend::DownTrend)
        }
    } else {
        Option::None
    }
}

/// A consecutive-direction counter after one step: it grows (saturating) on
/// its own direction, resets on the opposite one, and keeps its value on a
/// flat step.
pub open spec fn con_next(count: nat, dir: Direction, up: bool) -> nat {
    match dir {
        Direction::Up => if up {
            if count < usize::MAX {
                count + 1
            } else {
                count
            }
        } else {
            0
        },
        Direction::Down => if up {
            0
        } else {
            if count < usize::MAX {
                count + 1
            } else {
                count
            }
        },
        Direction::Flat => count,
    }
}

/// Advance a consecutive-direction counter (`up` selects which direction it
/// counts).
pub fn con_step(count: usize, dir: Direction, up: bool) -> (r: usize)
    ensures
        r == con_next(count as nat, dir, up),
{
    match dir {
        Direction::Up => if up {
            if count < usize::MAX {
                count + 1
            } else {
                count
            }
        } else {
            0
        },
        Direction::Down => if up {
            0
        } else {
            if count < usize::MAX {
                count + 1
            } else {
                count
            }
        },
        Direction::Flat => count,
    }
}

} // verus!
