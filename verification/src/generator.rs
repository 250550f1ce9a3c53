//! The per-symbol incremental analysis generator: a streaming state machine
//! that turns each closed candle into one analysis record and advances its
//! own smoothed accumulators and rolling windows.
//!
//! Every field of the record and of the post-state is pinned by the spec
//! functions below as a function of the prior state and the new candle
//! alone, so replaying the same candle sequence through a fresh generator
//! reproduces the same series.

use vstd::prelude::*;

verus! {

use crate::candle::{Candle, Color, color_of, get_color, geometry, geometry_percents, true_range,
    true_range_of, body_of, upper_wick_of, lower_wick_of, percent_of};
use crate::codebook::{AboveLong, Direction, StatusKey, status_code, status_code_of};
use crate::analysis::{AnalysisResult, BBValues, ConvergenceType, CutPosition, EmaAbove, Trend,
    TurnType, abnormal_atr, abnormal_atr_of, abnormal_candle, abnormal_candle_of, con_next,
    con_step, conv_class, conv_class_of, conv_of, convergence_of, cut_long, cut_long_of,
    cut_position, cut_position_of, dir_of, direction_of, turn_of, turn_type_of};
use crate::indicators::{AdxState, BbPosition, adx_step, adx_step_spec, atr_step, atr_step_spec,
    bb_of, bb_position_of, bb_position_spec, bb_spec, ci_of, ci_spec, directional_moves, dm_spec,
    rsi_step, rsi_step_spec, window_high_spec, window_low_spec, window_sum_spec};
use crate::ma::{MaType, ma_bounded, ma_step, ma_step_spec};
use crate::num::{is_isqrt, isqrt_u128};
use crate::{PERIOD_MAX, PRICE_MAX};

/// The immutable configuration of one generator. Prices and thresholds are
/// scaled integers; the range multiplier is a percentage (200 doubles).
#[derive(Clone, Copy, Debug, PartialEq, Eq, Structural)]
pub struct AnalysisOptions {
    pub ema1_period: usize,
    pub ema1_type: MaType,
    pub ema2_period: usize,
    pub ema2_type: MaType,
    pub ema3_period: usize,
    pub ema3_type: MaType,
    pub atr_period: usize,
    pub atr_multiplier_pct: i64,
    pub bb_period: usize,
    pub ci_period: usize,
    pub adx_period: usize,
    pub rsi_period: usize,
    /// A step of a moving average no larger than this counts as flat.
    pub flat_threshold: i64,
    /// Hysteresis of the short average's turn detection.
    pub turn_threshold: i64,
    /// The narrow-separation tolerance; carried with the configuration,
    /// while the convergence classes compare separations directly.
    pub macd_narrow: i64,
}

impl AnalysisOptions {
    /// What a generator accepts: every period positive and within bounds,
    /// every tolerance nonnegative and within bounds.
    pub open spec fn valid(self) -> bool {
        &&& 1 <= self.ema1_period <= PERIOD_MAX
        &&& 1 <= self.ema2_period <= PERIOD_MAX
        &&& 1 <= self.ema3_period <= PERIOD_MAX
        &&& 1 <= self.atr_period <= PERIOD_MAX
        &&& 1 <= self.bb_period <= PERIOD_MAX
        &&& 1 <= self.ci_period <= PERIOD_MAX
        &&& 1 <= self.adx_period <= PERIOD_MAX
        &&& 1 <= self.rsi_period <= PERIOD_MAX
        &&& 0 <= self.atr_multiplier_pct <= 100_000
        &&& 0 <= self.flat_threshold <= PRICE_MAX
        &&& 0 <= self.turn_threshold <= PRICE_MAX
        &&& 0 <= self.macd_narrow <= PRICE_MAX
    }

    /// The longest of the three moving-average periods.
    pub open spec fn max_ma_period(self) -> nat {
        let a = if self.ema1_period >= self.ema2_period {
            self.ema1_period
        } else {
            self.ema2_period
        };
        (if a >= self.ema3_period {
            a
        } else {
            self.ema3_period
        }) as nat
    }

    /// Check the options, naming what is wrong with them.
    pub fn validate(&self) -> (r: Result<(), OptionsError>)
        ensures
            r is Ok <==> self.valid(),
            r == Result::<(), OptionsError>::Err(OptionsError::InvalidPeriod) <==> !(1
                <= self.ema1_period <= PERIOD_MAX && 1 <= self.ema2_period <= PERIOD_MAX && 1
                <= self.ema3_period <= PERIOD_MAX && 1 <= self.atr_period <= PERIOD_MAX && 1
                <= self.bb_period <= PERIOD_MAX && 1 <= self.ci_period <= PERIOD_MAX && 1
                <= self.adx_period <= PERIOD_MAX && 1 <= self.rsi_period <= PERIOD_MAX),
    {
        if !(1 <= self.ema1_period && self.ema1_period <= PERIOD_MAX && 1 <= self.ema2_period
            && self.ema2_period <= PERIOD_MAX && 1 <= self.ema3_period && self.ema3_period
            <= PERIOD_MAX && 1 <= self.atr_period && self.atr_period <= PERIOD_MAX && 1
            <= self.bb_period && self.bb_period <= PERIOD_MAX && 1 <= self.ci_period
            && self.ci_period <= PERIOD_MAX && 1 <= self.adx_period && self.adx_period
            <= PERIOD_MAX && 1 <= self.rsi_period && self.rsi_period <= PERIOD_MAX) {
            Result::Err(OptionsError::InvalidPeriod)
        } else if !(0 <= self.atr_multiplier_pct && self.atr_multiplier_pct <= 100_000 && 0
            <= self.flat_threshold && self.flat_threshold <= PRICE_MAX && 0
            <= self.turn_threshold && self.turn_threshold <= PRICE_MAX && 0 <= self.macd_narrow
            && self.macd_narrow <= PRICE_MAX) {
            Result::Err(OptionsError::InvalidThreshold)
        } else {
            Result::Ok(())
        }
    }
}

impl Default for AnalysisOptions {
    /// The conventional configuration: three exponential averages of 20, 50
    /// and 200 candles, fourteen-candle indicators, a doubled-range
    /// abnormality multiplier, and zero tolerances (tolerances are in scaled
    /// price units, so their working values depend on the instrument scale).
    fn default() -> (r: AnalysisOptions)
        ensures
            r == (AnalysisOptions {
                ema1_period: 20usize,
                ema1_type: MaType::EMA,
                ema2_period: 50usize,
                ema2_type: MaType::EMA,
                ema3_period: 200usize,
                ema3_type: MaType::EMA,
                atr_period: 14usize,
                atr_multiplier_pct: 200i64,
                bb_period: 20usize,
                ci_period: 14usize,
                adx_period: 14usize,
                rsi_period: 14usize,
                flat_threshold: 0i64,
                turn_threshold: 0i64,
                macd_narrow: 0i64,
            }),
            r.valid(),
    {
        AnalysisOptions {
            ema1_period: 20,
            ema1_type: MaType::EMA,
            ema2_period: 50,
            ema2_type: MaType::EMA,
            ema3_period: 200,
            ema3_type: MaType::EMA,
            atr_period: 14,
            atr_multiplier_pct: 200,
            bb_period: 20,
            ci_period: 14,
            adx_period: 14,
            rsi_period: 14,
            flat_threshold: 0,
            turn_threshold: 0,
            macd_narrow: 0,
        }
    }
}

/// Why a configuration was rejected at generator construction.
#[derive(Clone, Copy, Debug, PartialEq, Eq, Structural)]
pub enum OptionsError {
    InvalidPeriod,
    InvalidThreshold,
}

/// A candle was delivered out of order: its open time does not advance past
/// the last accepted candle.
#[derive(Clone, Copy, Debug, PartialEq, Eq, Structural)]
pub struct OrderingError {
    /// The open time of the candle that was rejected.
    pub rejected_time: u64,
}

/// The half period fed to the Hull forms: half the period, at least one.
pub open spec fn half_of(n: nat) -> nat {
    if n / 2 >= 1 {
        n / 2
    } else {
        1
    }
}

/// A rolling window after one push: the new value enters at the back, and
/// the oldest value leaves once the window exceeds its capacity.
pub open spec fn window_push<T>(w: Seq<T>, v: T, cap: nat) -> Seq<T> {
    let w2 = w.push(v);
    if w2.len() > cap {
        w2.subrange(1, w2.len() as int)
    } else {
        w2
    }
}

/// The mutable accumulators and windows of one generator.
#[derive(Clone, Debug)]
pub struct GeneratorState {
    pub last_ema_1: i64,
    pub last_ema_2: i64,
    pub last_ema_3: i64,
    pub last_atr: i64,
    /// Sum of gains while warming up, Wilder average afterwards.
    pub rsi_avg_gain: i64,
    /// Sum of losses while warming up, Wilder average afterwards.
    pub rsi_avg_loss: i64,
    pub up_con_medium_ema: usize,
    pub down_con_medium_ema: usize,
    pub up_con_long_ema: usize,
    pub down_con_long_ema: usize,
    pub last_ema_cut_index: Option<usize>,
    pub prev_analysis: Option<AnalysisResult>,
    pub last_analysis: Option<AnalysisResult>,
    pub last_candle: Option<Candle>,
    pub adx: AdxState,
    pub bb_window: Vec<i64>,
    pub ci_window: Vec<Candle>,
    pub ci_atr_window: Vec<i64>,
    pub close_window: Vec<i64>,
    pub half1: usize,
    pub sqrt1: usize,
    pub half2: usize,
    pub sqrt2: usize,
    pub half3: usize,
    pub sqrt3: usize,
}

/// A per-symbol analysis generator: feed it closed candles in order and it
/// yields one analysis record per candle, keeping the whole series.
#[derive(Clone, Debug)]
pub struct AnalysisGenerator {
    pub options: AnalysisOptions,
    pub state: GeneratorState,
    pub analysis_array: Vec<AnalysisResult>,
    /// The forming candle assembled from ticks, if any.
    pub current_candle: Option<Candle>,
}

impl AnalysisGenerator {
    /// How many candles have been accepted.
    pub open spec fn idx(self) -> nat {
        self.analysis_array@.len()
    }

    /// The generator's internal consistency: valid options, derived Hull
    /// parameters, bounded accumulators in the right phase for the number of
    /// candles seen, and rolling windows of the right lengths.
    pub open spec fn inv(self) -> bool {
        let o = self.options;
        let st = self.state;
        let i = self.idx();
        &&& o.valid()
        &&& st.half1 == half_of(o.ema1_period as nat) && is_isqrt(
            o.ema1_period as int,
            st.sqrt1 as int,
        ) && 1 <= st.sqrt1 <= o.ema1_period && 1 <= st.half1 <= o.ema1_period
        &&& st.half2 == half_of(o.ema2_period as nat) && is_isqrt(
            o.ema2_period as int,
            st.sqrt2 as int,
        ) && 1 <= st.sqrt2 <= o.ema2_period && 1 <= st.half2 <= o.ema2_period
        &&& st.half3 == half_of(o.ema3_period as nat) && is_isqrt(
            o.ema3_period as int,
            st.sqrt3 as int,
        ) && 1 <= st.sqrt3 <= o.ema3_period && 1 <= st.half3 <= o.ema3_period
        &&& ma_bounded(st.last_ema_1 as int) && ma_bounded(st.last_ema_2 as int) && ma_bounded(
            st.last_ema_3 as int,
        )
        &&& 0 <= st.last_atr <= PRICE_MAX
        &&& st.rsi_avg_gain >= 0 && st.rsi_avg_loss >= 0
        &&& (i == 0 ==> st.rsi_avg_gain == 0 && st.rsi_avg_loss == 0)
        &&& (1 <= i <= o.rsi_period ==> st.rsi_avg_gain <= (i - 1) * PRICE_MAX && st.rsi_avg_loss
            <= (i - 1) * PRICE_MAX)
        &&& (i > o.rsi_period ==> st.rsi_avg_gain <= PRICE_MAX && st.rsi_avg_loss <= PRICE_MAX)
        &&& st.adx.inv(o.adx_period as nat)
        &&& (i == 0 ==> st.adx == (AdxState { tr_sum: 0, pdm_sum: 0, mdm_sum: 0, acc: 0, count: 0 }))
        &&& (1 <= i <= o.adx_period ==> st.adx.tr_sum <= (i - 1) * (PRICE_MAX + 1)
            && st.adx.pdm_sum <= (i - 1) * (PRICE_MAX + 1) && st.adx.mdm_sum <= (i - 1) * (PRICE_MAX
            + 1))
        &&& st.bb_window@.len() == (if i >= o.bb_period {
            o.bb_period as nat
        } else {
            i
        })
        &&& (forall|j: int| 0 <= j < st.bb_window@.len() ==> 0 <= #[trigger] st.bb_window@[j]
            <= PRICE_MAX)
        &&& st.ci_window@.len() == (if i >= o.ci_period {
            o.ci_period as nat
        } else {
            i
        })
        &&& st.ci_atr_window@.len() == st.ci_window@.len()
        &&& (forall|j: int| 0 <= j < st.ci_window@.len() ==> (#[trigger] st.ci_window@[j]).well_formed())
        &&& (forall|j: int| 0 <= j < st.ci_atr_window@.len() ==> 0 <= #[trigger] st.ci_atr_window@[j]
            <= PRICE_MAX)
        &&& st.close_window@.len() == (if i >= 2 * o.max_ma_period() {
            2 * o.max_ma_period()
        } else {
            i
        })
        &&& (forall|j: int| 0 <= j < st.close_window@.len() ==> 0 <= #[trigger] st.close_window@[j]
            <= PRICE_MAX)
        &&& (st.last_candle is Some <==> i >= 1)
        &&& (st.last_candle is Some ==> st.last_candle.unwrap().well_formed())
        &&& (st.last_analysis is Some <==> i >= 1)
        &&& (st.prev_analysis is Some <==> i >= 2)
        &&& (st.last_analysis is Some ==> ma_bounded(st.last_analysis.unwrap().ema_short_value as int))
        &&& (st.prev_analysis is Some ==> ma_bounded(st.prev_analysis.unwrap().ema_short_value as int))
        &&& (st.last_ema_cut_index is Some ==> st.last_ema_cut_index.unwrap() < i)
        &&& (self.current_candle is Some ==> self.current_candle.unwrap().well_formed())
    }

    /// The short moving average after accepting `c`.
    pub open spec fn step_e1(self, c: Candle) -> int {
        if self.idx() == 0 {
            c.close as int
        } else {
            ma_step_spec(
                self.options.ema1_type,
                self.options.ema1_period as nat,
                self.state.half1 as nat,
                self.state.sqrt1 as nat,
                self.state.close_window@,
                c.close,
                self.state.last_ema_1,
            )
        }
    }

    /// The medium moving average after accepting `c`.
    pub open spec fn step_e2(self, c: Candle) -> int {
        if self.idx() == 0 {
            c.close as int
        } else {
            ma_step_spec(
                self.options.ema2_type,
                self.options.ema2_period as nat,
                self.state.half2 as nat,
                self.state.sqrt2 as nat,
                self.state.close_window@,
                c.close,
                self.state.last_ema_2,
            )
        }
    }

    /// The long moving average after accepting `c`.
    pub open spec fn step_e3(self, c: Candle) -> int {
        if self.idx() == 0 {
            c.close as int
        } else {
            ma_step_spec(
                self.options.ema3_type,
                self.options.ema3_period as nat,
                self.state.half3 as nat,
                self.state.sqrt3 as nat,
                self.state.close_window@,
                c.close,
                self.state.last_ema_3,
            )
        }
    }

    pub open spec fn step_dir1(self, c: Candle) -> Direction {
        if self.idx() == 0 {
            Direction::Flat
        } else {
            dir_of(self.state.last_ema_1 as int, self.step_e1(c), self.options.flat_threshold as int)
        }
    }

    pub open spec fn step_dir2(self, c: Candle) -> Direction {
        if self.idx() == 0 {
            Direction::Flat
        } else {
            dir_of(self.state.last_ema_2 as int, self.step_e2(c), self.options.flat_threshold as int)
        }
    }

    pub open spec fn step_dir3(self, c: Candle) -> Direction {
        if self.idx() == 0 {
            Direction::Flat
        } else {
            dir_of(self.state.last_ema_3 as int, self.step_e3(c), self.options.flat_threshold as int)
        }
    }

    /// The short average's turn type: needs two prior records.
    pub open spec fn step_turn(self, c: Candle) -> TurnType {
        match self.state.prev_analysis {
            Option::Some(pa) => turn_of(
                self.state.last_ema_1 - pa.ema_short_value,
                self.step_e1(c) - self.state.last_ema_1,
                self.options.turn_threshold as int,
            ),
            Option::None => TurnType::NoTurn,
        }
    }

    /// The true range of `c` against the last accepted candle.
    pub open spec fn step_tr(self, c: Candle) -> int {
        true_range_of(
            c,
            match self.state.last_candle {
                Option::Some(lc) => Option::Some(lc.close as int),
                Option::None => Option::None,
            },
        )
    }

    /// The smoothed range after accepting `c`.
    pub open spec fn step_atr(self, c: Candle) -> int {
        atr_step_spec(
            self.state.last_atr as int,
            self.step_tr(c),
            self.idx(),
            self.options.atr_period as nat,
        )
    }

    /// The candle's gain over the previous close (meaningful from the second
    /// candle on).
    pub open spec fn step_gain(self, c: Candle) -> int {
        let pc = self.state.last_candle.unwrap().close;
        if c.close >= pc {
            c.close - pc
        } else {
            0
        }
    }

    /// The candle's loss under the previous close.
    pub open spec fn step_loss(self, c: Candle) -> int {
        let pc = self.state.last_candle.unwrap().close;
        if c.close < pc {
            pc - c.close
        } else {
            0
        }
    }

    /// The relative-strength accumulators and value after accepting `c`.
    pub open spec fn step_rsi(self, c: Candle) -> (int, int, Option<int>) {
        if self.idx() == 0 {
            (self.state.rsi_avg_gain as int, self.state.rsi_avg_loss as int, Option::None)
        } else {
            rsi_step_spec(
                self.state.rsi_avg_gain as int,
                self.state.rsi_avg_loss as int,
                self.step_gain(c),
                self.step_loss(c),
                self.idx(),
                self.options.rsi_period as nat,
            )
        }
    }

    /// The directional-movement state and index value after accepting `c`.
    pub open spec fn step_adx(self, c: Candle) -> (int, int, int, int, int, Option<int>) {
        if self.idx() == 0 {
            (
                self.state.adx.tr_sum as int,
                self.state.adx.pdm_sum as int,
                self.state.adx.mdm_sum as int,
                self.state.adx.acc as int,
                self.state.adx.count as int,
                Option::None,
            )
        } else {
            adx_step_spec(
                self.state.adx,
                dm_spec(c, self.state.last_candle.unwrap()).0,
                dm_spec(c, self.state.last_candle.unwrap()).1,
                self.step_tr(c),
                self.idx(),
                self.options.adx_period as nat,
            )
        }
    }

    /// The Bollinger window after accepting `c`.
    pub open spec fn step_bbw(self, c: Candle) -> Seq<i64> {
        window_push(self.state.bb_window@, c.close, self.options.bb_period as nat)
    }

    /// The Bollinger bands after accepting `c`, present once the window is
    /// full.
    pub open spec fn step_bb(self, c: Candle) -> BBValues {
        let w = self.step_bbw(c);
        if w.len() == self.options.bb_period as nat {
            BBValues {
                upper: Option::Some(bb_spec(w).0 as i64),
                middle: Option::Some(bb_spec(w).1 as i64),
                lower: Option::Some(bb_spec(w).2 as i64),
            }
        } else {
            BBValues { upper: Option::None, middle: Option::None, lower: Option::None }
        }
    }

    /// Where the close sits in the bands, when they are present.
    pub open spec fn step_bb_pos(self, c: Candle) -> BbPosition {
        let w = self.step_bbw(c);
        if w.len() == self.options.bb_period as nat {
            bb_position_spec(bb_spec(w).0, bb_spec(w).2, c.close as int)
        } else {
            BbPosition::Unknown
        }
    }

    /// The choppiness windows after accepting `c`.
    pub open spec fn step_ciw(self, c: Candle) -> Seq<Candle> {
        window_push(self.state.ci_window@, c, self.options.ci_period as nat)
    }

    pub open spec fn step_ci_atr_w(self, c: Candle) -> Seq<i64> {
        window_push(self.state.ci_atr_window@, (self.step_atr(c)) as i64, self.options.ci_period as nat)
    }

    /// The choppiness index after accepting `c`, present once the window is
    /// full.
    pub open spec fn step_ci(self, c: Candle) -> Option<int> {
        let w = self.step_ciw(c);
        let aw = self.step_ci_atr_w(c);
        let n = self.options.ci_period as nat;
        if w.len() == n {
            Option::Some(
                ci_spec(
                    window_sum_spec(aw, n),
                    window_high_spec(w, n) - window_low_spec(w, n),
                    n,
                ),
            )
        } else {
            Option::None
        }
    }

    /// The medium-over-long crossing detected at `c`, if any.
    pub open spec fn step_cut(self, c: Candle) -> Option<Trend> {
        if self.idx() == 0 {
            Option::None
        } else {
            cut_long_of(
                self.state.last_ema_2 as int,
                self.state.last_ema_3 as int,
                self.step_e2(c),
                self.step_e3(c),
            )
        }
    }

    /// The index of the most recent crossing, after accepting `c`.
    pub open spec fn step_cut_idx(self, c: Candle) -> Option<usize> {
        if self.step_cut(c) is Some {
            Option::Some(self.idx() as usize)
        } else {
            self.state.last_ema_cut_index
        }
    }

    /// How many candles have passed since the most recent crossing.
    pub open spec fn step_since(self, c: Candle) -> Option<usize> {
        match self.step_cut_idx(c) {
            Option::Some(idx) => Option::Some((self.idx() - idx) as usize),
            Option::None => Option::None,
        }
    }

    /// The previous record's separations, if there is one.
    pub open spec fn prev_macd_12(self) -> Option<i64> {
        match self.state.last_analysis {
            Option::Some(a) => Option::Some(a.macd_12),
            Option::None => Option::None,
        }
    }

    pub open spec fn prev_macd_23(self) -> Option<i64> {
        match self.state.last_analysis {
            Option::Some(a) => Option::Some(a.macd_23),
            Option::None => Option::None,
        }
    }

    /// The absolute separation of two averages.
    pub open spec fn abs_diff(a: int, b: int) -> int {
        if a >= b {
            a - b
        } else {
            b - a
        }
    }

    /// The status descriptor of `c`.
    pub open spec fn step_key(self, c: Candle) -> StatusKey {
        StatusKey {
            above: if self.step_e2(c) > self.step_e3(c) {
                AboveLong::MediumAbove
            } else {
                AboveLong::LongAbove
            },
            medium_dir: self.step_dir2(c),
            long_dir: self.step_dir3(c),
            color: color_of(c.open as int, c.close as int),
            conv: conv_class_of(self.prev_macd_23(), Self::abs_diff(self.step_e2(c), self.step_e3(c))),
        }
    }

    /// The whole analysis record produced by accepting `c`: every field is a
    /// function of the prior state and the candle.
    pub open spec fn step_result_spec(self, c: Candle) -> AnalysisResult {
        let e1 = self.step_e1(c);
        let e2 = self.step_e2(c);
        let e3 = self.step_e3(c);
        let macd12 = Self::abs_diff(e1, e2);
        let macd23 = Self::abs_diff(e2, e3);
        let atr = self.step_atr(c);
        AnalysisResult {
            index: self.idx() as usize,
            candletime: c.time,
            open: c.open,
            high: c.high,
            low: c.low,
            close: c.close,
            color: color_of(c.open as int, c.close as int),
            next_color: Option::None,
            pip_size: body_of(c) as i64,
            ema_short_value: e1 as i64,
            ema_short_direction: self.step_dir1(c),
            ema_short_turn_type: self.step_turn(c),
            ema_medium_value: e2 as i64,
            ema_medium_direction: self.step_dir2(c),
            ema_long_value: e3 as i64,
            ema_long_direction: self.step_dir3(c),
            ema_above: if e1 > e2 {
                EmaAbove::ShortAbove
            } else {
                EmaAbove::MediumAbove
            },
            ema_long_above: if e2 > e3 {
                AboveLong::MediumAbove
            } else {
                AboveLong::LongAbove
            },
            macd_12: macd12 as i64,
            macd_23: macd23 as i64,
            previous_ema_short_value: match self.state.last_analysis {
                Option::Some(a) => Option::Some(a.ema_short_value),
                Option::None => Option::None,
            },
            previous_ema_medium_value: match self.state.last_analysis {
                Option::Some(a) => Option::Some(a.ema_medium_value),
                Option::None => Option::None,
            },
            previous_ema_long_value: match self.state.last_analysis {
                Option::Some(a) => Option::Some(a.ema_long_value),
                Option::None => Option::None,
            },
            previous_macd_12: self.prev_macd_12(),
            previous_macd_23: self.prev_macd_23(),
            ema_convergence_type: conv_of(self.prev_macd_12(), macd12),
            ema_long_convergence_type: conv_class_of(self.prev_macd_23(), macd23),
            choppy_indicator: match self.step_ci(c) {
                Option::Some(v) => Option::Some(v as i64),
                Option::None => Option::None,
            },
            adx_value: match self.step_adx(c).5 {
                Option::Some(v) => Option::Some(v as i64),
                Option::None => Option::None,
            },
            rsi_value: match self.step_rsi(c).2 {
                Option::Some(v) => Option::Some(v as i64),
                Option::None => Option::None,
            },
            bb_values: self.step_bb(c),
            bb_position: self.step_bb_pos(c),
            atr: atr as i64,
            is_abnormal_candle: self.idx() >= 1 && abnormal_candle_of(
                self.step_tr(c),
                atr,
                self.options.atr_multiplier_pct as int,
            ),
            is_abnormal_atr: abnormal_atr_of(
                body_of(c),
                c.high - c.low,
                atr,
                self.options.atr_multiplier_pct as int,
            ),
            u_wick: upper_wick_of(c) as i64,
            u_wick_percent: percent_of(upper_wick_of(c), c) as i64,
            body: body_of(c) as i64,
            body_percent: percent_of(body_of(c), c) as i64,
            l_wick: lower_wick_of(c) as i64,
            l_wick_percent: percent_of(lower_wick_of(c), c) as i64,
            ema_cut_position: cut_position_of(c, e1),
            ema_cut_long_type: self.step_cut(c),
            candles_since_ema_cut: self.step_since(c),
            up_con_medium_ema: con_next(
                self.state.up_con_medium_ema as nat,
                self.step_dir2(c),
                true,
            ) as usize,
            down_con_medium_ema: con_next(
                self.state.down_con_medium_ema as nat,
                self.step_dir2(c),
                false,
            ) as usize,
            up_con_long_ema: con_next(self.state.up_con_long_ema as nat, self.step_dir3(c), true) as usize,
            down_con_long_ema: con_next(
                self.state.down_con_long_ema as nat,
                self.step_dir3(c),
                false,
            ) as usize,
            status_key: self.step_key(c),
            status_code: status_code_of(self.step_key(c)),
        }
    }

    /// The series after accepting `c`: the previous last record learns the
    /// new candle's color, and the new record is appended.
    pub open spec fn step_series_spec(self, c: Candle) -> Seq<AnalysisResult> {
        let a = self.analysis_array@;
        let patched = if a.len() == 0 {
            a
        } else {
            a.update(
                a.len() - 1,
                AnalysisResult {
                    next_color: Option::Some(color_of(c.open as int, c.close as int)),
                    ..a.last()
                },
            )
        };
        patched.push(self.step_result_spec(c))
    }

    /// Everything `append_candle` guarantees about the new state, beyond the
    /// returned record: each accumulator and window advances by its own step
    /// function of the prior state and the candle.
    pub open spec fn step_post(self, new: AnalysisGenerator, c: Candle) -> bool {
        let r = self.step_result_spec(c);
        &&& new.options == self.options
        &&& new.current_candle == self.current_candle
        &&& new.analysis_array@ == self.step_series_spec(c)
        &&& new.state.last_ema_1 == self.step_e1(c)
        &&& new.state.last_ema_2 == self.step_e2(c)
        &&& new.state.last_ema_3 == self.step_e3(c)
        &&& new.state.last_atr == self.step_atr(c)
        &&& new.state.rsi_avg_gain == self.step_rsi(c).0
        &&& new.state.rsi_avg_loss == self.step_rsi(c).1
        &&& new.state.adx.tr_sum == self.step_adx(c).0
        &&& new.state.adx.pdm_sum == self.step_adx(c).1
        &&& new.state.adx.mdm_sum == self.step_adx(c).2
        &&& new.state.adx.acc == self.step_adx(c).3
        &&& new.state.adx.count == self.step_adx(c).4
        &&& new.state.up_con_medium_ema == r.up_con_medium_ema
        &&& new.state.down_con_medium_ema == r.down_con_medium_ema
        &&& new.state.up_con_long_ema == r.up_con_long_ema
        &&& new.state.down_con_long_ema == r.down_con_long_ema
        &&& new.state.last_ema_cut_index == self.step_cut_idx(c)
        &&& new.state.prev_analysis == self.state.last_analysis
        &&& new.state.last_analysis == Option::Some(r)
        &&& new.state.last_candle == Option::Some(c)
        &&& new.state.bb_window@ == self.step_bbw(c)
        &&& new.state.ci_window@ == self.step_ciw(c)
        &&& new.state.ci_atr_window@ == self.step_ci_atr_w(c)
        &&& new.state.close_window@ == window_push(
            self.state.close_window@,
            c.close,
            2 * self.options.max_ma_period(),
        )
        &&& new.state.half1 == self.state.half1 && new.state.sqrt1 == self.state.sqrt1
        &&& new.state.half2 == self.state.half2 && new.state.sqrt2 == self.state.sqrt2
        &&& new.state.half3 == self.state.half3 && new.state.sqrt3 == self.state.sqrt3
    }
}

/// Pushing into a bounded window keeps elementwise bounds.
proof fn lemma_window_bounds_i64(w: Seq<i64>, v: i64, cap: nat, lo: int, hi: int)
    requires
        forall|j: int| 0 <= j < w.len() ==> lo <= #[trigger] w[j] <= hi,
        lo <= v <= hi,
    ensures
        forall|j: int| 0 <= j < window_push(w, v, cap).len() ==> lo <= #[trigger] window_push(
            w,
            v,
            cap,
        )[j] <= hi,
{
    let w2 = window_push(w, v, cap);
    assert forall|j: int| 0 <= j < w2.len() implies lo <= #[trigger] w2[j] <= hi by {
        if w.push(v).len() > cap {
            assert(w2[j] == w.push(v)[j + 1]);
        }
    }
}

/// Pushing into a bounded window keeps candles well formed.
proof fn lemma_window_wf_candle(w: Seq<Candle>, v: Candle, cap: nat)
    requires
        forall|j: int| 0 <= j < w.len() ==> (#[trigger] w[j]).well_formed(),
        v.well_formed(),
    ensures
        forall|j: int| 0 <= j < window_push(w, v, cap).len() ==> (#[trigger] window_push(
            w,
            v,
            cap,
        )[j]).well_formed(),
{
    let w2 = window_push(w, v, cap);
    assert forall|j: int| 0 <= j < w2.len() implies (#[trigger] w2[j]).well_formed() by {
        if w.push(v).len() > cap {
            assert(w2[j] == w.push(v)[j + 1]);
        }
    }
}

/// Push a value into a rolling window with the given capacity.
fn push_window_vec<T>(w: &mut Vec<T>, v: T, cap: usize)
    requires
        cap >= 1,
        old(w)@.len() <= cap,
    ensures
        final(w)@ == window_push(old(w)@, v, cap as nat),
        final(w)@.len() == (if old(w)@.len() + 1 > cap {
            cap as nat
        } else {
            old(w)@.len() + 1
        }),
{
    w.push(v);
    if w.len() > cap {
        w.remove(0);
        proof {
            assert(w@ =~= window_push(old(w)@, v, cap as nat));
        }
    }
}

impl GeneratorState {
    /// Fresh accumulators and windows for a validated configuration; the
    /// Hull half and square-root periods are derived here once.
    pub fn new(options: &AnalysisOptions) -> (r: GeneratorState)
        requires
            options.valid(),
        ensures
            r.last_ema_1 == 0 && r.last_ema_2 == 0 && r.last_ema_3 == 0,
            r.last_atr == 0,
            r.rsi_avg_gain == 0 && r.rsi_avg_loss == 0,
            r.up_con_medium_ema == 0 && r.down_con_medium_ema == 0,
            r.up_con_long_ema == 0 && r.down_con_long_ema == 0,
            r.last_ema_cut_index is None,
            r.prev_analysis is None && r.last_analysis is None && r.last_candle is None,
            r.adx == (AdxState {
                tr_sum: 0i64,
                pdm_sum: 0i64,
                mdm_sum: 0i64,
                acc: 0i64,
                count: 0usize,
            }),
            r.bb_window@.len() == 0 && r.ci_window@.len() == 0 && r.ci_atr_window@.len() == 0
                && r.close_window@.len() == 0,
            r.half1 == half_of(options.ema1_period as nat) && is_isqrt(
                options.ema1_period as int,
                r.sqrt1 as int,
            ) && 1 <= r.sqrt1 <= options.ema1_period && 1 <= r.half1 <= options.ema1_period,
            r.half2 == half_of(options.ema2_period as nat) && is_isqrt(
                options.ema2_period as int,
                r.sqrt2 as int,
            ) && 1 <= r.sqrt2 <= options.ema2_period && 1 <= r.half2 <= options.ema2_period,
            r.half3 == half_of(options.ema3_period as nat) && is_isqrt(
                options.ema3_period as int,
                r.sqrt3 as int,
            ) && 1 <= r.sqrt3 <= options.ema3_period && 1 <= r.half3 <= options.ema3_period,
    {
        let sqrt1: usize = derive_sqrt(options.ema1_period);
        let sqrt2: usize = derive_sqrt(options.ema2_period);
        let sqrt3: usize = derive_sqrt(options.ema3_period);
        let half1: usize = derive_half(options.ema1_period);
        let half2: usize = derive_half(options.ema2_period);
        let half3: usize = derive_half(options.ema3_period);
        GeneratorState {
            last_ema_1: 0,
            last_ema_2: 0,
            last_ema_3: 0,
            last_atr: 0,
            rsi_avg_gain: 0,
            rsi_avg_loss: 0,
            up_con_medium_ema: 0,
            down_con_medium_ema: 0,
            up_con_long_ema: 0,
            down_con_long_ema: 0,
            last_ema_cut_index: Option::None,
            prev_analysis: Option::None,
            last_analysis: Option::None,
            last_candle: Option::None,
            adx: AdxState::new(),
            bb_window: Vec::new(),
            ci_window: Vec::new(),
            ci_atr_window: Vec::new(),
            close_window: Vec::new(),
            half1,
            sqrt1,
            half2,
            sqrt2,
            half3,
            sqrt3,
        }
    }
}

/// The integer square root of a period, as the Hull smoothing length.
fn derive_sqrt(n: usize) -> (r: usize)
    requires
        1 <= n <= PERIOD_MAX,
    ensures
        is_isqrt(n as int, r as int),
        1 <= r <= n,
{
    let s: u64 = isqrt_u128(n as u128);
    proof {
        if s == 0 {
            assert(false);
        }
        if s as int > n as int {
            assert(s as int * s as int > n as int) by (nonlinear_arith)
                requires s as int >= n as int + 1, n as int >= 1;
            assert(false);
        }
    }
    s as usize
}

/// Half a period, at least one, as the Hull inner length.
fn derive_half(n: usize) -> (r: usize)
    requires
        1 <= n <= PERIOD_MAX,
    ensures
        r == half_of(n as nat),
        1 <= r <= n,
{
    if n / 2 >= 1 {
        n / 2
    } else {
        1
    }
}

/// The discrete trend fields of one step, computed from the three fresh
/// moving-average values.
struct TrendFields {
    pub dir1: Direction,
    pub dir2: Direction,
    pub dir3: Direction,
    pub turn: TurnType,
    pub up_con_m: usize,
    pub down_con_m: usize,
    pub up_con_l: usize,
    pub down_con_l: usize,
    pub macd_12: i64,
    pub macd_23: i64,
    pub prev_e1: Option<i64>,
    pub prev_e2: Option<i64>,
    pub prev_e3: Option<i64>,
    pub prev_m12: Option<i64>,
    pub prev_m23: Option<i64>,
    pub conv: ConvergenceType,
    pub conv_l: crate::codebook::ConvClass,
    pub cut: Option<Trend>,
    pub new_cut_idx: Option<usize>,
    pub since: Option<usize>,
    pub key: StatusKey,
    pub code: Option<u32>,
}

/// The range and strength fields of one step.
struct RangeFields {
    pub tr: i64,
    pub atr: i64,
    pub gain_acc: i64,
    pub loss_acc: i64,
    pub rsi: Option<i64>,
    pub adx: AdxState,
    pub adx_value: Option<i64>,
}

impl AnalysisGenerator {
    /// Build a generator, rejecting invalid configurations.
    pub fn new(options: AnalysisOptions) -> (r: Result<AnalysisGenerator, OptionsError>)
        ensures
            r is Ok <==> options.valid(),
            r is Ok ==> ({
                let g = r.unwrap();
                &&& g.inv()
                &&& g.options == options
                &&& g.idx() == 0
                &&& g.current_candle is None
            }),
    {
        match options.validate() {
            Result::Ok(()) => {
                let state = GeneratorState::new(&options);
                let g = AnalysisGenerator {
                    options,
                    state,
                    analysis_array: Vec::new(),
                    current_candle: Option::None,
                };
                Result::Ok(g)
            },
            Result::Err(e) => Result::Err(e),
        }
    }

    /// The most recent analysis record, if any candle has been accepted.
    pub fn latest(&self) -> (r: Option<&AnalysisResult>)
        requires
            self.inv(),
        ensures
            r is Some <==> self.idx() >= 1,
            r is Some ==> *r.unwrap() == self.state.last_analysis.unwrap(),
    {
        self.state.last_analysis.as_ref()
    }

    /// The whole series of analysis records, one per accepted candle.
    pub fn series(&self) -> (r: &Vec<AnalysisResult>)
        ensures
            r == self.analysis_array,
    {
        &self.analysis_array
    }

    /// The three moving averages advanced by the new candle.
    fn ma_block(&self, c: Candle) -> (r: (i64, i64, i64))
        requires
            self.inv(),
            c.well_formed(),
        ensures
            r.0 as int == self.step_e1(c),
            r.1 as int == self.step_e2(c),
            r.2 as int == self.step_e3(c),
            ma_bounded(r.0 as int) && ma_bounded(r.1 as int) && ma_bounded(r.2 as int),
    {
        if self.analysis_array.len() == 0 {
            (c.close, c.close, c.close)
        } else {
            let e1: i64 = ma_step(
                self.options.ema1_type,
                self.options.ema1_period,
                self.state.half1,
                self.state.sqrt1,
                &self.state.close_window,
                c.close,
                self.state.last_ema_1,
            );
            let e2: i64 = ma_step(
                self.options.ema2_type,
                self.options.ema2_period,
                self.state.half2,
                self.state.sqrt2,
                &self.state.close_window,
                c.close,
                self.state.last_ema_2,
            );
            let e3: i64 = ma_step(
                self.options.ema3_type,
                self.options.ema3_period,
                self.state.half3,
                self.state.sqrt3,
                &self.state.close_window,
                c.close,
                self.state.last_ema_3,
            );
            (e1, e2, e3)
        }
    }

    /// Every discrete trend field of the step, given the fresh averages.
    #[verifier::spinoff_prover]
    fn trend_fields(&self, c: Candle, e1: i64, e2: i64, e3: i64) -> (r: TrendFields)
        requires
            self.inv(),
            c.well_formed(),
            e1 as int == self.step_e1(c),
            e2 as int == self.step_e2(c),
            e3 as int == self.step_e3(c),
            ma_bounded(e1 as int) && ma_bounded(e2 as int) && ma_bounded(e3 as int),
        ensures
            r.dir1 == self.step_dir1(c),
            r.dir2 == self.step_dir2(c),
            r.dir3 == self.step_dir3(c),
            r.turn == self.step_turn(c),
            r.up_con_m as nat == con_next(self.state.up_con_medium_ema as nat, self.step_dir2(c), true),
            r.down_con_m as nat == con_next(
                self.state.down_con_medium_ema as nat,
                self.step_dir2(c),
                false,
            ),
            r.up_con_l as nat == con_next(self.state.up_con_long_ema as nat, self.step_dir3(c), true),
            r.down_con_l as nat == con_next(
                self.state.down_con_long_ema as nat,
                self.step_dir3(c),
                false,
            ),
            r.macd_12 as int == Self::abs_diff(self.step_e1(c), self.step_e2(c)),
            r.macd_23 as int == Self::abs_diff(self.step_e2(c), self.step_e3(c)),
            r.prev_e1 == (match self.state.last_analysis {
                Option::Some(a) => Option::Some(a.ema_short_value),
                Option::None => Option::<i64>::None,
            }),
            r.prev_e2 == (match self.state.last_analysis {
                Option::Some(a) => Option::Some(a.ema_medium_value),
                Option::None => Option::<i64>::None,
            }),
            r.prev_e3 == (match self.state.last_analysis {
                Option::Some(a) => Option::Some(a.ema_long_value),
                Option::None => Option::<i64>::None,
            }),
            r.prev_m12 == self.prev_macd_12(),
            r.prev_m23 == self.prev_macd_23(),
            r.conv == conv_of(self.prev_macd_12(), Self::abs_diff(self.step_e1(c), self.step_e2(c))),
            r.conv_l == crate::analysis::conv_class_of(
                self.prev_macd_23(),
                Self::abs_diff(self.step_e2(c), self.step_e3(c)),
            ),
            r.cut == self.step_cut(c),
            r.new_cut_idx == self.step_cut_idx(c),
            r.since == self.step_since(c),
            r.key == self.step_key(c),
            r.code == status_code_of(self.step_key(c)),
            r.cut is Some ==> r.since == Option::Some(0usize),
    {
        let i: usize = self.analysis_array.len();
        let dir1: Direction;
        let dir2: Direction;
        let dir3: Direction;
        if i == 0 {
            dir1 = Direction::Flat;
            dir2 = Direction::Flat;
            dir3 = Direction::Flat;
        } else {
            dir1 = direction_of(self.state.last_ema_1, e1, self.options.flat_threshold);
            dir2 = direction_of(self.state.last_ema_2, e2, self.options.flat_threshold);
            dir3 = direction_of(self.state.last_ema_3, e3, self.options.flat_threshold);
        }
        let turn: TurnType = match &self.state.prev_analysis {
            Option::Some(p) => turn_type_of(
                self.state.last_ema_1 - p.ema_short_value,
                e1 - self.state.last_ema_1,
                self.options.turn_threshold,
            ),
            Option::None => TurnType::NoTurn,
        };
        let up_con_m: usize = con_step(self.state.up_con_medium_ema, dir2, true);
        let down_con_m: usize = con_step(self.state.down_con_medium_ema, dir2, false);
        let up_con_l: usize = con_step(self.state.up_con_long_ema, dir3, true);
        let down_con_l: usize = con_step(self.state.down_con_long_ema, dir3, false);
        let macd_12: i64 = if e1 >= e2 {
            e1 - e2
        } else {
            e2 - e1
        };
        let macd_23: i64 = if e2 >= e3 {
            e2 - e3
        } else {
            e3 - e2
        };
        let prev_e1: Option<i64>;
        let prev_e2: Option<i64>;
        let prev_e3: Option<i64>;
        let prev_m12: Option<i64>;
        let prev_m23: Option<i64>;
        match &self.state.last_analysis {
            Option::Some(a) => {
                prev_e1 = Option::Some(a.ema_short_value);
                prev_e2 = Option::Some(a.ema_medium_value);
                prev_e3 = Option::Some(a.ema_long_value);
                prev_m12 = Option::Some(a.macd_12);
                prev_m23 = Option::Some(a.macd_23);
            },
            Option::None => {
                prev_e1 = Option::None;
                prev_e2 = Option::None;
                prev_e3 = Option::None;
                prev_m12 = Option::None;
                prev_m23 = Option::None;
            },
        }
        let conv: ConvergenceType = convergence_of(prev_m12, macd_12);
        let conv_l = conv_class(prev_m23, macd_23);
        let cut: Option<Trend> = if i == 0 {
            Option::None
        } else {
            cut_long(self.state.last_ema_2, self.state.last_ema_3, e2, e3)
        };
        let new_cut_idx: Option<usize> = if cut.is_some() {
            Option::Some(i)
        } else {
            self.state.last_ema_cut_index
        };
        let since: Option<usize> = match &new_cut_idx {
            Option::Some(idx) => Option::Some(i - *idx),
            Option::None => Option::None,
        };
        let color: Color = get_color(c.open, c.close);
        let key = StatusKey {
            above: if e2 > e3 {
                AboveLong::MediumAbove
            } else {
                AboveLong::LongAbove
            },
            medium_dir: dir2,
            long_dir: dir3,
            color,
            conv: conv_l,
        };
        let code: Option<u32> = status_code(&key);
        TrendFields {
            dir1,
            dir2,
            dir3,
            turn,
            up_con_m,
            down_con_m,
            up_con_l,
            down_con_l,
            macd_12,
            macd_23,
            prev_e1,
            prev_e2,
            prev_e3,
            prev_m12,
            prev_m23,
            conv,
            conv_l,
            cut,
            new_cut_idx,
            since,
            key,
            code,
        }
    }

    /// The range and strength indicators of the step.
    #[verifier::spinoff_prover]
    fn range_fields(&self, c: Candle) -> (r: RangeFields)
        requires
            self.inv(),
            c.well_formed(),
        ensures
            r.tr as int == self.step_tr(c),
            r.atr as int == self.step_atr(c),
            0 <= r.atr <= PRICE_MAX,
            0 <= r.tr <= PRICE_MAX,
            r.gain_acc as int == self.step_rsi(c).0,
            r.loss_acc as int == self.step_rsi(c).1,
            (match r.rsi {
                Option::None => self.step_rsi(c).2 is None,
                Option::Some(v) => self.step_rsi(c).2 == Option::Some(v as int),
            }),
            r.adx.tr_sum as int == self.step_adx(c).0,
            r.adx.pdm_sum as int == self.step_adx(c).1,
            r.adx.mdm_sum as int == self.step_adx(c).2,
            r.adx.acc as int == self.step_adx(c).3,
            r.adx.count as int == self.step_adx(c).4,
            (match r.adx_value {
                Option::None => self.step_adx(c).5 is None,
                Option::Some(v) => self.step_adx(c).5 == Option::Some(v as int),
            }),
            r.gain_acc >= 0 && r.loss_acc >= 0,
            self.idx() == 0 ==> r.gain_acc == 0 && r.loss_acc == 0,
            1 <= self.idx() + 1 <= self.options.rsi_period ==> r.gain_acc <= (self.idx() as int)
                * PRICE_MAX && r.loss_acc <= (self.idx() as int) * PRICE_MAX,
            self.idx() + 1 > self.options.rsi_period && self.idx() >= 1 ==> r.gain_acc <= PRICE_MAX
                && r.loss_acc <= PRICE_MAX,
            self.idx() + 1 > self.options.rsi_period && self.idx() == 0 ==> r.gain_acc <= PRICE_MAX
                && r.loss_acc <= PRICE_MAX,
            r.adx.inv(self.options.adx_period as nat),
            self.idx() == 0 ==> r.adx == self.state.adx,
            1 <= self.idx() + 1 <= self.options.adx_period ==> r.adx.tr_sum <= (self.idx() as int)
                * (PRICE_MAX + 1) && r.adx.pdm_sum <= (self.idx() as int) * (PRICE_MAX + 1)
                && r.adx.mdm_sum <= (self.idx() as int) * (PRICE_MAX + 1),
    {
        let i: usize = self.analysis_array.len();
        let tr: i64 = true_range(&c, self.state.last_candle.as_ref());
        let new_atr: i64 = atr_step(self.state.last_atr, tr, i, self.options.atr_period);
        match &self.state.last_candle {
            Option::Some(pc) => {
                let gain: i64 = if c.close >= pc.close {
                    c.close - pc.close
                } else {
                    0
                };
                let loss: i64 = if c.close < pc.close {
                    pc.close - c.close
                } else {
                    0
                };
                let trio = rsi_step(
                    self.state.rsi_avg_gain,
                    self.state.rsi_avg_loss,
                    gain,
                    loss,
                    i,
                    self.options.rsi_period,
                );
                let (pdm, mdm) = directional_moves(&c, pc);
                let pair = adx_step(self.state.adx, pdm, mdm, tr, i, self.options.adx_period);
                proof {
                    if 1 <= i as int + 1 <= self.options.rsi_period {
                        assert((i as int) * PRICE_MAX >= 0) by (nonlinear_arith)
                            requires i as int >= 0;
                    }
                }
                RangeFields {
                    tr,
                    atr: new_atr,
                    gain_acc: trio.0,
                    loss_acc: trio.1,
                    rsi: trio.2,
                    adx: pair.0,
                    adx_value: pair.1,
                }
            },
            Option::None => {
                RangeFields {
                    tr,
                    atr: new_atr,
                    gain_acc: self.state.rsi_avg_gain,
                    loss_acc: self.state.rsi_avg_loss,
                    rsi: Option::None,
                    adx: self.state.adx,
                    adx_value: Option::None,
                }
            },
        }
    }

    /// Accept one closed candle and produce its analysis record.
    ///
    /// Candles must arrive in strictly increasing time order; a candle that
    /// does not advance the clock is rejected and the generator is left
    /// unchanged. On success the series grows by exactly one record, and
    /// every field of the record and of the new state is the step function
    /// of the old state and the candle stated in `step_post`.
    #[verifier::rlimit(100)]
    #[verifier::spinoff_prover]
    pub fn append_candle(&mut self, c: Candle) -> (r: Result<AnalysisResult, OrderingError>)
        requires
            old(self).inv(),
            c.well_formed(),
        ensures
            final(self).inv(),
            (r is Err <==> (old(self).state.last_candle is Some && c.time
                <= old(self).state.last_candle.unwrap().time)),
            r is Err ==> *final(self) == *old(self),
            r is Ok ==> r.unwrap() == old(self).step_result_spec(c),
            r is Ok ==> old(self).step_post(*final(self), c),
            r is Ok ==> final(self).analysis_array@.len() == old(self).analysis_array@.len() + 1,
            r is Ok ==> (r.unwrap().ema_cut_long_type is Some ==> r.unwrap().candles_since_ema_cut
                == Option::Some(0usize)),
    {
        match &self.state.last_candle {
            Option::Some(lc) => {
                if c.time <= lc.time {
                    return Result::Err(OrderingError { rejected_time: c.time });
                }
            },
            Option::None => {},
        }
        let ghost g0 = *self;
        let opts = self.options;
        let la: Option<AnalysisResult> = self.state.last_analysis;
        let i: usize = self.analysis_array.len();

        let mas = self.ma_block(c);
        let e1: i64 = mas.0;
        let e2: i64 = mas.1;
        let e3: i64 = mas.2;
        let tf: TrendFields = self.trend_fields(c, e1, e2, e3);
        let rf: RangeFields = self.range_fields(c);

        // Refresh the rolling windows.
        let max_p: usize = max3(opts.ema1_period, opts.ema2_period, opts.ema3_period);
        proof {
            assert(max_p as nat == opts.max_ma_period());
            lemma_window_bounds_i64(
                self.state.close_window@,
                c.close,
                2 * opts.max_ma_period(),
                0,
                PRICE_MAX as int,
            );
            lemma_window_bounds_i64(
                self.state.bb_window@,
                c.close,
                opts.bb_period as nat,
                0,
                PRICE_MAX as int,
            );
            lemma_window_wf_candle(self.state.ci_window@, c, opts.ci_period as nat);
            lemma_window_bounds_i64(
                self.state.ci_atr_window@,
                rf.atr,
                opts.ci_period as nat,
                0,
                PRICE_MAX as int,
            );
        }
        push_window_vec(&mut self.state.close_window, c.close, 2 * max_p);
        push_window_vec(&mut self.state.bb_window, c.close, opts.bb_period);
        push_window_vec(&mut self.state.ci_window, c, opts.ci_period);
        push_window_vec(&mut self.state.ci_atr_window, rf.atr, opts.ci_period);

        // Bollinger bands over the refreshed window.
        let bbv: BBValues;
        let bbpos: BbPosition;
        if self.state.bb_window.len() == opts.bb_period {
            let bands = bb_of(&self.state.bb_window, opts.bb_period);
            bbv = BBValues {
                upper: Option::Some(bands.0),
                middle: Option::Some(bands.1),
                lower: Option::Some(bands.2),
            };
            bbpos = bb_position_of(bands.0, bands.2, c.close);
        } else {
            bbv = BBValues { upper: Option::None, middle: Option::None, lower: Option::None };
            bbpos = BbPosition::Unknown;
        }
        proof {
            assert(bbv == g0.step_bb(c));
            assert(bbpos == g0.step_bb_pos(c));
        }

        // Choppiness over the refreshed windows.
        let ci_v: Option<i64> = if self.state.ci_window.len() == opts.ci_period {
            Option::Some(ci_of(&self.state.ci_window, &self.state.ci_atr_window, opts.ci_period))
        } else {
            Option::None
        };
        proof {
            assert(match ci_v {
                Option::None => g0.step_ci(c) is None,
                Option::Some(v) => g0.step_ci(c) == Option::Some(v as int),
            });
        }

        // Candle geometry and classification.
        let color: Color = get_color(c.open, c.close);
        let geo = geometry(&c);
        let pct = geometry_percents(&c);
        let full: i64 = c.high - c.low;
        let abn_c: bool = if i == 0 {
            false
        } else {
            abnormal_candle(rf.tr, rf.atr, opts.atr_multiplier_pct)
        };
        let abn_a: bool = abnormal_atr(geo.0, full, rf.atr, opts.atr_multiplier_pct);
        let cpos: CutPosition = cut_position(&c, e1);

        let result = AnalysisResult {
            index: i,
            candletime: c.time,
            open: c.open,
            high: c.high,
            low: c.low,
            close: c.close,
            color,
            next_color: Option::None,
            pip_size: geo.0,
            ema_short_value: e1,
            ema_short_direction: tf.dir1,
            ema_short_turn_type: tf.turn,
            ema_medium_value: e2,
            ema_medium_direction: tf.dir2,
            ema_long_value: e3,
            ema_long_direction: tf.dir3,
            ema_above: if e1 > e2 {
                EmaAbove::ShortAbove
            } else {
                EmaAbove::MediumAbove
            },
            ema_long_above: if e2 > e3 {
                AboveLong::MediumAbove
            } else {
                AboveLong::LongAbove
            },
            macd_12: tf.macd_12,
            macd_23: tf.macd_23,
            previous_ema_short_value: tf.prev_e1,
            previous_ema_medium_value: tf.prev_e2,
            previous_ema_long_value: tf.prev_e3,
            previous_macd_12: tf.prev_m12,
            previous_macd_23: tf.prev_m23,
            ema_convergence_type: tf.conv,
            ema_long_convergence_type: tf.conv_l,
            choppy_indicator: ci_v,
            adx_value: rf.adx_value,
            rsi_value: rf.rsi,
            bb_values: bbv,
            bb_position: bbpos,
            atr: rf.atr,
            is_abnormal_candle: abn_c,
            is_abnormal_atr: abn_a,
            u_wick: geo.1,
            u_wick_percent: pct.1,
            body: geo.0,
            body_percent: pct.0,
            l_wick: geo.2,
            l_wick_percent: pct.2,
            ema_cut_position: cpos,
            ema_cut_long_type: tf.cut,
            candles_since_ema_cut: tf.since,
            up_con_medium_ema: tf.up_con_m,
            down_con_medium_ema: tf.down_con_m,
            up_con_long_ema: tf.up_con_l,
            down_con_long_ema: tf.down_con_l,
            status_key: tf.key,
            status_code: tf.code,
        };
        proof {
            assert(result == g0.step_result_spec(c));
        }

        // Seal the previous record with this candle's color, then append.
        match self.analysis_array.pop() {
            Option::Some(prev_last) => {
                let sealed = AnalysisResult { next_color: Option::Some(color), ..prev_last };
                self.analysis_array.push(sealed);
            },
            Option::None => {},
        }
        self.analysis_array.push(result);
        proof {
            assert(self.analysis_array@ =~= g0.step_series_spec(c));
        }

        // Advance the accumulators.
        self.state.last_ema_1 = e1;
        self.state.last_ema_2 = e2;
        self.state.last_ema_3 = e3;
        self.state.last_atr = rf.atr;
        self.state.rsi_avg_gain = rf.gain_acc;
        self.state.rsi_avg_loss = rf.loss_acc;
        self.state.adx = rf.adx;
        self.state.up_con_medium_ema = tf.up_con_m;
        self.state.down_con_medium_ema = tf.down_con_m;
        self.state.up_con_long_ema = tf.up_con_l;
        self.state.down_con_long_ema = tf.down_con_l;
        self.state.last_ema_cut_index = tf.new_cut_idx;
        self.state.prev_analysis = la;
        self.state.last_analysis = Option::Some(result);
        self.state.last_candle = Option::Some(c);
        Result::Ok(result)
    }
}

/// The greatest of three periods.
fn max3(a: usize, b: usize, c: usize) -> (r: usize)
    ensures
        r == (if (if a >= b {
            a
        } else {
            b
        }) >= c {
            (if a >= b {
                a
            } else {
                b
            })
        } else {
            c
        }),
{
    let ab: usize = if a >= b {
        a
    } else {
        b
    };
    if ab >= c {
        ab
    } else {
        c
    }
}

impl AnalysisGenerator {
    /// The forming candle updated by one tick.
    pub open spec fn merged_candle(cur: Candle, price: i64) -> Candle {
        Candle {
            time: cur.time,
            open: cur.open,
            high: if price > cur.high {
                price
            } else {
                cur.high
            },
            low: if price < cur.low {
                price
            } else {
                cur.low
            },
            close: price,
        }
    }

    /// A fresh forming candle opened by a tick.
    pub open spec fn fresh_candle(time: u64, price: i64) -> Candle {
        Candle {
            time: ((time / 60) * 60) as u64,
            open: price,
            high: price,
            low: price,
            close: price,
        }
    }

    /// Feed one tick into the forming candle. When the tick crosses into the
    /// next minute, the forming candle closes: it is fed to `append_candle`,
    /// a new forming candle opens at the tick, and the closed candle's
    /// record is returned. Otherwise the forming candle absorbs the tick.
    pub fn append_tick(&mut self, price: i64, time: u64) -> (r: Result<
        Option<AnalysisResult>,
        OrderingError,
    >)
        requires
            old(self).inv(),
            0 <= price <= PRICE_MAX,
        ensures
            final(self).inv(),
            old(self).current_candle is None ==> r == Result::<
                Option<AnalysisResult>,
                OrderingError,
            >::Ok(Option::None) && final(self).current_candle == Option::Some(
                Self::fresh_candle(time, price),
            ) && final(self).state == old(self).state && final(self).analysis_array
                == old(self).analysis_array && final(self).options == old(self).options,
            (old(self).current_candle is Some && time < old(self).current_candle.unwrap().time
                + 60) ==> r == Result::<Option<AnalysisResult>, OrderingError>::Ok(Option::None)
                && final(self).current_candle == Option::Some(
                Self::merged_candle(old(self).current_candle.unwrap(), price),
            ) && final(self).state == old(self).state && final(self).analysis_array
                == old(self).analysis_array && final(self).options == old(self).options,
            (old(self).current_candle is Some && time >= old(self).current_candle.unwrap().time
                + 60) ==> ({
                let cur = old(self).current_candle.unwrap();
                let blocked = old(self).state.last_candle is Some && cur.time
                    <= old(self).state.last_candle.unwrap().time;
                &&& (r is Err <==> blocked)
                &&& (blocked ==> *final(self) == *old(self))
                &&& (!blocked ==> {
                    &&& r == Result::<Option<AnalysisResult>, OrderingError>::Ok(
                        Option::Some(old(self).step_result_spec(cur)),
                    )
                    &&& old(self).step_post(
                        AnalysisGenerator {
                            current_candle: old(self).current_candle,
                            ..*final(self)
                        },
                        cur,
                    )
                    &&& final(self).current_candle == Option::Some(Self::fresh_candle(time, price))
                })
            }),
    {
        match self.current_candle {
            Option::Some(cur) => {
                if time >= 60 && time - 60 >= cur.time {
                    let res = self.append_candle(cur);
                    match res {
                        Result::Ok(record) => {
                            self.current_candle = Option::Some(
                                Candle {
                                    time: (time / 60) * 60,
                                    open: price,
                                    high: price,
                                    low: price,
                                    close: price,
                                },
                            );
                            Result::Ok(Option::Some(record))
                        },
                        Result::Err(e) => Result::Err(e),
                    }
                } else {
                    let merged = Candle {
                        time: cur.time,
                        open: cur.open,
                        high: if price > cur.high {
                            price
                        } else {
                            cur.high
                        },
                        low: if price < cur.low {
                            price
                        } else {
                            cur.low
                        },
                        close: price,
                    };
                    self.current_candle = Option::Some(merged);
                    Result::Ok(Option::None)
                }
            },
            Option::None => {
                self.current_candle = Option::Some(
                    Candle {
                        time: (time / 60) * 60,
                        open: price,
                        high: price,
                        low: price,
                        close: price,
                    },
                );
                Result::Ok(Option::None)
            },
        }
    }
}

/// Counting summary of a generated series.
#[derive(Clone, Copy, Debug)]
pub struct AnalysisSummary {
    pub total_candles: usize,
    pub green_count: usize,
    pub red_count: usize,
    pub abnormal_count: usize,
    pub abnormal_atr_count: usize,
    pub ema_crossover_count: usize,
    pub uptrend_count: usize,
    pub downtrend_count: usize,
    pub latest_ci: Option<i64>,
    pub latest_adx: Option<i64>,
    pub latest_ema_short_direction: Direction,
    pub latest_ema_medium_direction: Direction,
    pub latest_ema_long_direction: Direction,
    pub latest_up_con_medium_ema: usize,
    pub latest_down_con_medium_ema: usize,
    pub latest_up_con_long_ema: usize,
    pub latest_down_con_long_ema: usize,
}

/// How many of the first `t` records of a series satisfy a predicate.
pub open spec fn count_where(
    s: Seq<AnalysisResult>,
    f: spec_fn(AnalysisResult) -> bool,
    t: nat,
) -> nat
    decreases t,
{
    if t == 0 {
        0
    } else {
        count_where(s, f, (t - 1) as nat) + (if f(s[t - 1]) {
            1nat
        } else {
            0nat
        })
    }
}

impl AnalysisGenerator {
    /// Counting summary of the series so far, if any candle was accepted.
    pub fn get_summary(&self) -> (r: Option<AnalysisSummary>)
        ensures
            r is Some <==> self.idx() >= 1,
            r is Some ==> ({
                let s = r.unwrap();
                let a = self.analysis_array@;
                let n = a.len();
                &&& s.total_candles == n
                &&& s.green_count == count_where(a, |x: AnalysisResult| x.color is Green, n)
                &&& s.red_count == count_where(a, |x: AnalysisResult| x.color is Red, n)
                &&& s.abnormal_count == count_where(a, |x: AnalysisResult| x.is_abnormal_candle, n)
                &&& s.abnormal_atr_count == count_where(a, |x: AnalysisResult| x.is_abnormal_atr, n)
                &&& s.ema_crossover_count == count_where(
                    a,
                    |x: AnalysisResult| x.ema_cut_long_type is Some,
                    n,
                )
                &&& s.uptrend_count == count_where(
                    a,
                    |x: AnalysisResult| x.ema_cut_long_type == Option::Some(Trend::UpTrend),
                    n,
                )
                &&& s.downtrend_count == count_where(
                    a,
                    |x: AnalysisResult| x.ema_cut_long_type == Option::Some(Trend::DownTrend),
                    n,
                )
                &&& s.latest_ci == a.last().choppy_indicator
                &&& s.latest_adx == a.last().adx_value
                &&& s.latest_ema_short_direction == a.last().ema_short_direction
                &&& s.latest_ema_medium_direction == a.last().ema_medium_direction
                &&& s.latest_ema_long_direction == a.last().ema_long_direction
                &&& s.latest_up_con_medium_ema == a.last().up_con_medium_ema
                &&& s.latest_down_con_medium_ema == a.last().down_con_medium_ema
                &&& s.latest_up_con_long_ema == a.last().up_con_long_ema
                &&& s.latest_down_con_long_ema == a.last().down_con_long_ema
            }),
    {
        let n: usize = self.analysis_array.len();
        if n == 0 {
            return Option::None;
        }
        let ghost a = self.analysis_array@;
        let mut green: usize = 0;
        let mut red: usize = 0;
        let mut abn: usize = 0;
        let mut abn_atr: usize = 0;
        let mut cross: usize = 0;
        let mut up: usize = 0;
        let mut down: usize = 0;
        let mut t: usize = 0;
        while t < n
            invariant
                0 <= t <= n,
                n == self.analysis_array@.len(),
                a == self.analysis_array@,
                green == count_where(a, |x: AnalysisResult| x.color is Green, t as nat),
                red == count_where(a, |x: AnalysisResult| x.color is Red, t as nat),
                abn == count_where(a, |x: AnalysisResult| x.is_abnormal_candle, t as nat),
                abn_atr == count_where(a, |x: AnalysisResult| x.is_abnormal_atr, t as nat),
                cross == count_where(a, |x: AnalysisResult| x.ema_cut_long_type is Some, t as nat),
                up == count_where(
                    a,
                    |x: AnalysisResult| x.ema_cut_long_type == Option::Some(Trend::UpTrend),
                    t as nat,
                ),
                down == count_where(
                    a,
                    |x: AnalysisResult| x.ema_cut_long_type == Option::Some(Trend::DownTrend),
                    t as nat,
                ),
                green <= t && red <= t && abn <= t && abn_atr <= t && cross <= t && up <= t && down
                    <= t,
            decreases n - t,
        {
            let x = &self.analysis_array[t];
            match x.color {
                Color::Green => {
                    green = green + 1;
                },
                Color::Red => {
                    red = red + 1;
                },
                Color::Equal => {},
            }
            if x.is_abnormal_candle {
                abn = abn + 1;
            }
            if x.is_abnormal_atr {
                abn_atr = abn_atr + 1;
            }
            match &x.ema_cut_long_type {
                Option::Some(tr) => {
                    cross = cross + 1;
                    match tr {
                        Trend::UpTrend => {
                            up = up + 1;
                        },
                        Trend::DownTrend => {
                            down = down + 1;
                        },
                    }
                },
                Option::None => {},
            }
            t = t + 1;
        }
        let last = &self.analysis_array[n - 1];
        Option::Some(
            AnalysisSummary {
                total_candles: n,
                green_count: green,
                red_count: red,
                abnormal_count: abn,
                abnormal_atr_count: abn_atr,
                ema_crossover_count: cross,
                uptrend_count: up,
                downtrend_count: down,
                latest_ci: last.choppy_indicator,
                latest_adx: last.adx_value,
                latest_ema_short_direction: last.ema_short_direction,
                latest_ema_medium_direction: last.ema_medium_direction,
                latest_ema_long_direction: last.ema_long_direction,
                latest_up_con_medium_ema: last.up_con_medium_ema,
                latest_down_con_medium_ema: last.down_con_medium_ema,
                latest_up_con_long_ema: last.up_con_long_ema,
                latest_down_con_long_ema: last.down_con_long_ema,
            },
        )
    }
}

/// Two generators agree on everything their step functions read: the same
/// configuration, the same series so far, and the same accumulators and
/// windows.
pub open spec fn same_abstract_state(g1: AnalysisGenerator, g2: AnalysisGenerator) -> bool {
    &&& g1.options == g2.options
    &&& g1.analysis_array@ == g2.analysis_array@
    &&& g1.state.last_ema_1 == g2.state.last_ema_1
    &&& g1.state.last_ema_2 == g2.state.last_ema_2
    &&& g1.state.last_ema_3 == g2.state.last_ema_3
    &&& g1.state.last_atr == g2.state.last_atr
    &&& g1.state.rsi_avg_gain == g2.state.rsi_avg_gain
    &&& g1.state.rsi_avg_loss == g2.state.rsi_avg_loss
    &&& g1.state.up_con_medium_ema == g2.state.up_con_medium_ema
    &&& g1.state.down_con_medium_ema == g2.state.down_con_medium_ema
    &&& g1.state.up_con_long_ema == g2.state.up_con_long_ema
    &&& g1.state.down_con_long_ema == g2.state.down_con_long_ema
    &&& g1.state.last_ema_cut_index == g2.state.last_ema_cut_index
    &&& g1.state.prev_analysis == g2.state.prev_analysis
    &&& g1.state.last_analysis == g2.state.last_analysis
    &&& g1.state.last_candle == g2.state.last_candle
    &&& g1.state.adx == g2.state.adx
    &&& g1.state.bb_window@ == g2.state.bb_window@
    &&& g1.state.ci_window@ == g2.state.ci_window@
    &&& g1.state.ci_atr_window@ == g2.state.ci_atr_window@
    &&& g1.state.close_window@ == g2.state.close_window@
    &&& g1.state.half1 == g2.state.half1 && g1.state.sqrt1 == g2.state.sqrt1
    &&& g1.state.half2 == g2.state.half2 && g1.state.sqrt2 == g2.state.sqrt2
    &&& g1.state.half3 == g2.state.half3 && g1.state.sqrt3 == g2.state.sqrt3
}

/// Replaying is reproducible: two generators in the same abstract state
/// produce the same record and the same sealed series for the same candle.
/// Since `append_candle` also pins every accumulator and window of its
/// successor state to step functions of the same abstract state, equal
/// abstract states stay equal under equal candles, and induction over an
/// in-order candle sequence reproduces the whole series.
#[verifier::spinoff_prover]
pub proof fn lemma_replay_deterministic(g1: AnalysisGenerator, g2: AnalysisGenerator, c: Candle)
    requires
        same_abstract_state(g1, g2),
    ensures
        g1.step_result_spec(c) == g2.step_result_spec(c),
        g1.step_series_spec(c) == g2.step_series_spec(c),
{
    assert(g1.idx() == g2.idx());
    assert(g1.step_e1(c) == g2.step_e1(c));
    assert(g1.step_e2(c) == g2.step_e2(c));
    assert(g1.step_e3(c) == g2.step_e3(c));
    assert(g1.step_dir1(c) == g2.step_dir1(c));
    assert(g1.step_dir2(c) == g2.step_dir2(c));
    assert(g1.step_dir3(c) == g2.step_dir3(c));
    assert(g1.step_turn(c) == g2.step_turn(c));
    assert(g1.step_tr(c) == g2.step_tr(c));
    assert(g1.step_atr(c) == g2.step_atr(c));
    assert(g1.step_rsi(c) == g2.step_rsi(c));
    assert(g1.step_adx(c) == g2.step_adx(c));
    assert(g1.step_bbw(c) == g2.step_bbw(c));
    assert(g1.step_bb(c) == g2.step_bb(c));
    assert(g1.step_bb_pos(c) == g2.step_bb_pos(c));
    assert(g1.step_ciw(c) == g2.step_ciw(c));
    assert(g1.step_ci_atr_w(c) == g2.step_ci_atr_w(c));
    assert(g1.step_ci(c) == g2.step_ci(c));
    assert(g1.step_cut(c) == g2.step_cut(c));
    assert(g1.step_cut_idx(c) == g2.step_cut_idx(c));
    assert(g1.step_since(c) == g2.step_since(c));
    assert(g1.prev_macd_12() == g2.prev_macd_12());
    assert(g1.prev_macd_23() == g2.prev_macd_23());
    assert(g1.step_key(c) == g2.step_key(c));
    assert(g1.step_result_spec(c) == g2.step_result_spec(c));
    assert(g1.step_series_spec(c) == g2.step_series_spec(c));
}

/// The first candle of a stream: every moving average equals its close, all
/// directions are flat, there is no turn, the smoothed range is the candle's
/// own height, and every windowed indicator is still absent (the strength
/// and directional indicators always, the band and choppiness indicators
/// for any window longer than one candle).
pub proof fn lemma_first_candle(g: AnalysisGenerator, c: Candle)
    requires
        g.inv(),
        g.idx() == 0,
        c.well_formed(),
    ensures
        ({
            let r = g.step_result_spec(c);
            &&& r.ema_short_value == c.close && r.ema_medium_value == c.close && r.ema_long_value
                == c.close
            &&& r.ema_short_direction is Flat && r.ema_medium_direction is Flat
                && r.ema_long_direction is Flat
            &&& r.ema_short_turn_type is NoTurn
            &&& r.atr == c.high - c.low
            &&& r.rsi_value is None
            &&& r.adx_value is None
            &&& (g.options.bb_period > 1 ==> r.bb_values.middle is None && r.bb_position is Unknown)
            &&& (g.options.ci_period > 1 ==> r.choppy_indicator is None)
        }),
{
    let r = g.step_result_spec(c);
    assert(g.step_bbw(c).len() == 1);
    assert(g.step_ciw(c).len() == 1);
}

/// The relative strength law: the index is present exactly once the
/// configured number of changes has been seen, it always lies within
/// [0, 100], and it is 100 exactly when the smoothed loss average is zero.
#[verifier::spinoff_prover]
pub proof fn lemma_rsi_law(g: AnalysisGenerator, c: Candle)
    requires
        g.inv(),
        c.well_formed(),
    ensures
        g.step_rsi(c).2 is Some <==> g.idx() >= g.options.rsi_period,
        (match g.step_rsi(c).2 {
            Option::Some(v) => 0 <= v <= 100 && (v == 100 <==> g.step_rsi(c).1 == 0),
            Option::None => true,
        }),
{
    let period = g.options.rsi_period as nat;
    if g.idx() >= 1 {
        let gain = g.step_gain(c);
        let loss = g.step_loss(c);
        let gacc = g.state.rsi_avg_gain as int;
        let lacc = g.state.rsi_avg_loss as int;
        if g.idx() == period {
            vstd::arithmetic::div_mod::lemma_div_pos_is_pos(gacc + gain, period as int);
            vstd::arithmetic::div_mod::lemma_div_pos_is_pos(lacc + loss, period as int);
            crate::indicators::lemma_rsi_bounds(
                (gacc + gain) / period as int,
                (lacc + loss) / period as int,
            );
        } else if g.idx() > period {
            assert(gacc * (period - 1) >= 0 && lacc * (period - 1) >= 0) by (nonlinear_arith)
                requires gacc >= 0, lacc >= 0, period >= 1;
            vstd::arithmetic::div_mod::lemma_div_pos_is_pos(
                gacc * (period - 1) + gain,
                period as int,
            );
            vstd::arithmetic::div_mod::lemma_div_pos_is_pos(
                lacc * (period - 1) + loss,
                period as int,
            );
            crate::indicators::lemma_rsi_bounds(
                crate::indicators::wilder_avg_spec(gacc, gain, period),
                crate::indicators::wilder_avg_spec(lacc, loss, period),
            );
        }
    }
}

/// The directional index law: the average directional index is present
/// exactly when the configured number of directional-index values has been
/// produced (one per candle past the period whose smoothed range is
/// positive), and it always lies within [0, 100].
#[verifier::spinoff_prover]
pub proof fn lemma_adx_law(g: AnalysisGenerator, c: Candle)
    requires
        g.inv(),
        c.well_formed(),
    ensures
        g.step_adx(c).5 is Some <==> (g.idx() >= 1 && g.idx() >= g.options.adx_period
            && g.step_adx(c).0 > 0 && g.step_adx(c).4 == g.options.adx_period),
        (match g.step_adx(c).5 {
            Option::Some(v) => 0 <= v <= 100,
            Option::None => true,
        }),
{
    let period = g.options.adx_period as nat;
    if g.idx() >= 1 {
        let prev = g.state.last_candle.unwrap();
        let pdm = dm_spec(c, prev).0;
        let mdm = dm_spec(c, prev).1;
        let tr = g.step_tr(c);
        let s = g.state.adx;
        assert(pdm >= 0 && mdm >= 0);
        assert(tr >= 0);
        let tr2 = if g.idx() < period {
            s.tr_sum + tr
        } else {
            crate::indicators::wilder_sum_spec(s.tr_sum as int, tr, period)
        };
        let pdm2 = if g.idx() < period {
            s.pdm_sum + pdm
        } else {
            crate::indicators::wilder_sum_spec(s.pdm_sum as int, pdm, period)
        };
        let mdm2 = if g.idx() < period {
            s.mdm_sum + mdm
        } else {
            crate::indicators::wilder_sum_spec(s.mdm_sum as int, mdm, period)
        };
        if g.idx() >= period {
            crate::indicators::lemma_wilder_sum_nonneg(s.pdm_sum as int, pdm, period);
            crate::indicators::lemma_wilder_sum_nonneg(s.mdm_sum as int, mdm, period);
        }
        if g.idx() >= period && tr2 > 0 {
            let dx = crate::indicators::dx_spec(pdm2, mdm2);
            crate::indicators::lemma_dx_bounds(pdm2, mdm2);
            if s.count + 1 == period {
                assert(0 <= s.acc <= 100 * s.count);
                assert(0 * (period as int) <= s.acc + dx <= 100 * (period as int))
                    by (nonlinear_arith)
                    requires 0 <= s.acc <= 100 * ((period - 1) as int), 0 <= dx <= 100, period >= 1;
                crate::num::lemma_div_between(0, 100, s.acc as int + dx, period as int);
            } else if s.count + 1 > period {
                assert(s.count == period);
                assert(s.acc * (period - 1) >= 0 && s.acc * (period - 1) <= 100 * ((period
                    - 1) as int)) by (nonlinear_arith)
                    requires 0 <= s.acc <= 100, period >= 1;
                assert(0 * (period as int) <= s.acc * (period - 1) + dx <= 100 * (period as int))
                    by (nonlinear_arith)
                    requires 0 <= s.acc <= 100, 0 <= dx <= 100, period >= 1;
                crate::num::lemma_div_between(0, 100, s.acc as int * (period - 1) + dx, period as int);
            }
        }
    }
}

/// The band law: the Bollinger bands are present exactly once the close
/// window is full, and whenever present they are ordered, the lower band at
/// or below the middle band, the middle at or below the upper.
#[verifier::spinoff_prover]
pub proof fn lemma_bb_law(g: AnalysisGenerator, c: Candle)
    requires
        g.inv(),
        c.well_formed(),
    ensures
        g.step_bb(c).middle is Some <==> g.idx() + 1 >= g.options.bb_period,
        g.step_bb(c).middle is Some ==> g.step_bb(c).upper is Some && g.step_bb(c).lower is Some
            && g.step_bb(c).lower.unwrap() <= g.step_bb(c).middle.unwrap() <= g.step_bb(
            c,
        ).upper.unwrap(),
{
    let w = g.step_bbw(c);
    lemma_window_bounds_i64(
        g.state.bb_window@,
        c.close,
        g.options.bb_period as nat,
        0,
        PRICE_MAX as int,
    );
    if w.len() == g.options.bb_period as nat {
        crate::indicators::lemma_bb_ordered(w);
    }
}

} // verus!
