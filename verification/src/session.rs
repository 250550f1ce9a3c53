//! Pieces of the trading session's control logic that are pure decisions:
//! the minute-boundary gate of the decision pass, moving-average
//! configuration parsing, and the simple cut-strategy action rules.

use vstd::prelude::*;

verus! {

use vstd::string::StrSliceExecFns;
use crate::analysis::AnalysisResult;
use crate::codebook::Direction;
use crate::analysis::{EmaAbove, Trend};
use crate::analysis::cut_long_of;
use crate::generator::AnalysisOptions;
use crate::ma::MaType;
use crate::rulebook::Signal;

/// When the decision pass runs: immediately at the first processed frame,
/// and afterwards within the first five seconds of every new minute — and
/// never twice in the same minute.
pub open spec fn should_check_spec(epoch: u64, last_checked_minute: Option<u64>, initial_done: bool) -> bool {
    let minute = epoch as int / 60;
    &&& (last_checked_minute != Option::Some((minute) as u64))
    &&& (!initial_done || epoch as int % 60 <= 5)
}

/// Decide whether this frame triggers a decision pass.
pub fn should_check(epoch: u64, last_checked_minute: Option<u64>, initial_done: bool) -> (r: bool)
    ensures
        r == should_check_spec(epoch, last_checked_minute, initial_done),
{
    let minute: u64 = epoch / 60;
    let seconds: u64 = epoch % 60;
    let new_minute: bool = match last_checked_minute {
        Option::Some(m) => m != minute,
        Option::None => true,
    };
    new_minute && (!initial_done || seconds <= 5)
}

/// Whether a live frame closes the previously forming candle: a frame with
/// a different open time means the buffered candle's minute has ended.
pub open spec fn frame_closed_spec(prev_open_time: Option<u64>, open_time: u64) -> bool {
    match prev_open_time {
        Option::Some(t) => t != open_time,
        Option::None => false,
    }
}

/// Decide whether the previously buffered frame candle is now closed.
pub fn frame_closed(prev_open_time: Option<u64>, open_time: u64) -> (r: bool)
    ensures
        r == frame_closed_spec(prev_open_time, open_time),
{
    match prev_open_time {
        Option::Some(t) => t != open_time,
        Option::None => false,
    }
}

/// One moving-average configuration row: which average, over how many
/// candles.
#[derive(Clone, Copy, Debug, PartialEq, Eq, Structural)]
pub struct MaConfig {
    pub ma_type: MaType,
    pub period: usize,
}

/// The moving-average kind named by a configuration string; anything
/// unrecognized falls back to the exponential average.
pub open spec fn ma_type_of(s: Seq<char>) -> MaType {
    if s == seq!['s', 'm', 'a'] {
        MaType::SMA
    } else if s == seq!['w', 'm', 'a'] {
        MaType::WMA
    } else if s == seq!['h', 'm', 'a'] {
        MaType::HMA
    } else if s == seq!['e', 'h', 'm', 'a'] {
        MaType::EHMA
    } else {
        MaType::EMA
    }
}

/// Parse a lower-case moving-average kind name.
pub fn parse_ma_type(type_str: &str) -> (r: MaType)
    ensures
        r == ma_type_of(type_str@),
{
    let n: usize = type_str.unicode_len();
    if n == 3 {
        let c0: char = type_str.get_char(0);
        let c1: char = type_str.get_char(1);
        let c2: char = type_str.get_char(2);
        if c1 == 'm' && c2 == 'a' {
            if c0 == 's' {
                proof {
                    assert(type_str@ =~= seq!['s', 'm', 'a']);
                }
                return MaType::SMA;
            }
            if c0 == 'w' {
                proof {
                    assert(type_str@ =~= seq!['w', 'm', 'a']);
                }
                return MaType::WMA;
            }
            if c0 == 'h' {
                proof {
                    assert(type_str@ =~= seq!['h', 'm', 'a']);
                }
                return MaType::HMA;
            }
        }
        proof {
            assert(type_str@ != seq!['s', 'm', 'a']);
            assert(type_str@ != seq!['w', 'm', 'a']);
            assert(type_str@ != seq!['h', 'm', 'a']);
            assert(type_str@ != seq!['e', 'h', 'm', 'a']);
        }
        return MaType::EMA;
    }
    if n == 4 {
        let c0: char = type_str.get_char(0);
        let c1: char = type_str.get_char(1);
        let c2: char = type_str.get_char(2);
        let c3: char = type_str.get_char(3);
        if c0 == 'e' && c1 == 'h' && c2 == 'm' && c3 == 'a' {
            proof {
                assert(type_str@ =~= seq!['e', 'h', 'm', 'a']);
            }
            return MaType::EHMA;
        }
        proof {
            assert(type_str@ != seq!['s', 'm', 'a']);
            assert(type_str@ != seq!['w', 'm', 'a']);
            assert(type_str@ != seq!['h', 'm', 'a']);
            assert(type_str@ != seq!['e', 'h', 'm', 'a']);
        }
        return MaType::EMA;
    }
    proof {
        assert(type_str@ != seq!['s', 'm', 'a']);
        assert(type_str@ != seq!['w', 'm', 'a']);
        assert(type_str@ != seq!['h', 'm', 'a']);
        assert(type_str@ != seq!['e', 'h', 'm', 'a']);
    }
    MaType::EMA
}

/// Apply up to three configuration rows onto a base configuration: the
/// first row sets the short average, the second the medium, the third the
/// long; missing rows leave the base untouched.
pub fn apply_ma_config(base: &AnalysisOptions, configs: &Vec<MaConfig>) -> (r: AnalysisOptions)
    ensures
        configs@.len() >= 1 ==> r.ema1_type == configs@[0].ma_type && r.ema1_period
            == configs@[0].period,
        configs@.len() < 1 ==> r.ema1_type == base.ema1_type && r.ema1_period == base.ema1_period,
        configs@.len() >= 2 ==> r.ema2_type == configs@[1].ma_type && r.ema2_period
            == configs@[1].period,
        configs@.len() < 2 ==> r.ema2_type == base.ema2_type && r.ema2_period == base.ema2_period,
        configs@.len() >= 3 ==> r.ema3_type == configs@[2].ma_type && r.ema3_period
            == configs@[2].period,
        configs@.len() < 3 ==> r.ema3_type == base.ema3_type && r.ema3_period == base.ema3_period,
        r.atr_period == base.atr_period && r.atr_multiplier_pct == base.atr_multiplier_pct
            && r.bb_period == base.bb_period && r.ci_period == base.ci_period && r.adx_period
            == base.adx_period && r.rsi_period == base.rsi_period && r.flat_threshold
            == base.flat_threshold && r.turn_threshold == base.turn_threshold && r.macd_narrow
            == base.macd_narrow,
{
    let mut opts: AnalysisOptions = *base;
    if configs.len() >= 1 {
        opts.ema1_type = configs[0].ma_type;
        opts.ema1_period = configs[0].period;
    }
    if configs.len() >= 2 {
        opts.ema2_type = configs[1].ma_type;
        opts.ema2_period = configs[1].period;
    }
    if configs.len() >= 3 {
        opts.ema3_type = configs[2].ma_type;
        opts.ema3_period = configs[2].period;
    }
    opts
}

/// Which crossing drives the simple action rules.
#[derive(Clone, Copy, Debug, PartialEq, Eq, Structural)]
pub enum CutStrategy {
    /// The short average crossing the medium one, with the short direction.
    ShortCut,
    /// The medium average crossing the long one, with the medium direction.
    LongCut,
}

/// The simple action rule: a call while the short average is on top, a put
/// otherwise.
pub open spec fn action_by_simple_spec(results: Seq<AnalysisResult>, index: int) -> Signal {
    if 0 <= index < results.len() {
        match results[index].ema_above {
            EmaAbove::ShortAbove => Signal::Call,
            EmaAbove::MediumAbove => Signal::Put,
        }
    } else {
        Signal::Idle
    }
}

/// Act on the short-over-medium relation of one record.
pub fn get_action_by_simple(results: &Vec<AnalysisResult>, index: usize) -> (r: Signal)
    ensures
        r == action_by_simple_spec(results@, index as int),
{
    if index < results.len() {
        match results[index].ema_above {
            EmaAbove::ShortAbove => Signal::Call,
            EmaAbove::MediumAbove => Signal::Put,
        }
    } else {
        Signal::Idle
    }
}

/// The short-over-medium crossing recorded at one step, reconstructed from
/// the record's current and previous average values.
pub open spec fn short_cut_of(r: AnalysisResult) -> Option<Trend> {
    match (r.previous_ema_short_value, r.previous_ema_medium_value) {
        (Option::Some(ps), Option::Some(pm)) => cut_long_of(
            ps as int,
            pm as int,
            r.ema_short_value as int,
            r.ema_medium_value as int,
        ),
        _ => Option::None,
    }
}

/// The cut action rule: a call on an upward crossing confirmed by the
/// corresponding average still rising, a put on a downward crossing
/// confirmed by it falling, and nothing otherwise.
pub open spec fn action_by_cut_spec(
    results: Seq<AnalysisResult>,
    index: int,
    strategy: CutStrategy,
) -> Signal {
    if 0 <= index < results.len() {
        let rec = results[index];
        let (cut, dir) = match strategy {
            CutStrategy::ShortCut => (short_cut_of(rec), rec.ema_short_direction),
            CutStrategy::LongCut => (rec.ema_cut_long_type, rec.ema_medium_direction),
        };
        if cut == Option::Some(Trend::UpTrend) && dir is Up {
            Signal::Call
        } else if cut == Option::Some(Trend::DownTrend) && dir is Down {
            Signal::Put
        } else {
            Signal::Idle
        }
    } else {
        Signal::Idle
    }
}

/// Act on a crossing of one record, confirmed by the direction of the
/// crossing average.
pub fn get_action_by_cut_type(
    results: &Vec<AnalysisResult>,
    index: usize,
    use_cut_type: CutStrategy,
) -> (r: Signal)
    ensures
        r == action_by_cut_spec(results@, index as int, use_cut_type),
{
    if index >= results.len() {
        return Signal::Idle;
    }
    let rec = &results[index];
    let cut: Option<Trend>;
    let dir: Direction;
    match use_cut_type {
        CutStrategy::ShortCut => {
            cut = match (rec.previous_ema_short_value, rec.previous_ema_medium_value) {
                (Option::Some(ps), Option::Some(pm)) => crate::analysis::cut_long(
                    ps,
                    pm,
                    rec.ema_short_value,
                    rec.ema_medium_value,
                ),
                _ => Option::None,
            };
            dir = rec.ema_short_direction;
        },
        CutStrategy::LongCut => {
            cut = rec.ema_cut_long_type;
            dir = rec.ema_medium_direction;
        },
    }
    let is_up: bool = match cut {
        Option::Some(Trend::UpTrend) => true,
        _ => false,
    };
    let is_down: bool = match cut {
        Option::Some(Trend::DownTrend) => true,
        _ => false,
    };
    if is_up && matches!(dir, Direction::Up) {
        Signal::Call
    } else if is_down && matches!(dir, Direction::Down) {
        Signal::Put
    } else {
        Signal::Idle
    }
}

} // verus!
