//! Money management of one trading lot: stake sizing under the fixed and
//! Martingale policies, the decision gate, and settlement accounting with
//! the lot's stop conditions.
//!
//! All money is in integer cents.

use vstd::prelude::*;

verus! {

use crate::rulebook::Signal;

/// How many rungs the Martingale ladder has.
pub const LADDER_LEN: usize = 9;

/// The fixed Martingale stake ladder, in cents.
pub open spec fn ladder_spec(idx: nat) -> int {
    if idx == 0 {
        100
    } else if idx == 1 {
        200
    } else if idx == 2 {
        600
    } else if idx == 3 {
        1800
    } else if idx == 4 {
        5400
    } else if idx == 5 {
        16200
    } else if idx == 6 {
        38400
    } else if idx == 7 {
        80000
    } else {
        160000
    }
}

/// The stake at one rung of the Martingale ladder.
pub fn martingale_stake(idx: usize) -> (r: i64)
    requires
        idx < LADDER_LEN,
    ensures
        r == ladder_spec(idx as nat),
        100 <= r <= 160000,
{
    if idx == 0 {
        100
    } else if idx == 1 {
        200
    } else if idx == 2 {
        600
    } else if idx == 3 {
        1800
    } else if idx == 4 {
        5400
    } else if idx == 5 {
        16200
    } else if idx == 6 {
        38400
    } else if idx == 7 {
        80000
    } else {
        160000
    }
}

/// The two money-management policies a lot can run under.
#[derive(Clone, Copy, Debug, PartialEq, Eq, Structural)]
pub enum MoneyMode {
    Fix,
    Martingale,
}

/// The immutable targets of one lot.
#[derive(Clone, Copy, Debug, PartialEq, Eq, Structural)]
pub struct LotConfig {
    pub mode: MoneyMode,
    /// The stake of every trade in fixed mode, in cents.
    pub initial_stake: i64,
    /// Fixed mode stops once the lot's profit reaches this, in cents.
    pub target_profit: i64,
    /// Martingale mode stops once this many trades have won.
    pub target_win: u32,
}

impl LotConfig {
    pub open spec fn valid(self) -> bool {
        &&& 0 < self.initial_stake <= 1_000_000_000
        &&& 0 < self.target_profit
        &&& 0 < self.target_win
    }
}

/// The mutable state of one lot: account totals and the per-symbol ladder
/// positions.
#[derive(Clone, Debug)]
pub struct LotState {
    /// The account balance, in cents.
    pub balance: i64,
    /// The lot's accumulated profit, in cents.
    pub grand_profit: i64,
    pub win_count: u32,
    pub trade_count: u32,
    pub lot_active: bool,
    /// One Martingale ladder position per traded symbol.
    pub stake_index: Vec<usize>,
}

impl LotState {
    /// Every ladder position stays on the ladder.
    pub open spec fn inv(self) -> bool {
        forall|j: int| 0 <= j < self.stake_index@.len() ==> #[trigger] self.stake_index@[j]
            < LADDER_LEN
    }

    /// A fresh, active lot over `n_assets` symbols.
    pub fn new_lot(n_assets: usize, balance: i64) -> (r: LotState)
        ensures
            r.inv(),
            r.balance == balance,
            r.grand_profit == 0,
            r.win_count == 0,
            r.trade_count == 0,
            r.lot_active,
            r.stake_index@.len() == n_assets,
            forall|j: int| 0 <= j < n_assets ==> #[trigger] r.stake_index@[j] == 0,
    {
        let mut idx: Vec<usize> = Vec::new();
        let mut k: usize = 0;
        while k < n_assets
            invariant
                0 <= k <= n_assets,
                idx@.len() == k,
                forall|j: int| 0 <= j < k ==> #[trigger] idx@[j] == 0,
            decreases n_assets - k,
        {
            idx.push(0);
            k = k + 1;
        }
        LotState {
            balance,
            grand_profit: 0,
            win_count: 0,
            trade_count: 0,
            lot_active: true,
            stake_index: idx,
        }
    }

    /// What the next trade on `asset` would stake: the configured stake in
    /// fixed mode, the symbol's ladder rung in Martingale mode.
    pub open spec fn stake_spec(self, cfg: LotConfig, asset: int) -> int {
        match cfg.mode {
            MoneyMode::Fix => cfg.initial_stake as int,
            MoneyMode::Martingale => ladder_spec(self.stake_index@[asset] as nat),
        }
    }

    /// Compute the next stake for `asset`.
    pub fn stake_for(&self, cfg: &LotConfig, asset: usize) -> (r: i64)
        requires
            self.inv(),
            cfg.valid(),
            asset < self.stake_index@.len(),
        ensures
            r == self.stake_spec(*cfg, asset as int),
            0 < r <= 1_000_000_000,
    {
        match cfg.mode {
            MoneyMode::Fix => cfg.initial_stake,
            MoneyMode::Martingale => martingale_stake(self.stake_index[asset]),
        }
    }
}

/// What the decision pass does for one symbol's signal.
#[derive(Clone, Copy, Debug, PartialEq, Eq, Structural)]
pub enum TradeDecision {
    /// Dispatch a call order with the given stake, in cents.
    BuyCall(i64),
    /// Dispatch a put order with the given stake, in cents.
    BuyPut(i64),
    /// No matching signal, or the lot is no longer active.
    Idle,
    /// The signal matched but the balance cannot cover the stake.
    InsufficientBalance,
}

/// The decision rule: nothing is dispatched while the lot is inactive or
/// the signal is idle; a matching signal is dispatched at the policy's
/// stake when the balance covers it, and reported otherwise.
pub open spec fn decide_spec(s: LotState, cfg: LotConfig, asset: int, signal: Signal) -> TradeDecision {
    if !s.lot_active || signal is Idle {
        TradeDecision::Idle
    } else {
        let stake = s.stake_spec(cfg, asset);
        if s.balance >= stake {
            if signal is Call {
                TradeDecision::BuyCall(stake as i64)
            } else {
                TradeDecision::BuyPut(stake as i64)
            }
        } else {
            TradeDecision::InsufficientBalance
        }
    }
}

impl LotState {
    /// Decide what to do for one symbol at the minute boundary.
    pub fn decide(&self, cfg: &LotConfig, asset: usize, signal: Signal) -> (r: TradeDecision)
        requires
            self.inv(),
            cfg.valid(),
            asset < self.stake_index@.len(),
        ensures
            r == decide_spec(*self, *cfg, asset as int, signal),
            !self.lot_active ==> r is Idle,
    {
        if !self.lot_active {
            return TradeDecision::Idle;
        }
        match signal {
            Signal::Idle => TradeDecision::Idle,
            Signal::Call => {
                let stake = self.stake_for(cfg, asset);
                if self.balance >= stake {
                    TradeDecision::BuyCall(stake)
                } else {
                    TradeDecision::InsufficientBalance
                }
            },
            Signal::Put => {
                let stake = self.stake_for(cfg, asset);
                if self.balance >= stake {
                    TradeDecision::BuyPut(stake)
                } else {
                    TradeDecision::InsufficientBalance
                }
            },
        }
    }
}

/// Whether a lot's stop condition holds at the given totals: the profit
/// target in fixed mode, the win-count target in Martingale mode.
pub open spec fn stop_condition(cfg: LotConfig, grand_profit: int, win_count: int) -> bool {
    match cfg.mode {
        MoneyMode::Fix => grand_profit >= cfg.target_profit,
        MoneyMode::Martingale => win_count >= cfg.target_win,
    }
}

/// What one settlement reported.
#[derive(Clone, Copy, Debug, PartialEq, Eq, Structural)]
pub struct SettleReport {
    /// The trade won (its profit is positive).
    pub is_win: bool,
    /// The lot's stop condition now holds; the lot has been deactivated.
    pub stop: bool,
}

impl LotState {
    /// Settle one finished contract on `asset` with the given profit (in
    /// cents, negative for a loss).
    ///
    /// The balance and the lot profit absorb the profit exactly. A win
    /// resets the symbol's ladder; a Martingale loss climbs one rung,
    /// saturating at the top; fixed mode never moves the ladder. The stop
    /// condition is evaluated on the new totals, and deactivates the lot
    /// the moment it first holds.
    pub fn settle(&mut self, cfg: &LotConfig, asset: usize, profit: i64) -> (r: SettleReport)
        requires
            old(self).inv(),
            cfg.valid(),
            asset < old(self).stake_index@.len(),
            -0x2000_0000_0000_0000 < old(self).balance + profit < 0x2000_0000_0000_0000,
            -0x2000_0000_0000_0000 < old(self).grand_profit + profit < 0x2000_0000_0000_0000,
        ensures
            final(self).inv(),
            final(self).balance == old(self).balance + profit,
            final(self).grand_profit == old(self).grand_profit + profit,
            r.is_win == (profit > 0),
            final(self).win_count == (if profit > 0 && old(self).win_count < u32::MAX {
                old(self).win_count + 1
            } else {
                old(self).win_count as int
            }),
            final(self).trade_count == (if old(self).trade_count < u32::MAX {
                old(self).trade_count + 1
            } else {
                old(self).trade_count as int
            }),
            final(self).stake_index@ == old(self).stake_index@.update(
                asset as int,
                (if profit > 0 {
                    0usize
                } else if cfg.mode is Martingale {
                    if old(self).stake_index@[asset as int] + 1 < LADDER_LEN {
                        (old(self).stake_index@[asset as int] + 1) as usize
                    } else {
                        (LADDER_LEN - 1) as usize
                    }
                } else {
                    old(self).stake_index@[asset as int]
                }),
            ),
            final(self).stake_index@[asset as int] < LADDER_LEN,
            profit > 0 ==> final(self).stake_index@[asset as int] == 0,
            r.stop == stop_condition(*cfg, final(self).grand_profit as int, final(self).win_count as int),
            final(self).lot_active == (old(self).lot_active && !r.stop),
    {
        let is_win: bool = profit > 0;
        self.balance = self.balance + profit;
        self.grand_profit = self.grand_profit + profit;
        if is_win && self.win_count < u32::MAX {
            self.win_count = self.win_count + 1;
        }
        if self.trade_count < u32::MAX {
            self.trade_count = self.trade_count + 1;
        }
        let new_idx: usize;
        if is_win {
            new_idx = 0;
        } else {
            match cfg.mode {
                MoneyMode::Martingale => {
                    let cur: usize = self.stake_index[asset];
                    if cur + 1 < LADDER_LEN {
                        new_idx = cur + 1;
                    } else {
                        new_idx = LADDER_LEN - 1;
                    }
                },
                MoneyMode::Fix => {
                    new_idx = self.stake_index[asset];
                },
            }
        }
        self.stake_index.set(asset, new_idx);
        let stop: bool;
        match cfg.mode {
            MoneyMode::Fix => {
                stop = self.grand_profit >= cfg.target_profit;
            },
            MoneyMode::Martingale => {
                stop = self.win_count >= cfg.target_win;
            },
        }
        if stop {
            self.lot_active = false;
        }
        SettleReport { is_win, stop }
    }
}

/// Once a lot is inactive — as a settlement leaves it the moment its stop
/// condition first holds — every later decision is idle, so no further
/// trade is dispatched: the session stops within one settlement of its stop
/// condition first holding.
pub proof fn lemma_stop_halts_dispatch(s: LotState, cfg: LotConfig, asset: int, signal: Signal)
    requires
        !s.lot_active,
    ensures
        decide_spec(s, cfg, asset, signal) is Idle,
{
}

/// The ladder never leaves its range, and any win puts the traded symbol
/// back at the bottom rung: immediate from the settlement contract and the
/// lot invariant.
pub proof fn lemma_ladder_law(s0: LotState, s1: LotState, cfg: LotConfig, asset: int, profit: int)
    requires
        s0.inv(),
        0 <= asset < s0.stake_index@.len(),
        s1.stake_index@ == s0.stake_index@.update(
            asset,
            (if profit > 0 {
                0usize
            } else if cfg.mode is Martingale {
                if s0.stake_index@[asset] + 1 < LADDER_LEN {
                    (s0.stake_index@[asset] + 1) as usize
                } else {
                    (LADDER_LEN - 1) as usize
                }
            } else {
                s0.stake_index@[asset]
            }),
        ),
    ensures
        s1.inv(),
        forall|j: int| 0 <= j < s1.stake_index@.len() ==> #[trigger] s1.stake_index@[j]
            < LADDER_LEN,
        profit > 0 ==> s1.stake_index@[asset] == 0,
{
    assert forall|j: int| 0 <= j < s1.stake_index@.len() implies #[trigger] s1.stake_index@[j]
        < LADDER_LEN by {
        if j != asset {
            assert(s1.stake_index@[j] == s0.stake_index@[j]);
        }
    }
}

} // verus!
