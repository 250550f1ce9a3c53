//! Persistence shapes: the trade record sent to the document sink, its
//! document id, and the numbering of lot log files.
//!
//! Timestamps in the record are derived from the contract's start time, so
//! a settlement that is persisted again after a failure reproduces the same
//! record and the same document id.

use vstd::prelude::*;

verus! {

use vstd::string::StrSliceExecFns;
use crate::rulebook::{is_digit, code_val, pow10_spec};

/// The UTC calendar date (`YYYY-MM-DD`) of an epoch second, as rendered by
/// the date library; a function of the epoch alone.
pub uninterp spec fn date_str_of(epoch: u64) -> Seq<char>;

/// The UTC date and time (`YYYY-MM-DDTHH:MM:SS`) of an epoch second, as
/// rendered by the date library; a function of the epoch alone.
pub uninterp spec fn datetime_str_of(epoch: u64) -> Seq<char>;

/// Relies on chrono's `DateTime::from_timestamp` and strftime `%Y-%m-%d`
/// formatting: the UTC date of an in-range epoch second depends on the
/// epoch alone, and its rendering is ten characters.
#[verifier::external_body]
pub fn utc_date_string(epoch: u64) -> (r: String)
    requires
        epoch < 253_402_300_800,
    ensures
        r@ == date_str_of(epoch),
        r@.len() == 10,
{
    chrono::DateTime::<chrono::Utc>::from_timestamp(epoch as i64, 0)
        .unwrap()
        .format("%Y-%m-%d")
        .to_string()
}

/// Relies on chrono's `DateTime::from_timestamp` and strftime
/// `%Y-%m-%dT%H:%M:%S` formatting: the UTC date-time of an in-range epoch
/// second depends on the epoch alone, and its rendering is nineteen
/// characters.
#[verifier::external_body]
pub fn utc_datetime_string(epoch: u64) -> (r: String)
    requires
        epoch < 253_402_300_800,
    ensures
        r@ == datetime_str_of(epoch),
        r@.len() == 19,
{
    chrono::DateTime::<chrono::Utc>::from_timestamp(epoch as i64, 0)
        .unwrap()
        .format("%Y-%m-%dT%H:%M:%S")
        .to_string()
}

/// How a trade ended.
#[derive(Clone, Copy, Debug, PartialEq, Eq, Structural)]
pub enum WinStatus {
    Win,
    Loss,
}

impl WinStatus {
    /// The status's conventional display name.
    pub fn as_str(&self) -> (r: &'static str)
        ensures
            *self is Win ==> r@ == "win"@,
            *self is Loss ==> r@ == "loss"@,
    {
        match self {
            WinStatus::Win => "win",
            WinStatus::Loss => "loss",
        }
    }
}

/// One settled trade, as persisted to the document sink. Money is in cents.
#[derive(Clone, Debug)]
pub struct TradeRecord {
    pub order_no: u32,
    pub contract_id: String,
    pub symbol: String,
    pub trade_type: String,
    pub buy_price: i64,
    pub payout: i64,
    pub profit_loss: i64,
    pub buy_time: u64,
    pub expiry_time: u64,
    pub time_remaining: i64,
    pub min_profit: i64,
    pub max_profit: i64,
    pub status: WinStatus,
    pub entry_spot: i64,
    pub exit_spot: i64,
    pub lot_no: u32,
    pub trade_no_in_lot: u32,
    /// The UTC date of `buy_time`, `YYYY-MM-DD`.
    pub trade_date: String,
    /// The UTC date-time of `buy_time`, `YYYY-MM-DDTHH:MM:SS`.
    pub created_at: String,
}

/// The document id of a settled trade: its date and contract id joined by
/// an underscore.
pub open spec fn doc_id_spec(trade_date: Seq<char>, contract_id: Seq<char>) -> Seq<char> {
    trade_date + seq!['_'] + contract_id
}

/// Build a trade's document id. Equal dates and contract ids give equal
/// ids, so re-persisting a settlement addresses the same document.
pub fn make_doc_id(trade_date: &str, contract_id: &str) -> (r: String)
    ensures
        r@ == doc_id_spec(trade_date@, contract_id@),
{
    proof {
        reveal_strlit("_");
    }
    let mut s: String = String::new();
    s.append(trade_date);
    s.append("_");
    s.append(contract_id);
    proof {
        assert(s@ =~= doc_id_spec(trade_date@, contract_id@));
    }
    s
}

/// The inputs of one settlement that the persisted record is built from.
pub struct SettlementFacts {
    pub order_no: u32,
    pub contract_id: String,
    pub symbol: String,
    pub trade_type: String,
    pub buy_price: i64,
    pub payout: i64,
    pub profit_loss: i64,
    pub buy_time: u64,
    pub expiry_time: u64,
    pub entry_spot: i64,
    pub exit_spot: i64,
    pub lot_no: u32,
    pub trade_no_in_lot: u32,
}

/// Build the persisted record of one settlement. Every field is a function
/// of the settlement facts alone — the timestamps come from the contract's
/// start time — so the same settlement always yields the same record.
pub fn make_trade_record(f: SettlementFacts) -> (r: TradeRecord)
    requires
        f.buy_time < 253_402_300_800,
    ensures
        r.order_no == f.order_no,
        r.contract_id@ == f.contract_id@,
        r.symbol@ == f.symbol@,
        r.trade_type@ == f.trade_type@,
        r.buy_price == f.buy_price,
        r.payout == f.payout,
        r.profit_loss == f.profit_loss,
        r.buy_time == f.buy_time,
        r.expiry_time == f.expiry_time,
        r.time_remaining == 0,
        r.min_profit == f.profit_loss,
        r.max_profit == f.profit_loss,
        r.status == (if f.profit_loss > 0 {
            WinStatus::Win
        } else {
            WinStatus::Loss
        }),
        r.entry_spot == f.entry_spot,
        r.exit_spot == f.exit_spot,
        r.lot_no == f.lot_no,
        r.trade_no_in_lot == f.trade_no_in_lot,
        r.trade_date@ == date_str_of(f.buy_time),
        r.created_at@ == datetime_str_of(f.buy_time),
{
    let status: WinStatus = if f.profit_loss > 0 {
        WinStatus::Win
    } else {
        WinStatus::Loss
    };
    let trade_date: String = utc_date_string(f.buy_time);
    let created_at: String = utc_datetime_string(f.buy_time);
    TradeRecord {
        order_no: f.order_no,
        contract_id: f.contract_id,
        symbol: f.symbol,
        trade_type: f.trade_type,
        buy_price: f.buy_price,
        payout: f.payout,
        profit_loss: f.profit_loss,
        buy_time: f.buy_time,
        expiry_time: f.expiry_time,
        time_remaining: 0,
        min_profit: f.profit_loss,
        max_profit: f.profit_loss,
        status,
        entry_spot: f.entry_spot,
        exit_spot: f.exit_spot,
        lot_no: f.lot_no,
        trade_no_in_lot: f.trade_no_in_lot,
        trade_date,
        created_at,
    }
}

impl TradeRecord {
    /// This record's document id.
    pub fn doc_id(&self) -> (r: String)
        ensures
            r@ == doc_id_spec(self.trade_date@, self.contract_id@),
    {
        make_doc_id(self.trade_date.as_str(), self.contract_id.as_str())
    }
}

/// The greatest of a list of lot numbers, zero for an empty list.
pub open spec fn max_lot_spec(nums: Seq<u32>, t: nat) -> int
    decreases t,
{
    if t == 0 {
        0
    } else {
        let rest = max_lot_spec(nums, (t - 1) as nat);
        if nums[t - 1] as int > rest {
            nums[t - 1] as int
        } else {
            rest
        }
    }
}

/// The number of the next lot log: one more than the greatest existing lot
/// number, so it exceeds every existing one.
pub fn next_lot_no(nums: &Vec<u32>) -> (r: u32)
    requires
        forall|j: int| 0 <= j < nums@.len() ==> #[trigger] nums@[j] < u32::MAX,
    ensures
        r as int == max_lot_spec(nums@, nums@.len()) + 1,
        r >= 1,
        forall|j: int| 0 <= j < nums@.len() ==> #[trigger] nums@[j] < r,
{
    let mut max_lot: u32 = 0;
    let mut t: usize = 0;
    while t < nums.len()
        invariant
            0 <= t <= nums@.len(),
            forall|j: int| 0 <= j < nums@.len() ==> #[trigger] nums@[j] < u32::MAX,
            max_lot as int == max_lot_spec(nums@, t as nat),
            max_lot < u32::MAX,
            forall|j: int| 0 <= j < t ==> #[trigger] nums@[j] <= max_lot,
        decreases nums@.len() - t,
    {
        if nums[t] > max_lot {
            max_lot = nums[t];
        }
        t = t + 1;
    }
    max_lot + 1
}

/// What a lot log file is named: `lot_<number>.json`, where the number is
/// one to nine digits.
pub open spec fn lot_filename_spec(s: Seq<char>) -> Option<u32> {
    if s.len() < 10 {
        Option::None
    } else if s.subrange(0, 4) != seq!['l', 'o', 't', '_'] {
        Option::None
    } else if s.subrange(s.len() - 5, s.len() as int) != seq!['.', 'j', 's', 'o', 'n'] {
        Option::None
    } else {
        let digits = s.subrange(4, s.len() - 5);
        if 1 <= digits.len() <= 9 && (forall|k: int| 0 <= k < digits.len() ==> is_digit(
            #[trigger] digits[k],
        )) {
            Option::Some(code_val(digits, digits.len()) as u32)
        } else {
            Option::None
        }
    }
}

/// Parse a lot log file name, returning its lot number when the name has
/// the `lot_<number>.json` shape.
pub fn parse_lot_filename(s: &str) -> (r: Option<u32>)
    ensures
        r == lot_filename_spec(s@),
{
    let n: usize = s.unicode_len();
    if n < 10 {
        return Option::None;
    }
    if !(s.get_char(0) == 'l' && s.get_char(1) == 'o' && s.get_char(2) == 't' && s.get_char(3)
        == '_') {
        proof {
            assert(s@.subrange(0, 4) != seq!['l', 'o', 't', '_']);
        }
        return Option::None;
    }
    proof {
        assert(s@.subrange(0, 4) =~= seq!['l', 'o', 't', '_']);
    }
    if !(s.get_char(n - 5) == '.' && s.get_char(n - 4) == 'j' && s.get_char(n - 3) == 's'
        && s.get_char(n - 2) == 'o' && s.get_char(n - 1) == 'n') {
        proof {
            assert(s@.subrange(s@.len() - 5, s@.len() as int) != seq!['.', 'j', 's', 'o', 'n']);
        }
        return Option::None;
    }
    proof {
        assert(s@.subrange(s@.len() - 5, s@.len() as int) =~= seq!['.', 'j', 's', 'o', 'n']);
    }
    let ghost digits = s@.subrange(4, s@.len() - 5);
    let len: usize = n - 9;
    if len < 1 || len > 9 {
        return Option::None;
    }
    let mut j: usize = 0;
    let mut val: u32 = 0;
    while j < len
        invariant
            0 <= j <= len,
            1 <= len <= 9,
            len == n - 9,
            n == s@.len(),
            n >= 10,
            digits == s@.subrange(4, s@.len() - 5),
            digits.len() == len,
            forall|k: int| 0 <= k < j ==> is_digit(#[trigger] digits[k]),
            val == code_val(digits, j as nat),
            0 <= val < pow10_spec(j as nat),
        decreases len - j,
    {
        let ch: char = s.get_char(4 + j);
        proof {
            assert(digits[j as int] == s@[4 + j]);
        }
        if !(ch >= '0' && ch <= '9') {
            return Option::None;
        }
        proof {
            crate::records::lemma_pow10_le_9(j as nat);
        }
        let d: u32 = (ch as u32) - ('0' as u32);
        val = val * 10 + d;
        j = j + 1;
    }
    Option::Some(val)
}

/// Ten to a power of at most eight stays below ten to the ninth.
pub proof fn lemma_pow10_le_9(j: nat)
    requires
        j <= 8,
    ensures
        pow10_spec(j) <= 100_000_000,
    decreases j,
{
    reveal_with_fuel(pow10_spec, 11);
    if j > 0 {
        lemma_pow10_le_9((j - 1) as nat);
    }
}

} // verus!
