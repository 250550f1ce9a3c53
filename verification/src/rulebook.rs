//! Per-symbol signal rulebooks: each entry names a symbol, two
//! comma-separated lists of status codes (one for calls, one for puts), and
//! an active flag. The lists are parsed here, and a candle's status code is
//! classified against them.

use vstd::prelude::*;

verus! {

use vstd::string::StrSliceExecFns;

/// One raw rulebook entry, as delivered by the configuration file.
#[derive(Debug, Clone)]
pub struct TradeSignalEntry {
    pub id: String,
    pub asset_code: String,
    pub put_signal: String,
    pub call_signal: String,
    /// `"y"` marks an active entry.
    pub is_active: String,
}

/// A parsed rulebook entry: the code lists as numbers, the flag as a bool.
#[derive(Debug, Clone)]
pub struct RulebookEntry {
    pub symbol: String,
    pub call_codes: Vec<u32>,
    pub put_codes: Vec<u32>,
    pub active: bool,
}

pub open spec fn is_digit(c: char) -> bool {
    '0' <= c <= '9'
}

pub open spec fn digit_value(c: char) -> int {
    c as int - '0' as int
}

/// The number denoted by the first `j` characters of a digit string.
pub open spec fn code_val(t: Seq<char>, j: nat) -> int
    decreases j,
{
    if j == 0 {
        0
    } else {
        code_val(t, (j - 1) as nat) * 10 + digit_value(t[j - 1])
    }
}

pub open spec fn pow10_spec(j: nat) -> int
    decreases j,
{
    if j == 0 {
        1
    } else {
        10 * pow10_spec((j - 1) as nat)
    }
}

proof fn lemma_pow10_pos(j: nat)
    ensures
        pow10_spec(j) >= 1,
    decreases j,
{
    if j > 0 {
        lemma_pow10_pos((j - 1) as nat);
    }
}

proof fn lemma_pow10_le(a: nat, b: nat)
    requires
        a <= b,
    ensures
        pow10_spec(a) <= pow10_spec(b),
    decreases b,
{
    if a < b {
        lemma_pow10_le(a, (b - 1) as nat);
        lemma_pow10_pos((b - 1) as nat);
    }
}

/// A code piece is valid when, after trimming, it is one to nine digits.
pub open spec fn valid_code(t: Seq<char>) -> bool {
    &&& 1 <= t.len() <= 9
    &&& forall|k: int| 0 <= k < t.len() ==> is_digit(#[trigger] t[k])
}

/// Strip leading spaces.
pub open spec fn trim_front(s: Seq<char>) -> Seq<char>
    decreases s.len(),
{
    if s.len() > 0 && s[0] == ' ' {
        trim_front(s.subrange(1, s.len() as int))
    } else {
        s
    }
}

/// Strip trailing spaces.
pub open spec fn trim_back(s: Seq<char>) -> Seq<char>
    decreases s.len(),
{
    if s.len() > 0 && s[s.len() - 1] == ' ' {
        trim_back(s.subrange(0, s.len() - 1))
    } else {
        s
    }
}

/// Strip spaces from both ends.
pub open spec fn trim_spec(s: Seq<char>) -> Seq<char> {
    trim_back(trim_front(s))
}

/// Append a finished piece to the accumulated code list: trimmed, and kept
/// only when it is a plain decimal number.
pub open spec fn finalize_spec(acc: Seq<u32>, cur: Seq<char>) -> Seq<u32> {
    let t = trim_spec(cur);
    if valid_code(t) {
        acc.push(code_val(t, t.len()) as u32)
    } else {
        acc
    }
}

/// Scan a comma-separated list left to right, splitting at commas.
pub open spec fn codes_rec(s: Seq<char>, i: nat, cur: Seq<char>, acc: Seq<u32>) -> Seq<u32>
    decreases s.len() - i,
{
    if i >= s.len() {
        finalize_spec(acc, cur)
    } else if s[i as int] == ',' {
        codes_rec(s, i + 1, Seq::empty(), finalize_spec(acc, cur))
    } else {
        codes_rec(s, i + 1, cur.push(s[i as int]), acc)
    }
}

/// The status codes denoted by a comma-separated list: each piece is
/// trimmed of surrounding spaces, and plain decimal pieces become codes.
pub open spec fn codes_spec(s: Seq<char>) -> Seq<u32> {
    codes_rec(s, 0, Seq::empty(), Seq::empty())
}

proof fn lemma_trim_front_at(s: Seq<char>, k: nat)
    requires
        k <= s.len(),
        forall|j: int| 0 <= j < k ==> s[j] == ' ',
        k == s.len() || s[k as int] != ' ',
    ensures
        trim_front(s) == s.subrange(k as int, s.len() as int),
    decreases k,
{
    if k == 0 {
        assert(s.subrange(0, s.len() as int) =~= s);
    } else {
        let s2 = s.subrange(1, s.len() as int);
        lemma_trim_front_at(s2, (k - 1) as nat);
        assert(s2.subrange(k - 1, s2.len() as int) =~= s.subrange(k as int, s.len() as int));
    }
}

proof fn lemma_trim_back_at(s: Seq<char>, k: nat)
    requires
        k <= s.len(),
        forall|j: int| k <= j < s.len() ==> s[j] == ' ',
        k == 0 || s[k - 1] != ' ',
    ensures
        trim_back(s) == s.subrange(0, k as int),
    decreases s.len(),
{
    if k == s.len() {
        if s.len() > 0 {
            assert(s[s.len() - 1] != ' ');
        }
        assert(s.subrange(0, s.len() as int) =~= s);
    } else {
        let s2 = s.subrange(0, s.len() - 1);
        assert(s[s.len() - 1] == ' ');
        lemma_trim_back_at(s2, k);
        assert(s2.subrange(0, k as int) =~= s.subrange(0, k as int));
    }
}

/// Trim, check, and append one finished piece.
fn finalize_into(acc: &mut Vec<u32>, cur: &Vec<char>)
    ensures
        final(acc)@ == finalize_spec(old(acc)@, cur@),
{
    let n: usize = cur.len();
    let mut a: usize = 0;
    while a < n && cur[a] == ' '
        invariant
            0 <= a <= n,
            n == cur@.len(),
            forall|j: int| 0 <= j < a ==> cur@[j] == ' ',
        decreases n - a,
    {
        a = a + 1;
    }
    let mut b: usize = n;
    while b > a && cur[b - 1] == ' '
        invariant
            a <= b <= n,
            n == cur@.len(),
            forall|j: int| 0 <= j < a ==> cur@[j] == ' ',
            forall|j: int| b <= j < n ==> cur@[j] == ' ',
        decreases b,
    {
        b = b - 1;
    }
    let ghost t = trim_spec(cur@);
    proof {
        lemma_trim_front_at(cur@, a as nat);
        let f = cur@.subrange(a as int, n as int);
        if b > a {
            lemma_trim_back_at(f, (b - a) as nat);
        } else {
            lemma_trim_back_at(f, 0);
        }
        assert(f.subrange(0, (b - a) as int) =~= cur@.subrange(a as int, b as int));
        assert(t == cur@.subrange(a as int, b as int));
    }
    // The trimmed piece is cur[a..b].
    let len: usize = b - a;
    if len < 1 || len > 9 {
        proof {
            assert(!valid_code(t));
        }
        return;
    }
    let mut ok: bool = true;
    let mut j: usize = 0;
    let mut val: u32 = 0;
    while j < len
        invariant
            0 <= j <= len,
            len == b - a,
            a <= b <= n,
            n == cur@.len(),
            1 <= len <= 9,
            t == cur@.subrange(a as int, b as int),
            ok ==> (forall|k: int| 0 <= k < j ==> is_digit(#[trigger] t[k])),
            ok ==> val == code_val(t, j as nat),
            ok ==> 0 <= val < pow10_spec(j as nat),
            !ok ==> (exists|k: int| 0 <= k < t.len() && !is_digit(#[trigger] t[k])),
        decreases len - j,
    {
        let ch: char = cur[a + j];
        proof {
            assert(t[j as int] == cur@[a + j]);
        }
        if ch >= '0' && ch <= '9' {
            if ok {
                proof {
                    reveal_with_fuel(pow10_spec, 11);
                    lemma_pow10_le(j as nat, 8);
                }
                let d: u32 = (ch as u32) - ('0' as u32);
                val = val * 10 + d;
            }
        } else {
            ok = false;
        }
        j = j + 1;
    }
    if ok {
        proof {
            assert(valid_code(t));
        }
        acc.push(val);
        proof {
            assert(acc@ =~= finalize_spec(old(acc)@, cur@));
        }
    } else {
        proof {
            assert(!valid_code(t));
        }
    }
}

/// Parse a comma-separated status-code list; spaces around each code are
/// stripped, and pieces that are not plain decimal numbers are dropped.
pub fn parse_signal_codes(s: &str) -> (r: Vec<u32>)
    ensures
        r@ == codes_spec(s@),
{
    let n: usize = s.unicode_len();
    let mut acc: Vec<u32> = Vec::new();
    let mut cur: Vec<char> = Vec::new();
    let mut i: usize = 0;
    while i < n
        invariant
            0 <= i <= n,
            n == s@.len(),
            codes_rec(s@, i as nat, cur@, acc@) == codes_spec(s@),
        decreases n - i,
    {
        let ch: char = s.get_char(i);
        if ch == ',' {
            finalize_into(&mut acc, &cur);
            cur = Vec::new();
        } else {
            cur.push(ch);
        }
        i = i + 1;
    }
    finalize_into(&mut acc, &cur);
    acc
}

/// Parse one rulebook entry: symbol carried over, code lists parsed, the
/// active flag true exactly for `"y"`.
pub fn parse_entry(e: &TradeSignalEntry) -> (r: RulebookEntry)
    ensures
        r.symbol@ == e.asset_code@,
        r.call_codes@ == codes_spec(e.call_signal@),
        r.put_codes@ == codes_spec(e.put_signal@),
        r.active == (e.is_active@ == seq!['y']),
{
    let active: bool = is_active_flag(e.is_active.as_str());
    RulebookEntry {
        symbol: clone_string(&e.asset_code),
        call_codes: parse_signal_codes(e.call_signal.as_str()),
        put_codes: parse_signal_codes(e.put_signal.as_str()),
        active,
    }
}

/// Whether a flag string is the single letter `y`.
fn is_active_flag(s: &str) -> (r: bool)
    ensures
        r == (s@ == seq!['y']),
{
    let n: usize = s.unicode_len();
    if n != 1 {
        proof {
            assert(s@ != seq!['y']);
        }
        return false;
    }
    let c: char = s.get_char(0);
    proof {
        if c == 'y' {
            assert(s@ =~= seq!['y']);
        }
    }
    c == 'y'
}

/// An element-for-element copy of a string.
fn clone_string(s: &String) -> (r: String)
    ensures
        r@ == s@,
{
    let mut r: String = String::new();
    r.append(s.as_str());
    r
}

/// The decision a status code produces against one rulebook entry.
#[derive(Clone, Copy, Debug, PartialEq, Eq, Structural)]
pub enum Signal {
    Call,
    Put,
    Idle,
}

impl Signal {
    /// The signal's conventional display name.
    pub fn as_str(&self) -> (r: &'static str)
        ensures
            *self is Call ==> r@ == "call"@,
            *self is Put ==> r@ == "put"@,
            *self is Idle ==> r@ == "idle"@,
    {
        match self {
            Signal::Call => "call",
            Signal::Put => "put",
            Signal::Idle => "idle",
        }
    }
}

/// The classification rule: a code in the call list is a call; otherwise a
/// code in the put list is a put; anything else is idle.
pub open spec fn classify_spec(code: Option<u32>, call: Seq<u32>, put: Seq<u32>) -> Signal {
    match code {
        Option::None => Signal::Idle,
        Option::Some(c) => if call.contains(c) {
            Signal::Call
        } else if put.contains(c) {
            Signal::Put
        } else {
            Signal::Idle
        },
    }
}

fn vec_contains(v: &Vec<u32>, x: u32) -> (r: bool)
    ensures
        r == v@.contains(x),
{
    let mut i: usize = 0;
    while i < v.len()
        invariant
            0 <= i <= v@.len(),
            forall|j: int| 0 <= j < i ==> v@[j] != x,
        decreases v@.len() - i,
    {
        if v[i] == x {
            return true;
        }
        i = i + 1;
    }
    proof {
        assert(!v@.contains(x));
    }
    false
}

/// Classify a candle's status code against one rulebook entry's code lists.
/// The call list takes precedence over the put list.
pub fn classify(code: Option<u32>, call_codes: &Vec<u32>, put_codes: &Vec<u32>) -> (r: Signal)
    ensures
        r == classify_spec(code, call_codes@, put_codes@),
{
    match code {
        Option::None => Signal::Idle,
        Option::Some(c) => {
            if vec_contains(call_codes, c) {
                Signal::Call
            } else if vec_contains(put_codes, c) {
                Signal::Put
            } else {
                Signal::Idle
            }
        },
    }
}

} // verus!
