//! Configuration shapes of the periodic market scanner, which ranks symbols
//! by trend strength. The scanner itself is an external collaborator; only
//! its configuration is modeled here.

use vstd::prelude::*;

verus! {

/// One scanned symbol: its wire symbol and display name.
#[derive(Debug, Clone)]
pub struct AssetConfig {
    pub symbol: String,
    pub name: String,
}

/// How a scanning session runs.
#[derive(Debug, Clone)]
pub struct ScanConfig {
    /// Seconds between scans.
    pub interval_seconds: u64,
    /// Candle granularity in seconds.
    pub candle_timeframe: u64,
    /// Indicator period for the trend measures.
    pub indicator_period: usize,
    /// Stop time in ISO form; absent to run until stopped.
    pub stop_time: Option<String>,
    /// Whether scan results are persisted to the document sink.
    pub save_to_firestore: bool,
    /// The symbols to scan.
    pub assets: Vec<AssetConfig>,
}

/// The default of the persistence flag: results are persisted unless the
/// configuration says otherwise.
pub fn default_true() -> (r: bool)
    ensures
        r,
{
    true
}

} // verus!
