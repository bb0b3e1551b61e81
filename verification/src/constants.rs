//! Configuration constants of the quoting engine.
//!
//! Prices, spreads and volatilities are expressed in micro units: a value of
//! `SCALE` stands for `1.0`. Quantities (inventory, sizes) are plain unit
//! counts. Times are milliseconds on a monotonic clock supplied by the caller.
//!
//! These values are engine-wide constants by design: the contracts quantify
//! over market data and ledgers, not over the configuration, and making the
//! thresholds per-symbol would thread a configuration value through every
//! public signature. A deployment that needs different values changes them
//! here.

use vstd::prelude::*;

verus! {

/// One whole currency unit (or one whole ratio), in micro units.
pub const SCALE: i64 = 1_000_000;

/// Upper bound on any book or reference price the engine accepts, in micros.
pub const PRICE_MAX: i64 = 1_000_000_000_000;

/// Inventory quantity is clamped to this magnitude so that position
/// arithmetic stays within `i64`.
pub const QTY_CAP: i64 = 1_000_000_000_000_000;

/// Average entry price is clamped to this magnitude (in micros); the blend
/// that recomputes it can leave the ordinary price range when a position
/// crosses through zero.
pub const AVG_CAP: i64 = 1_000_000_000_000_000_000;

/// Realized and unrealized P&L are clamped to this magnitude (in micros) so
/// that totals never overflow `i128`.
pub const PNL_CAP: i128 = 2_000_000_000_000_000_000_000_000_000_000_000;

/// Milliseconds between mid-price samples into the rolling window.
pub const SAMPLE_GAP_MS: u64 = 50;

/// Milliseconds between volatility recomputations.
pub const VOLATILITY_CALC_GAP_MS: u64 = 100;

/// Minimum milliseconds between two requotes of one symbol.
pub const QUOTING_GAP_MS: u64 = 200;

/// Milliseconds between management cycles of one symbol.
pub const CYCLE_GAP_MS: u64 = 250;

/// An active order older than this many milliseconds is force-cancelled.
pub const MAX_ORDER_AGE_MS: u64 = 60_000;

/// Number of mid-price samples the rolling window holds.
pub const ROLLING_CAPACITY: usize = 100;

/// Inventory position (units) the engine targets.
pub const TARGET_INVENTORY: i64 = 0;

/// Largest size (units) of a single quoted order.
pub const MAX_SIZE_FOR_ORDER: u64 = 100;

/// Absolute inventory (units) at which quoting becomes one-sided.
pub const INVENTORY_CAP: i64 = 1000;

/// A quoted size is at most this multiple of the visible best-of-book depth.
pub const MAX_BOOK_MULT: u64 = 2;

/// Price step between adjacent ladder levels, in micros (0.25).
pub const TICK_SIZE: i64 = 250_000;

/// A resting order within this many micros of the target price for its level
/// is kept during reconciliation (0.10).
pub const PRICE_TOLERANCE: i64 = 100_000;

/// Below this spread (micros) no order is considered profitable (0.001).
pub const MIN_PROFITABLE_SPREAD: i64 = 1_000;

/// Below this spread (micros) a depth shock cancels every active order (0.01).
pub const MIN_QUOTABLE_SPREAD: i64 = 10_000;

/// Total P&L (micros) below which the symbol enters Emergency mode (-2000).
pub const EMERGENCY_TOTAL_PNL: i128 = -2_000_000_000;

/// Realized P&L (micros) below which the symbol enters Emergency mode (-1500).
pub const EMERGENCY_REALIZED_PNL: i128 = -1_500_000_000;

/// Volatility (micro ratio) above which quoting is Stressed (0.06).
pub const VOL_STRESS_LIMIT: i64 = 60_000;

/// Largest volatility estimate (micro ratio) the engine stores: one hundred,
/// i.e. 10000 percent. Together with the horizon cap it keeps the pricing
/// model's decimal arithmetic within range.
pub const VOL_INPUT_CAP: i64 = 100_000_000;

/// Largest pricing-model horizon, in milliseconds (about 31 years).
pub const HORIZON_MS_CAP: u64 = 1_000_000_000_000;

/// Spread ratio of the Bootstrap ladder, in micro ratio (0.04).
pub const BOOTSTRAP_SPREAD_PCT: i64 = 40_000;

/// Spread multiplier of the Stressed ladder, in micro ratio (2.0).
pub const STRESSED_SPREAD_MULT: i64 = 2_000_000;

/// Ladder depth per mode.
pub const BOOTSTRAP_LEVELS: usize = 5;

/// Ladder depth of Normal mode.
pub const NORMAL_LEVELS: usize = 10;

/// Ladder depth of Stressed mode.
pub const STRESSED_LEVELS: usize = 5;

/// Ladder depth of InventoryCapped mode.
pub const CAPPED_LEVELS: usize = 10;

/// Geometric per-level size decay of Normal mode, micro ratio (0.85).
pub const NORMAL_SIZE_DECAY: u64 = 850_000;

/// Geometric per-level size decay of the Bootstrap ladder, micro ratio (0.85).
pub const BOOTSTRAP_SIZE_DECAY: u64 = 850_000;

/// Geometric per-level size decay of Stressed mode, micro ratio (0.80).
pub const STRESSED_SIZE_DECAY: u64 = 800_000;

/// Geometric per-level size decay of InventoryCapped mode, micro ratio (0.90).
pub const CAPPED_SIZE_DECAY: u64 = 900_000;

/// Base (innermost-level) size of the Bootstrap ladder, units.
pub const BOOTSTRAP_BASE_SIZE: u64 = 100;

/// Base size of the Stressed ladder, units.
pub const STRESSED_BASE_SIZE: u64 = 50;

/// Base size of the InventoryCapped ladder, units.
pub const CAPPED_BASE_SIZE: u64 = 150;

/// No ladder level is quoted smaller than this size, units.
pub const MIN_LEVEL_SIZE: u64 = 10;

/// Inferred trades needed to leave Bootstrap mode.
pub const MIN_BOOTSTRAP_TRADES: u64 = 20;

/// Inferred traded volume needed to leave Bootstrap mode.
pub const MIN_BOOTSTRAP_VOLUME: u64 = 1000;

/// Rolling samples needed to leave Bootstrap mode.
pub const MIN_BOOTSTRAP_SAMPLES: usize = 20;

/// Largest ladder depth any builder accepts.
pub const MAX_LADDER_LEVELS: usize = 10_000;

} // verus!
