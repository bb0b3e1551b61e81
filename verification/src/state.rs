//! Per-symbol market/risk snapshot and the quoting-mode state machine.

use vstd::prelude::*;
use vstd::math::abs;

use crate::constants::{
    AVG_CAP, BOOTSTRAP_LEVELS, BOOTSTRAP_SPREAD_PCT, CAPPED_LEVELS, EMERGENCY_REALIZED_PNL,
    EMERGENCY_TOTAL_PNL, INVENTORY_CAP, MAX_BOOK_MULT, MAX_LADDER_LEVELS, MAX_SIZE_FOR_ORDER,
    MIN_BOOTSTRAP_SAMPLES, MIN_BOOTSTRAP_TRADES, MIN_BOOTSTRAP_VOLUME, MIN_PROFITABLE_SPREAD,
    HORIZON_MS_CAP, NORMAL_LEVELS, NORMAL_SIZE_DECAY, PNL_CAP, PRICE_MAX, QTY_CAP,
    ROLLING_CAPACITY, SCALE, STRESSED_LEVELS, STRESSED_SPREAD_MULT, TARGET_INVENTORY,
    VOL_INPUT_CAP, VOL_STRESS_LIMIT,
};
use crate::num::clamp;
use crate::rolling_price::RollingPrice;
use crate::types::{
    InventoryPosition, InventorySatus, MarketState, PendingOrder, PnL, QuotingMode, Side,
};

verus! {

/// A price the engine accepts: non-negative and within the quotable range.
pub open spec fn price_ok(p: int) -> bool {
    0 <= p <= PRICE_MAX
}

/// Payload bounds a stored quoting mode satisfies.
pub open spec fn mode_wf(m: QuotingMode) -> bool {
    match m {
        QuotingMode::Bootstrap { spread_pct, levels } => 0 <= spread_pct <= 10 * SCALE && levels
            <= MAX_LADDER_LEVELS,
        QuotingMode::Normal { levels, size_decay } => size_decay <= SCALE && levels
            <= MAX_LADDER_LEVELS,
        QuotingMode::Stressed { spread_mult, levels } => 0 <= spread_mult <= 10 * SCALE && levels
            <= MAX_LADDER_LEVELS,
        QuotingMode::InventoryCapped { side, levels } => levels <= MAX_LADDER_LEVELS,
        QuotingMode::Emergency => true,
    }
}

/// Per-instrument market data, inventory, P&L, bootstrap counters, pricing
/// parameters and quoting mode.
#[derive(Debug, Clone)]
pub struct SymbolState {
    pub symbol: u32,
    pub ipo_price: i64,
    pub best_bid: i64,
    pub best_ask: i64,
    pub best_bid_qty: u32,
    pub best_ask_qty: u32,
    pub prev_best_bid: i64,
    pub prev_best_ask: i64,
    pub prev_best_bid_qty: u32,
    pub prev_best_ask_qty: u32,
    pub prev_mid_price: i64,
    pub market_state: MarketState,
    pub rolling_prices: RollingPrice,
    pub inventory: InventoryPosition,
    pub pnl: PnL,
    pub last_volatility_calc: u64,
    pub last_sample_time: u64,
    pub last_management_cycle_time: u64,
    pub risk_aversion: i64,
    pub time_to_terminal: u64,
    pub liquidity_k: i64,
    pub total_trades: u64,
    pub total_volume: u64,
    pub is_bootstrapped: bool,
    pub current_mode: QuotingMode,
    pub prev_mode: QuotingMode,
}

impl SymbolState {
    /// A flat position carries no unrealized P&L.
    pub open spec fn flat_implies_no_unrealized(self) -> bool {
        self.inventory.quantity == 0 ==> self.pnl.unrealized == 0
    }

    /// Well-formedness: prices in range, position and P&L within their caps,
    /// total always the sum of the two legs, and the flat-position invariant.
    pub open spec fn wf(self) -> bool {
        &&& price_ok(self.ipo_price as int)
        &&& price_ok(self.best_bid as int)
        &&& price_ok(self.best_ask as int)
        &&& price_ok(self.prev_best_bid as int)
        &&& price_ok(self.prev_best_ask as int)
        &&& price_ok(self.market_state.mid_price as int)
        &&& price_ok(self.prev_mid_price as int)
        &&& -QTY_CAP <= self.inventory.quantity <= QTY_CAP
        &&& -AVG_CAP <= self.inventory.avg_entry_price <= AVG_CAP
        &&& -PNL_CAP <= self.pnl.realized <= PNL_CAP
        &&& -PNL_CAP <= self.pnl.unrealized <= PNL_CAP
        &&& self.pnl.total == self.pnl.realized + self.pnl.unrealized
        &&& 0 <= self.market_state.volatility <= VOL_INPUT_CAP
        &&& self.rolling_prices.wf()
        &&& self.rolling_prices.capacity > 0
        &&& 0 <= self.risk_aversion <= PRICE_MAX
        &&& 0 <= self.liquidity_k <= PRICE_MAX
        &&& self.time_to_terminal <= HORIZON_MS_CAP
        &&& mode_wf(self.current_mode)
        &&& mode_wf(self.prev_mode)
        &&& self.flat_implies_no_unrealized()
    }

    /// Fresh state of a newly activated symbol: the book is seeded with the
    /// reference price, the position is flat and the mode is Bootstrap.
    pub fn new(ipo_price: i64, symbol: u32, now_ms: u64) -> (r: SymbolState)
        requires
            price_ok(ipo_price as int),
        ensures
            r.symbol == symbol,
            r.ipo_price == ipo_price,
            r.best_bid == ipo_price,
            r.best_ask == ipo_price,
            r.best_bid_qty == 0,
            r.best_ask_qty == 0,
            r.prev_best_bid == 0,
            r.prev_best_ask == 0,
            r.prev_best_bid_qty == 0,
            r.prev_best_ask_qty == 0,
            r.prev_mid_price == ipo_price,
            r.market_state == (MarketState { mid_price: ipo_price, volatility: 0, timestamp: 0 }),
            r.rolling_prices.deque@.len() == 0,
            r.rolling_prices.capacity == ROLLING_CAPACITY,
            r.inventory.quantity == 0,
            r.inventory.avg_entry_price == 0,
            r.pnl.realized == 0 && r.pnl.unrealized == 0 && r.pnl.total == 0,
            r.last_sample_time == now_ms,
            r.last_volatility_calc == now_ms,
            r.last_management_cycle_time == now_ms,
            r.risk_aversion == 0,
            r.time_to_terminal == 0,
            r.liquidity_k == 0,
            r.total_trades == 0,
            r.total_volume == 0,
            !r.is_bootstrapped,
            r.current_mode == (QuotingMode::Bootstrap { spread_pct: 0, levels: 0 }),
            r.prev_mode == (QuotingMode::Bootstrap { spread_pct: 0, levels: 0 }),
            r.wf(),
    {
        SymbolState {
            symbol,
            ipo_price,
            best_bid: ipo_price,
            best_ask: ipo_price,
            best_bid_qty: 0,
            best_ask_qty: 0,
            prev_best_bid: 0,
            prev_best_ask: 0,
            prev_best_bid_qty: 0,
            prev_best_ask_qty: 0,
            prev_mid_price: ipo_price,
            market_state: MarketState { mid_price: ipo_price, volatility: 0, timestamp: 0 },
            rolling_prices: RollingPrice::with_capacity(ROLLING_CAPACITY),
            inventory: InventoryPosition::new(),
            pnl: PnL::new(),
            last_volatility_calc: now_ms,
            last_sample_time: now_ms,
            last_management_cycle_time: now_ms,
            risk_aversion: 0,
            time_to_terminal: 0,
            liquidity_k: 0,
            total_trades: 0,
            total_volume: 0,
            is_bootstrapped: false,
            current_mode: QuotingMode::Bootstrap { spread_pct: 0, levels: 0 },
            prev_mode: QuotingMode::Bootstrap { spread_pct: 0, levels: 0 },
        }
    }

    /// Base order size scaled down by volatility: `max_size / (1 + vol)`,
    /// floored at one unit.
    pub open spec fn spec_base_size(vol: int) -> int
        recommends
            vol >= 0,
    {
        let b = (MAX_SIZE_FOR_ORDER * SCALE) / (SCALE + vol);
        if b < 1 {
            1
        } else {
            b
        }
    }

    /// Inventory deviation relative to the cap, in micro ratio, saturated at
    /// one.
    pub open spec fn spec_inv_ratio(abs_dev: int) -> int
        recommends
            abs_dev >= 0,
    {
        let r = (abs_dev * SCALE) / (INVENTORY_CAP as int);
        if r > SCALE {
            SCALE as int
        } else {
            r
        }
    }

    /// Bid and ask sizes skewed by inventory deviation, before the book-depth
    /// clamp: the side that worsens the deviation shrinks toward zero, the
    /// side that corrects it grows up to twice the base, and a deviation at
    /// or past the cap forces the worsening side to exactly zero. Both sides
    /// are clamped to the configured maximum order size.
    pub open spec fn spec_sizes_unclamped(q: int, vol: int) -> (int, int)
        recommends
            vol >= 0,
    {
        let dev = q - TARGET_INVENTORY;
        let abs_dev = abs(dev) as int;
        let base = Self::spec_base_size(vol);
        let ratio = Self::spec_inv_ratio(abs_dev);
        let risky = (base * (SCALE - ratio)) / (SCALE as int);
        let safe = (base * (SCALE + ratio)) / (SCALE as int);
        let bid0 = if dev >= 0 {
            risky
        } else {
            safe
        };
        let ask0 = if dev >= 0 {
            safe
        } else {
            risky
        };
        let bid1 = if abs_dev >= INVENTORY_CAP && dev > 0 {
            0
        } else {
            bid0
        };
        let ask1 = if abs_dev >= INVENTORY_CAP && dev < 0 {
            0
        } else {
            ask0
        };
        (
            clamp(bid1, 0, MAX_SIZE_FOR_ORDER as int),
            clamp(ask1, 0, MAX_SIZE_FOR_ORDER as int),
        )
    }

    /// Cap one side's size at a multiple of the visible depth on that side;
    /// an empty side leaves the size unchanged.
    pub open spec fn spec_book_cap(size: int, book_qty: int) -> int {
        if book_qty > 0 {
            let cap = if book_qty * MAX_BOOK_MULT < 1 {
                1
            } else {
                book_qty * MAX_BOOK_MULT
            };
            if size < cap {
                size
            } else {
                cap
            }
        } else {
            size
        }
    }

    /// Inventory-skew sizing (both sides), after the book-depth clamp.
    pub open spec fn spec_quote_sizes(self) -> (int, int) {
        let (b, a) = Self::spec_sizes_unclamped(
            self.inventory.quantity as int,
            self.market_state.volatility as int,
        );
        (
            Self::spec_book_cap(b, self.best_bid_qty as int),
            Self::spec_book_cap(a, self.best_ask_qty as int),
        )
    }

    /// Compute the bid and ask sizes to quote, skewed against the inventory
    /// deviation and clamped to the visible book depth.
    #[verifier::rlimit(60)]
    pub fn compute_quote_sizes(&self) -> (r: (u64, u64))
        requires
            self.wf(),
        ensures
            (r.0 as int, r.1 as int) == self.spec_quote_sizes(),
    {
        let q = self.inventory.quantity;
        let vol = self.market_state.volatility;
        let dev_pos = q >= TARGET_INVENTORY;
        let abs_dev: u128 = if q >= TARGET_INVENTORY {
            (q - TARGET_INVENTORY) as u128
        } else {
            ((TARGET_INVENTORY as i128) - (q as i128)) as u128
        };
        assert(abs_dev == abs((q - TARGET_INVENTORY) as int));

        let den: u128 = (SCALE as u128) + (vol as u128);
        assert(den == SCALE + vol as int && den > 0);
        let num: u128 = (MAX_SIZE_FOR_ORDER as u128) * (SCALE as u128);
        let base_raw: u128 = num / den;
        proof {
            vstd::arithmetic::div_mod::lemma_div_is_ordered_by_denominator(
                num as int,
                SCALE as int,
                den as int,
            );
            vstd::arithmetic::div_mod::lemma_div_multiples_vanish(
                MAX_SIZE_FOR_ORDER as int,
                SCALE as int,
            );
            assert(num as int == (SCALE as int) * (MAX_SIZE_FOR_ORDER as int));
            assert(base_raw <= MAX_SIZE_FOR_ORDER);
        }
        let base: u128 = if base_raw < 1 {
            1
        } else {
            base_raw
        };
        assert(base == Self::spec_base_size(vol as int));
        assert(base <= MAX_SIZE_FOR_ORDER);

        let ratio_raw: u128 = (abs_dev * (SCALE as u128)) / (INVENTORY_CAP as u128);
        let ratio: u128 = if ratio_raw > (SCALE as u128) {
            SCALE as u128
        } else {
            ratio_raw
        };
        assert(ratio == Self::spec_inv_ratio(abs_dev as int));

        proof {
            assert(0 <= (base as int) * ((SCALE as int) - (ratio as int)) <= (
            MAX_SIZE_FOR_ORDER as int) * (2 * (SCALE as int)) && 0 <= (base as int) * ((
            SCALE as int) + (ratio as int)) <= (MAX_SIZE_FOR_ORDER as int) * (2 * (
            SCALE as int))) by (nonlinear_arith)
                requires
                    1 <= base as int <= MAX_SIZE_FOR_ORDER as int,
                    0 <= ratio as int <= SCALE as int,
            ;
        }
        let risky: u128 = (base * ((SCALE as u128) - ratio)) / (SCALE as u128);
        let safe: u128 = (base * ((SCALE as u128) + ratio)) / (SCALE as u128);
        proof {
            vstd::arithmetic::mul::lemma_mul_inequality(
                (SCALE as int) - (ratio as int),
                SCALE as int,
                base as int,
            );
            vstd::arithmetic::mul::lemma_mul_inequality(
                (SCALE as int) + (ratio as int),
                2 * (SCALE as int),
                base as int,
            );
            vstd::arithmetic::div_mod::lemma_div_is_ordered(
                (base * ((SCALE as u128) - ratio)) as int,
                (base as int) * (SCALE as int),
                SCALE as int,
            );
            vstd::arithmetic::div_mod::lemma_div_is_ordered(
                (base * ((SCALE as u128) + ratio)) as int,
                2 * (base as int) * (SCALE as int),
                SCALE as int,
            );
            vstd::arithmetic::div_mod::lemma_div_multiples_vanish(base as int, SCALE as int);
            vstd::arithmetic::div_mod::lemma_div_multiples_vanish(
                2 * (base as int),
                SCALE as int,
            );
            assert(risky <= base && safe <= 2 * base);
        }

        let mut bid_size: u128 = if dev_pos {
            risky
        } else {
            safe
        };
        let mut ask_size: u128 = if dev_pos {
            safe
        } else {
            risky
        };

        if abs_dev >= (INVENTORY_CAP as u128) {
            if dev_pos && q != TARGET_INVENTORY {
                bid_size = 0;
            } else if !dev_pos {
                ask_size = 0;
            }
        }

        if bid_size > (MAX_SIZE_FOR_ORDER as u128) {
            bid_size = MAX_SIZE_FOR_ORDER as u128;
        }
        if ask_size > (MAX_SIZE_FOR_ORDER as u128) {
            ask_size = MAX_SIZE_FOR_ORDER as u128;
        }
        assert((bid_size as int, ask_size as int) == Self::spec_sizes_unclamped(
            q as int,
            vol as int,
        ));

        let bid_book: u128 = self.best_bid_qty as u128;
        let ask_book: u128 = self.best_ask_qty as u128;
        if bid_book > 0 {
            let cap = if bid_book * (MAX_BOOK_MULT as u128) < 1 {
                1
            } else {
                bid_book * (MAX_BOOK_MULT as u128)
            };
            if bid_size > cap {
                bid_size = cap;
            }
        }
        if ask_book > 0 {
            let cap = if ask_book * (MAX_BOOK_MULT as u128) < 1 {
                1
            } else {
                ask_book * (MAX_BOOK_MULT as u128)
            };
            if ask_size > cap {
                ask_size = cap;
            }
        }

        (bid_size as u64, ask_size as u64)
    }

    /// The spread is tight: positive mid price and spread below two percent
    /// of it.
    pub open spec fn spec_spread_tight(self) -> bool {
        self.market_state.mid_price > 0 && (self.best_ask - self.best_bid) * 50
            < self.market_state.mid_price
    }

    /// All bootstrap-exit conditions hold: enough inferred trades and volume,
    /// enough rolling samples, a tight spread and resting depth on both
    /// sides.
    pub open spec fn spec_exit_bootstrap(self) -> bool {
        &&& self.total_trades >= MIN_BOOTSTRAP_TRADES
        &&& self.total_volume >= MIN_BOOTSTRAP_VOLUME
        &&& self.rolling_prices.deque@.len() >= MIN_BOOTSTRAP_SAMPLES
        &&& self.spec_spread_tight()
        &&& self.best_bid_qty > 0
        &&& self.best_ask_qty > 0
    }

    /// Decide whether the symbol has seen enough activity to leave Bootstrap
    /// mode; true exactly when every exit condition holds.
    pub fn should_exit_bootstrap(&mut self) -> (r: bool)
        requires
            old(self).wf(),
        ensures
            *final(self) == *old(self),
            r == old(self).spec_exit_bootstrap(),
    {
        let min_trades = self.total_trades >= MIN_BOOTSTRAP_TRADES;
        let min_volume = self.total_volume >= MIN_BOOTSTRAP_VOLUME;
        if !min_trades || !min_volume {
            return false;
        }
        let enough_samples = self.rolling_prices.len() >= MIN_BOOTSTRAP_SAMPLES;
        if !enough_samples {
            return false;
        }
        let current_spread = self.best_ask - self.best_bid;
        let spread_tight = self.market_state.mid_price > 0 && current_spread * 50
            < self.market_state.mid_price;
        if !spread_tight {
            return false;
        }
        let depth_exists = self.best_bid_qty > 0 && self.best_ask_qty > 0;
        if !depth_exists {
            return false;
        }
        true
    }

    /// P&L is past an emergency threshold.
    pub open spec fn spec_emergency(self) -> bool {
        self.pnl.total < EMERGENCY_TOTAL_PNL || self.pnl.realized < EMERGENCY_REALIZED_PNL
    }

    /// The absolute inventory has hit the hard cap.
    pub open spec fn spec_inventory_capped(self) -> bool {
        abs(self.inventory.quantity as int) >= INVENTORY_CAP
    }

    /// Side recorded when inventory is capped: long positions quote asks
    /// only, short (or flat-at-cap) positions quote bids only.
    pub open spec fn spec_capped_side(self) -> InventorySatus {
        if self.inventory.quantity > 0 {
            InventorySatus::Long
        } else {
            InventorySatus::Short
        }
    }

    /// Volatility above the stress limit, or inventory at or past eighty
    /// percent of the cap.
    pub open spec fn spec_stressed(self) -> bool {
        self.market_state.volatility > VOL_STRESS_LIMIT || 5 * abs(self.inventory.quantity as int)
            >= 4 * INVENTORY_CAP
    }

    /// The mode the state machine selects, by priority: Emergency, then
    /// InventoryCapped, then Bootstrap (until the exit conditions hold), then
    /// Stressed, then Normal.
    pub open spec fn spec_next_mode(self) -> QuotingMode {
        if self.spec_emergency() {
            QuotingMode::Emergency
        } else if self.spec_inventory_capped() {
            QuotingMode::InventoryCapped { side: self.spec_capped_side(), levels: CAPPED_LEVELS }
        } else if !self.is_bootstrapped && !self.spec_exit_bootstrap() {
            QuotingMode::Bootstrap { spread_pct: BOOTSTRAP_SPREAD_PCT, levels: BOOTSTRAP_LEVELS }
        } else if self.spec_stressed() {
            QuotingMode::Stressed { spread_mult: STRESSED_SPREAD_MULT, levels: STRESSED_LEVELS }
        } else {
            QuotingMode::Normal { levels: NORMAL_LEVELS, size_decay: NORMAL_SIZE_DECAY }
        }
    }

    /// Re-evaluate the quoting mode. The previous mode is recorded before the
    /// new one is stored, and the bootstrapped flag latches once the exit
    /// conditions have been seen to hold outside Emergency and InventoryCapped.
    pub fn determine_mode(&mut self) -> (r: QuotingMode)
        requires
            old(self).wf(),
        ensures
            r == old(self).spec_next_mode(),
            final(self).current_mode == r,
            final(self).prev_mode == old(self).current_mode,
            final(self).is_bootstrapped == (old(self).is_bootstrapped || (!old(self).spec_emergency() && !old(self).spec_inventory_capped() && old(self).spec_exit_bootstrap())),
            *final(self) == (SymbolState {
                current_mode: final(self).current_mode,
                prev_mode: final(self).prev_mode,
                is_bootstrapped: final(self).is_bootstrapped,
                ..*old(self)
            }),
            final(self).wf(),
    {
        if self.pnl.total < EMERGENCY_TOTAL_PNL || self.pnl.realized < EMERGENCY_REALIZED_PNL {
            self.prev_mode = self.current_mode;
            self.current_mode = QuotingMode::Emergency;
            return QuotingMode::Emergency;
        }

        let inv_abs = crate::num::abs_i64(self.inventory.quantity);
        if inv_abs >= INVENTORY_CAP {
            let side = if self.inventory.quantity > 0 {
                InventorySatus::Long
            } else {
                InventorySatus::Short
            };
            self.prev_mode = self.current_mode;
            self.current_mode = QuotingMode::InventoryCapped { side, levels: CAPPED_LEVELS };
            return QuotingMode::InventoryCapped { side, levels: CAPPED_LEVELS };
        }

        if !self.is_bootstrapped {
            if self.should_exit_bootstrap() {
                self.is_bootstrapped = true;
            } else {
                self.prev_mode = self.current_mode;
                self.current_mode = QuotingMode::Bootstrap {
                    spread_pct: BOOTSTRAP_SPREAD_PCT,
                    levels: BOOTSTRAP_LEVELS,
                };
                return QuotingMode::Bootstrap {
                    spread_pct: BOOTSTRAP_SPREAD_PCT,
                    levels: BOOTSTRAP_LEVELS,
                };
            }
        }

        let is_high_volatility = self.market_state.volatility > VOL_STRESS_LIMIT;
        let is_inventory_warning = 5 * inv_abs >= 4 * INVENTORY_CAP;
        if is_high_volatility || is_inventory_warning {
            self.prev_mode = self.current_mode;
            self.current_mode = QuotingMode::Stressed {
                spread_mult: STRESSED_SPREAD_MULT,
                levels: STRESSED_LEVELS,
            };
            return QuotingMode::Stressed {
                spread_mult: STRESSED_SPREAD_MULT,
                levels: STRESSED_LEVELS,
            };
        }

        self.prev_mode = self.current_mode;
        self.current_mode = QuotingMode::Normal {
            levels: NORMAL_LEVELS,
            size_decay: NORMAL_SIZE_DECAY,
        };
        QuotingMode::Normal { levels: NORMAL_LEVELS, size_decay: NORMAL_SIZE_DECAY }
    }

    /// An order that is no longer worth keeping: a bid above mid or an ask
    /// below mid, an order more than five spreads away from mid, or any order
    /// while the spread is below the profitable minimum.
    pub open spec fn spec_unprofitable(
        order: PendingOrder,
        current_mid: int,
        current_spread: int,
    ) -> bool {
        ||| (order.side == Side::BID && order.price > current_mid)
        ||| (order.side == Side::ASK && order.price < current_mid)
        ||| abs(order.price - current_mid) > 5 * current_spread
        ||| current_spread < MIN_PROFITABLE_SPREAD
    }

    /// Decide whether a resting order should be cancelled for profitability
    /// reasons at the given mid price and spread.
    pub fn should_cancel_unprofitable_order(
        &self,
        order: &PendingOrder,
        current_mid: i64,
        current_spread: i64,
    ) -> (r: bool)
        ensures
            r == Self::spec_unprofitable(*order, current_mid as int, current_spread as int),
    {
        let diff: i128 = (order.price as i128) - (current_mid as i128);
        let distance_from_mid: i128 = if diff < 0 {
            -diff
        } else {
            diff
        };
        if order.side == Side::BID && order.price > current_mid {
            return true;
        }
        if order.side == Side::ASK && order.price < current_mid {
            return true;
        }
        let max_distance: i128 = 5 * (current_spread as i128);
        if distance_from_mid > max_distance {
            return true;
        }
        if current_spread < MIN_PROFITABLE_SPREAD {
            return true;
        }
        false
    }

    /// An order that would grow an already dangerous position: inventory at
    /// or past 85 percent of the cap, and the order buys while long or sells
    /// while short.
    pub open spec fn spec_cancel_due_to_inventory(order: PendingOrder, inventory: int) -> bool {
        &&& 20 * abs(inventory) >= 17 * INVENTORY_CAP
        &&& ((inventory > 0 && order.side == Side::BID) || (inventory < 0 && order.side
            == Side::ASK))
    }

    /// Decide whether a resting order should be cancelled because it would
    /// increase the directional exposure of a nearly capped position.
    pub fn should_cancel_due_to_inventory(&self, order: &PendingOrder, inventory: i64) -> (r: bool)
        ensures
            r == Self::spec_cancel_due_to_inventory(*order, inventory as int),
    {
        let inv_abs: i128 = if inventory < 0 {
            -(inventory as i128)
        } else {
            inventory as i128
        };
        if 20 * inv_abs >= 17 * (INVENTORY_CAP as i128) {
            if inventory > 0 && order.side == Side::BID {
                return true;
            }
            if inventory < 0 && order.side == Side::ASK {
                return true;
            }
        }
        false
    }
}

} // verus!
