//! Per-symbol context: state plus order ledger, ladder construction, the
//! requote decision and incremental reconciliation.

use vstd::prelude::*;
use vstd::math::abs;

use crate::constants::{
    BOOTSTRAP_BASE_SIZE, BOOTSTRAP_SIZE_DECAY, CAPPED_BASE_SIZE, CAPPED_SIZE_DECAY,
    MAX_LADDER_LEVELS, MAX_ORDER_AGE_MS, MIN_LEVEL_SIZE, PRICE_MAX, PRICE_TOLERANCE,
    QUOTING_GAP_MS, SCALE, STRESSED_BASE_SIZE, STRESSED_SIZE_DECAY, TICK_SIZE,
};
use crate::model::{model_quotes, optimal_quotes};
use crate::num::{div_trunc, div_trunc_i128, elapsed_ms};
use crate::state::SymbolState;
use crate::types::{
    CancelData, InventorySatus, MarketState, MmError, OrderState, PendingOrder, PostData,
    QuoteLadder, QuoteLevel, QuotingMode, Side, SymbolOrders,
};

verus! {

/// Geometric decay multiplier after `level` steps, in micro ratio: one at
/// level zero, then multiplied by `decay` (micro ratio) with truncation at
/// each step.
pub open spec fn decay_mult(decay: int, level: nat) -> int
    decreases level,
{
    if level == 0 {
        SCALE as int
    } else {
        (decay_mult(decay, (level - 1) as nat) * decay) / (SCALE as int)
    }
}

/// A decay multiplier stays a ratio: between zero and one.
pub proof fn lemma_decay_mult_bounds(decay: int, level: nat)
    requires
        0 <= decay <= SCALE,
    ensures
        0 <= decay_mult(decay, level) <= SCALE,
    decreases level,
{
    if level > 0 {
        lemma_decay_mult_bounds(decay, (level - 1) as nat);
        let m = decay_mult(decay, (level - 1) as nat);
        vstd::arithmetic::mul::lemma_mul_upper_bound(m, SCALE as int, decay, SCALE as int);
        vstd::arithmetic::mul::lemma_mul_nonnegative(m, decay);
        vstd::arithmetic::div_mod::lemma_div_is_ordered(
            m * decay,
            (SCALE as int) * (SCALE as int),
            SCALE as int,
        );
        vstd::arithmetic::div_mod::lemma_div_multiples_vanish(SCALE as int, SCALE as int);
        vstd::arithmetic::div_mod::lemma_div_is_ordered(0, m * decay, SCALE as int);
    }
}

/// Quoted size for a decay multiplier `m`: the base size scaled by `m`,
/// floored at the minimum level size.
pub open spec fn size_from_mult(base: int, m: int) -> int {
    let s = (base * m) / (SCALE as int);
    if s < MIN_LEVEL_SIZE {
        MIN_LEVEL_SIZE as int
    } else {
        s
    }
}

/// Quoted size at a ladder level.
pub open spec fn level_size(base: int, decay: int, level: nat) -> int {
    size_from_mult(base, decay_mult(decay, level))
}

/// One side of a target ladder: `levels` entries, the entry at index `i`
/// priced one tick per level away from the center (outward in direction
/// `sign`: -1 for bids, 1 for asks), sized by geometric decay, and numbered
/// by its level.
pub open spec fn is_ladder_side(
    s: Seq<QuoteLevel>,
    center: int,
    sign: int,
    base: int,
    decay: int,
    levels: int,
) -> bool {
    &&& s.len() == levels
    &&& forall|i: int|
        0 <= i < levels ==> {
            &&& (#[trigger] s[i]).price == center + sign * TICK_SIZE * i
            &&& s[i].size == level_size(base, decay, i as nat)
            &&& s[i].level_number == i
        }
}

/// Advance a decay multiplier by one level.
fn decay_step(m: u64, decay: u64) -> (r: u64)
    requires
        m <= SCALE,
        decay <= SCALE,
    ensures
        r == (m * decay) / (SCALE as int),
        r <= SCALE,
{
    proof {
        vstd::arithmetic::mul::lemma_mul_upper_bound(
            m as int,
            SCALE as int,
            decay as int,
            SCALE as int,
        );
        vstd::arithmetic::div_mod::lemma_div_is_ordered(
            (m as int) * (decay as int),
            (SCALE as int) * (SCALE as int),
            SCALE as int,
        );
        vstd::arithmetic::div_mod::lemma_div_multiples_vanish(SCALE as int, SCALE as int);
    }
    (m * decay) / (SCALE as u64)
}

/// Size of one level given the current decay multiplier.
fn sized_level(base: u64, m: u64) -> (r: u32)
    requires
        base <= 100_000,
        m <= SCALE,
    ensures
        r == size_from_mult(base as int, m as int),
{
    proof {
        vstd::arithmetic::mul::lemma_mul_upper_bound(base as int, 100_000, m as int, SCALE as int);
        vstd::arithmetic::mul::lemma_mul_inequality(m as int, SCALE as int, base as int);
        vstd::arithmetic::div_mod::lemma_div_is_ordered(
            (base as int) * (m as int),
            (base as int) * (SCALE as int),
            SCALE as int,
        );
        vstd::arithmetic::div_mod::lemma_div_multiples_vanish(base as int, SCALE as int);
        vstd::arithmetic::mul::lemma_mul_nonnegative(base as int, m as int);
        vstd::arithmetic::div_mod::lemma_div_is_ordered(0, (base as int) * (m as int), SCALE as int);
    }
    let s = (base * m) / (SCALE as u64);
    if s < MIN_LEVEL_SIZE {
        MIN_LEVEL_SIZE as u32
    } else {
        s as u32
    }
}

/// Build one side of a target ladder by stepping a tick outward per level and
/// decaying the size geometrically.
fn build_ladder_side(center: i64, is_bid: bool, base: u64, decay: u64, levels: usize) -> (r: Vec<
    QuoteLevel,
>)
    requires
        -100 * PRICE_MAX <= center <= 100 * PRICE_MAX,
        base <= 100_000,
        decay <= SCALE,
        levels <= MAX_LADDER_LEVELS,
    ensures
        is_ladder_side(
            r@,
            center as int,
            if is_bid {
                -1
            } else {
                1
            },
            base as int,
            decay as int,
            levels as int,
        ),
{
    let ghost sign: int = if is_bid {
        -1
    } else {
        1
    };
    let mut side: Vec<QuoteLevel> = Vec::new();
    let mut m: u64 = SCALE as u64;
    let mut i: usize = 0;
    while i < levels
        invariant
            i <= levels,
            levels <= MAX_LADDER_LEVELS,
            -100 * PRICE_MAX <= center <= 100 * PRICE_MAX,
            base <= 100_000,
            decay <= SCALE,
            m == decay_mult(decay as int, i as nat),
            0 <= m <= SCALE,
            sign == if is_bid {
                -1int
            } else {
                1int
            },
            side@.len() == i,
            forall|k: int|
                0 <= k < i ==> {
                    &&& (#[trigger] side@[k]).price == center + sign * TICK_SIZE * k
                    &&& side@[k].size == level_size(base as int, decay as int, k as nat)
                    &&& side@[k].level_number == k
                },
        decreases levels - i,
    {
        let offset: i64 = TICK_SIZE * (i as i64);
        let price: i64 = if is_bid {
            center - offset
        } else {
            center + offset
        };
        let size: u32 = sized_level(base, m);
        side.push(QuoteLevel { price, size, level_number: i });
        proof {
            vstd::arithmetic::mul::lemma_mul_is_associative(sign, TICK_SIZE as int, i as int);
            assert(sign * (TICK_SIZE * (i as int)) == if is_bid {
                -(TICK_SIZE * (i as int))
            } else {
                TICK_SIZE * (i as int)
            }) by {
                vstd::arithmetic::mul::lemma_mul_unary_negation(1, TICK_SIZE * (i as int));
            }
            assert(side@[i as int].price == center + sign * TICK_SIZE * (i as int));
        }
        let next_m = decay_step(m, decay);
        proof {
            lemma_decay_mult_bounds(decay as int, (i + 1) as nat);
        }
        m = next_m;
        i = i + 1;
    }
    side
}

/// Bid and ask centers of the Bootstrap ladder: the reference price offset by
/// half of `spread_pct` of itself.
pub open spec fn spec_bootstrap_centers(ipo: int, spread_pct: int) -> (int, int) {
    let half = (ipo * spread_pct) / (2 * SCALE);
    (ipo - half, ipo + half)
}

/// Model quotes for the current state of a symbol.
pub open spec fn spec_model_quotes(st: SymbolState) -> Option<(i64, i64)> {
    model_quotes(
        st.market_state.mid_price,
        st.inventory.quantity,
        st.risk_aversion,
        st.market_state.volatility,
        st.time_to_terminal,
        st.liquidity_k,
    )
}

/// Quotes the engine can build a ladder on: ordered and within the price
/// range.
pub open spec fn quotes_ok(q: (i64, i64)) -> bool {
    0 <= q.0 <= q.1 <= PRICE_MAX
}

/// Bid and ask centers of the Stressed ladder: the model quotes pushed apart
/// by half of `(spread_mult - 1)` of their spread on each side.
pub open spec fn spec_stressed_centers(q: (i64, i64), spread_mult: int) -> (int, int) {
    let spread = q.1 - q.0;
    let extra = div_trunc(spread * (spread_mult - SCALE), 2 * SCALE);
    (q.0 - extra, q.1 + extra)
}

/// One instrument's full context: market/risk state plus the order ledger.
#[derive(Debug)]
pub struct SymbolContext {
    pub state: SymbolState,
    pub orders: SymbolOrders,
}

impl SymbolContext {
    /// Both halves well formed and keyed by the same symbol.
    pub open spec fn wf(self) -> bool {
        &&& self.state.wf()
        &&& self.orders.wf()
        &&& self.state.symbol == self.orders.symbol
    }

    /// Fresh context of a newly activated symbol.
    pub fn new(ipo_price: i64, symbol: u32, now_ms: u64) -> (r: SymbolContext)
        requires
            crate::state::price_ok(ipo_price as int),
        ensures
            r.state.symbol == symbol,
            r.state.ipo_price == ipo_price,
            r.state.best_bid == ipo_price,
            r.state.best_ask == ipo_price,
            r.state.best_bid_qty == 0 && r.state.best_ask_qty == 0,
            r.state.prev_best_bid == 0 && r.state.prev_best_ask == 0,
            r.state.prev_best_bid_qty == 0 && r.state.prev_best_ask_qty == 0,
            r.state.prev_mid_price == ipo_price,
            r.state.market_state == (MarketState {
                mid_price: ipo_price,
                volatility: 0,
                timestamp: 0,
            }),
            r.state.rolling_prices.deque@.len() == 0,
            r.state.rolling_prices.capacity == crate::constants::ROLLING_CAPACITY,
            r.state.inventory.quantity == 0 && r.state.inventory.avg_entry_price == 0,
            r.state.pnl.realized == 0 && r.state.pnl.unrealized == 0 && r.state.pnl.total == 0,
            r.state.last_sample_time == now_ms,
            r.state.last_volatility_calc == now_ms,
            r.state.last_management_cycle_time == now_ms,
            r.state.risk_aversion == 0 && r.state.time_to_terminal == 0 && r.state.liquidity_k
                == 0,
            r.state.total_trades == 0 && r.state.total_volume == 0,
            !r.state.is_bootstrapped,
            r.state.current_mode == (QuotingMode::Bootstrap { spread_pct: 0, levels: 0 }),
            r.state.prev_mode == (QuotingMode::Bootstrap { spread_pct: 0, levels: 0 }),
            r.orders.symbol == symbol,
            r.orders.pending_orders@.len() == 0,
            r.orders.next_client_id == 1,
            r.orders.last_quote_time == 0,
            r.wf(),
    {
        SymbolContext {
            state: SymbolState::new(ipo_price, symbol, now_ms),
            orders: SymbolOrders::new(symbol),
        }
    }

    /// Build the Bootstrap ladder: both sides centered on the reference
    /// price, never on the live mid, with fixed base size and decay.
    pub fn build_bootstrap_ladder(&self, spread_pct: i64, levels: usize) -> (r: Result<
        QuoteLadder,
        MmError,
    >)
        requires
            self.state.wf(),
            0 <= spread_pct <= 10 * SCALE,
            levels <= MAX_LADDER_LEVELS,
        ensures
            r matches Ok(l) && {
                let c = spec_bootstrap_centers(self.state.ipo_price as int, spread_pct as int);
                &&& is_ladder_side(
                    l.bids@,
                    c.0,
                    -1,
                    BOOTSTRAP_BASE_SIZE as int,
                    BOOTSTRAP_SIZE_DECAY as int,
                    levels as int,
                )
                &&& is_ladder_side(
                    l.asks@,
                    c.1,
                    1,
                    BOOTSTRAP_BASE_SIZE as int,
                    BOOTSTRAP_SIZE_DECAY as int,
                    levels as int,
                )
            },
    {
        proof {
            vstd::arithmetic::mul::lemma_mul_nonnegative(
                self.state.ipo_price as int,
                spread_pct as int,
            );
            vstd::arithmetic::mul::lemma_mul_upper_bound(
                self.state.ipo_price as int,
                PRICE_MAX as int,
                spread_pct as int,
                10 * SCALE,
            );
        }
        let num: i128 = (self.state.ipo_price as i128) * (spread_pct as i128);
        proof {
            vstd::arithmetic::div_mod::lemma_div_is_ordered(
                num as int,
                (PRICE_MAX as int) * (10 * SCALE),
                2 * SCALE,
            );
            vstd::arithmetic::div_mod::lemma_div_is_ordered(0, num as int, 2 * SCALE);
        }
        let half128: i128 = div_trunc_i128(num, 2 * (SCALE as i128));
        let half: i64 = half128 as i64;
        assert(half == (self.state.ipo_price as int) * (spread_pct as int) / (2 * SCALE));
        let center_bid = self.state.ipo_price - half;
        let center_ask = self.state.ipo_price + half;
        let bids = build_ladder_side(center_bid, true, BOOTSTRAP_BASE_SIZE, BOOTSTRAP_SIZE_DECAY, levels);
        let asks = build_ladder_side(center_ask, false, BOOTSTRAP_BASE_SIZE, BOOTSTRAP_SIZE_DECAY, levels);
        Ok(QuoteLadder { bids, asks })
    }

    /// Build the Normal ladder: both sides centered on the pricing model's
    /// quotes, sized by the inventory-skew sizing with per-level decay. Fails
    /// exactly where the model fails or yields quotes out of range.
    pub fn build_normal_ladder(&self, levels: usize, size_decay: u64) -> (r: Result<
        QuoteLadder,
        MmError,
    >)
        requires
            self.state.wf(),
            size_decay <= SCALE,
            levels <= MAX_LADDER_LEVELS,
        ensures
            spec_model_quotes(self.state) is None ==> r == Err::<QuoteLadder, MmError>(
                MmError::CouldNotCalculateQuotes,
            ),
            spec_model_quotes(self.state) matches Some(q) ==> (!quotes_ok(q) ==> r == Err::<
                QuoteLadder,
                MmError,
            >(MmError::CouldNotCalculateQuotes)),
            spec_model_quotes(self.state) matches Some(q) ==> (quotes_ok(q) ==> (r matches Ok(l) && {
                let sizes = self.state.spec_quote_sizes();
                &&& is_ladder_side(l.bids@, q.0 as int, -1, sizes.0, size_decay as int, levels as int)
                &&& is_ladder_side(l.asks@, q.1 as int, 1, sizes.1, size_decay as int, levels as int)
            })),
    {
        let quotes = optimal_quotes(
            self.state.market_state.mid_price,
            self.state.inventory.quantity,
            self.state.risk_aversion,
            self.state.market_state.volatility,
            self.state.time_to_terminal,
            self.state.liquidity_k,
        );
        match quotes {
            Some(q) => {
                if !(0 <= q.0 && q.0 <= q.1 && q.1 <= PRICE_MAX) {
                    return Err(MmError::CouldNotCalculateQuotes);
                }
                let (bid_size, ask_size) = self.state.compute_quote_sizes();
                let bids = build_ladder_side(q.0, true, bid_size, size_decay, levels);
                let asks = build_ladder_side(q.1, false, ask_size, size_decay, levels);
                Ok(QuoteLadder { bids, asks })
            },
            None => Err(MmError::CouldNotCalculateQuotes),
        }
    }

    /// Build the Stressed ladder: the model's quotes widened by the spread
    /// multiplier, with a smaller fixed base size. Fails exactly where the
    /// model fails or yields quotes out of range.
    pub fn build_stressed_ladder(&self, spread_mult: i64, levels: usize) -> (r: Result<
        QuoteLadder,
        MmError,
    >)
        requires
            self.state.wf(),
            0 <= spread_mult <= 10 * SCALE,
            levels <= MAX_LADDER_LEVELS,
        ensures
            spec_model_quotes(self.state) is None ==> r == Err::<QuoteLadder, MmError>(
                MmError::CouldNotCalculateQuotes,
            ),
            spec_model_quotes(self.state) matches Some(q) ==> (!quotes_ok(q) ==> r == Err::<
                QuoteLadder,
                MmError,
            >(MmError::CouldNotCalculateQuotes)),
            spec_model_quotes(self.state) matches Some(q) ==> (quotes_ok(q) ==> (r matches Ok(l) && {
                let c = spec_stressed_centers(q, spread_mult as int);
                &&& is_ladder_side(
                    l.bids@,
                    c.0,
                    -1,
                    STRESSED_BASE_SIZE as int,
                    STRESSED_SIZE_DECAY as int,
                    levels as int,
                )
                &&& is_ladder_side(
                    l.asks@,
                    c.1,
                    1,
                    STRESSED_BASE_SIZE as int,
                    STRESSED_SIZE_DECAY as int,
                    levels as int,
                )
            })),
    {
        let quotes = optimal_quotes(
            self.state.market_state.mid_price,
            self.state.inventory.quantity,
            self.state.risk_aversion,
            self.state.market_state.volatility,
            self.state.time_to_terminal,
            self.state.liquidity_k,
        );
        match quotes {
            Some(q) => {
                if !(0 <= q.0 && q.0 <= q.1 && q.1 <= PRICE_MAX) {
                    return Err(MmError::CouldNotCalculateQuotes);
                }
                let spread: i64 = q.1 - q.0;
                proof {
                    lemma_stressed_extra_bounds(spread as int, (spread_mult - SCALE) as int);
                }
                let t: i128 = (spread as i128) * ((spread_mult - SCALE) as i128);
                let extra128: i128 = div_trunc_i128(t, 2 * (SCALE as i128));
                let extra: i64 = extra128 as i64;
                let center_bid = q.0 - extra;
                let center_ask = q.1 + extra;
                let bids = build_ladder_side(
                    center_bid,
                    true,
                    STRESSED_BASE_SIZE,
                    STRESSED_SIZE_DECAY,
                    levels,
                );
                let asks = build_ladder_side(
                    center_ask,
                    false,
                    STRESSED_BASE_SIZE,
                    STRESSED_SIZE_DECAY,
                    levels,
                );
                Ok(QuoteLadder { bids, asks })
            },
            None => Err(MmError::CouldNotCalculateQuotes),
        }
    }

    /// Build the InventoryCapped ladder: only the de-risking side is
    /// populated, asks for a long position and bids for a short one. Fails
    /// exactly where the model fails or yields quotes out of range.
    pub fn build_capped_ladder(&self, side: InventorySatus, levels: usize) -> (r: Result<
        QuoteLadder,
        MmError,
    >)
        requires
            self.state.wf(),
            levels <= MAX_LADDER_LEVELS,
        ensures
            spec_model_quotes(self.state) is None ==> r == Err::<QuoteLadder, MmError>(
                MmError::CouldNotCalculateQuotes,
            ),
            spec_model_quotes(self.state) matches Some(q) ==> (!quotes_ok(q) ==> r == Err::<
                QuoteLadder,
                MmError,
            >(MmError::CouldNotCalculateQuotes)),
            spec_model_quotes(self.state) matches Some(q) ==> (quotes_ok(q) ==> (r matches Ok(l)
                && match side {
                InventorySatus::Long => l.bids@.len() == 0 && is_ladder_side(
                    l.asks@,
                    q.1 as int,
                    1,
                    CAPPED_BASE_SIZE as int,
                    CAPPED_SIZE_DECAY as int,
                    levels as int,
                ),
                InventorySatus::Short => l.asks@.len() == 0 && is_ladder_side(
                    l.bids@,
                    q.0 as int,
                    -1,
                    CAPPED_BASE_SIZE as int,
                    CAPPED_SIZE_DECAY as int,
                    levels as int,
                ),
            })),
    {
        let quotes = optimal_quotes(
            self.state.market_state.mid_price,
            self.state.inventory.quantity,
            self.state.risk_aversion,
            self.state.market_state.volatility,
            self.state.time_to_terminal,
            self.state.liquidity_k,
        );
        match quotes {
            Some(q) => {
                if !(0 <= q.0 && q.0 <= q.1 && q.1 <= PRICE_MAX) {
                    return Err(MmError::CouldNotCalculateQuotes);
                }
                match side {
                    InventorySatus::Long => {
                        let asks = build_ladder_side(
                            q.1,
                            false,
                            CAPPED_BASE_SIZE,
                            CAPPED_SIZE_DECAY,
                            levels,
                        );
                        Ok(QuoteLadder { bids: Vec::new(), asks })
                    },
                    InventorySatus::Short => {
                        let bids = build_ladder_side(
                            q.0,
                            true,
                            CAPPED_BASE_SIZE,
                            CAPPED_SIZE_DECAY,
                            levels,
                        );
                        Ok(QuoteLadder { bids, asks: Vec::new() })
                    },
                }
            },
            None => Err(MmError::CouldNotCalculateQuotes),
        }
    }

    /// Build the target ladder for the current quoting mode; Emergency mode
    /// yields an empty ladder on both sides.
    pub fn compute_target_ladder(&self) -> (r: Result<QuoteLadder, MmError>)
        requires
            self.state.wf(),
        ensures
            match self.state.current_mode {
                QuotingMode::Emergency => r matches Ok(l) && l.bids@.len() == 0 && l.asks@.len()
                    == 0,
                QuotingMode::Bootstrap { spread_pct, levels } => r matches Ok(l) && {
                    let c = spec_bootstrap_centers(self.state.ipo_price as int, spread_pct as int);
                    &&& is_ladder_side(
                        l.bids@,
                        c.0,
                        -1,
                        BOOTSTRAP_BASE_SIZE as int,
                        BOOTSTRAP_SIZE_DECAY as int,
                        levels as int,
                    )
                    &&& is_ladder_side(
                        l.asks@,
                        c.1,
                        1,
                        BOOTSTRAP_BASE_SIZE as int,
                        BOOTSTRAP_SIZE_DECAY as int,
                        levels as int,
                    )
                },
                QuotingMode::Normal { levels, size_decay } => match spec_model_quotes(self.state) {
                    Option::None => r == Err::<QuoteLadder, MmError>(
                        MmError::CouldNotCalculateQuotes,
                    ),
                    Option::Some(q) => if quotes_ok(q) {
                        r matches Ok(l) && {
                            let sizes = self.state.spec_quote_sizes();
                            &&& is_ladder_side(
                                l.bids@,
                                q.0 as int,
                                -1,
                                sizes.0,
                                size_decay as int,
                                levels as int,
                            )
                            &&& is_ladder_side(
                                l.asks@,
                                q.1 as int,
                                1,
                                sizes.1,
                                size_decay as int,
                                levels as int,
                            )
                        }
                    } else {
                        r == Err::<QuoteLadder, MmError>(MmError::CouldNotCalculateQuotes)
                    },
                },
                QuotingMode::Stressed { spread_mult, levels } => match spec_model_quotes(
                    self.state,
                ) {
                    Option::None => r == Err::<QuoteLadder, MmError>(
                        MmError::CouldNotCalculateQuotes,
                    ),
                    Option::Some(q) => if quotes_ok(q) {
                        r matches Ok(l) && {
                            let c = spec_stressed_centers(q, spread_mult as int);
                            &&& is_ladder_side(
                                l.bids@,
                                c.0,
                                -1,
                                STRESSED_BASE_SIZE as int,
                                STRESSED_SIZE_DECAY as int,
                                levels as int,
                            )
                            &&& is_ladder_side(
                                l.asks@,
                                c.1,
                                1,
                                STRESSED_BASE_SIZE as int,
                                STRESSED_SIZE_DECAY as int,
                                levels as int,
                            )
                        }
                    } else {
                        r == Err::<QuoteLadder, MmError>(MmError::CouldNotCalculateQuotes)
                    },
                },
                QuotingMode::InventoryCapped { side, levels } => match spec_model_quotes(
                    self.state,
                ) {
                    Option::None => r == Err::<QuoteLadder, MmError>(
                        MmError::CouldNotCalculateQuotes,
                    ),
                    Option::Some(q) => if quotes_ok(q) {
                        r matches Ok(l) && match side {
                            InventorySatus::Long => l.bids@.len() == 0 && is_ladder_side(
                                l.asks@,
                                q.1 as int,
                                1,
                                CAPPED_BASE_SIZE as int,
                                CAPPED_SIZE_DECAY as int,
                                levels as int,
                            ),
                            InventorySatus::Short => l.asks@.len() == 0 && is_ladder_side(
                                l.bids@,
                                q.0 as int,
                                -1,
                                CAPPED_BASE_SIZE as int,
                                CAPPED_SIZE_DECAY as int,
                                levels as int,
                            ),
                        }
                    } else {
                        r == Err::<QuoteLadder, MmError>(MmError::CouldNotCalculateQuotes)
                    },
                },
            },
    {
        match self.state.current_mode {
            QuotingMode::Emergency => Ok(QuoteLadder { bids: Vec::new(), asks: Vec::new() }),
            QuotingMode::Bootstrap { spread_pct, levels } => self.build_bootstrap_ladder(
                spread_pct,
                levels,
            ),
            QuotingMode::Normal { levels, size_decay } => self.build_normal_ladder(
                levels,
                size_decay,
            ),
            QuotingMode::Stressed { spread_mult, levels } => self.build_stressed_ladder(
                spread_mult,
                levels,
            ),
            QuotingMode::InventoryCapped { side, levels } => self.build_capped_ladder(side, levels),
        }
    }
}

/// Bound on the extra half-spread of the Stressed ladder: a spread within the
/// price range times a multiplier within ten keeps the adjustment small
/// enough for `i64` centers.
proof fn lemma_stressed_extra_bounds(spread: int, mult_delta: int)
    requires
        0 <= spread <= PRICE_MAX,
        -10 * SCALE <= mult_delta <= 10 * SCALE,
    ensures
        -10 * SCALE * PRICE_MAX <= spread * mult_delta <= 10 * SCALE * PRICE_MAX,
        -5 * PRICE_MAX <= div_trunc(spread * mult_delta, 2 * SCALE) <= 5 * PRICE_MAX,
{
    let p = spread * mult_delta;
    if mult_delta >= 0 {
        vstd::arithmetic::mul::lemma_mul_upper_bound(spread, PRICE_MAX as int, mult_delta, 10 * SCALE);
        vstd::arithmetic::mul::lemma_mul_nonnegative(spread, mult_delta);
    } else {
        vstd::arithmetic::mul::lemma_mul_upper_bound(
            spread,
            PRICE_MAX as int,
            -mult_delta,
            10 * SCALE,
        );
        vstd::arithmetic::mul::lemma_mul_nonnegative(spread, -mult_delta);
        vstd::arithmetic::mul::lemma_mul_unary_negation(spread, mult_delta);
    }
    if p >= 0 {
        vstd::arithmetic::div_mod::lemma_div_is_ordered(p, 10 * SCALE * PRICE_MAX, 2 * SCALE);
        vstd::arithmetic::div_mod::lemma_div_is_ordered(0, p, 2 * SCALE);
        assert((10 * SCALE * PRICE_MAX) / (2 * SCALE) == 5 * PRICE_MAX);
    } else {
        vstd::arithmetic::div_mod::lemma_div_is_ordered(-p, 10 * SCALE * PRICE_MAX, 2 * SCALE);
        vstd::arithmetic::div_mod::lemma_div_is_ordered(0, -p, 2 * SCALE);
        assert((10 * SCALE * PRICE_MAX) / (2 * SCALE) == 5 * PRICE_MAX);
    }
}

/// Number of Active orders on one side of the ledger.
pub open spec fn num_active(s: Seq<PendingOrder>, side: Side) -> nat
    decreases s.len(),
{
    if s.len() == 0 {
        0
    } else {
        num_active(s.drop_last(), side) + if s.last().side == side && s.last().state
            == OrderState::Active {
            1nat
        } else {
            0nat
        }
    }
}

/// The two per-side counts together never exceed the ledger's length.
pub proof fn lemma_num_active_le_len(s: Seq<PendingOrder>)
    ensures
        num_active(s, Side::BID) + num_active(s, Side::ASK) <= s.len(),
    decreases s.len(),
{
    if s.len() > 0 {
        lemma_num_active_le_len(s.drop_last());
    }
}

/// Count the Active orders per side.
pub fn count_active(orders: &Vec<PendingOrder>) -> (r: (usize, usize))
    ensures
        r.0 == num_active(orders@, Side::BID),
        r.1 == num_active(orders@, Side::ASK),
{
    let mut bids: usize = 0;
    let mut asks: usize = 0;
    let n = orders.len();
    let mut i: usize = 0;
    while i < n
        invariant
            i <= n,
            n == orders@.len(),
            bids == num_active(orders@.take(i as int), Side::BID),
            asks == num_active(orders@.take(i as int), Side::ASK),
            bids + asks <= i,
        decreases n - i,
    {
        proof {
            assert(orders@.take(i as int + 1).drop_last() =~= orders@.take(i as int));
            assert(orders@.take(i as int + 1).last() == orders@[i as int]);
            lemma_num_active_le_len(orders@.take(i as int));
        }
        let o = orders[i];
        if o.state == OrderState::Active {
            if o.side == Side::BID {
                bids = bids + 1;
            } else {
                asks = asks + 1;
            }
        }
        i = i + 1;
    }
    proof {
        assert(orders@.take(n as int) =~= orders@);
    }
    (bids, asks)
}

/// The mid price has drifted at least 0.05 percent from the previously
/// observed mid.
pub open spec fn spec_mid_drift(st: SymbolState) -> bool {
    &&& st.prev_mid_price != 0
    &&& abs(st.market_state.mid_price - st.prev_mid_price) * 2000 >= st.prev_mid_price
}

/// Age of an order at clock reading `now`, zero if the clock moved backwards.
pub open spec fn order_age(now: int, created: int) -> int {
    if now >= created {
        now - created
    } else {
        0
    }
}

/// An Active order with an exchange id that has aged past the maximum order
/// age.
pub open spec fn is_stale_active(o: PendingOrder, now: int) -> bool {
    &&& o.state == OrderState::Active
    &&& order_age(now, o.created_at as int) > MAX_ORDER_AGE_MS
    &&& o.exchange_order_id is Some
}

/// Cancel intents for every stale Active order of a ledger, in ledger order.
pub open spec fn stale_cancels(s: Seq<PendingOrder>, symbol: u32, now: int) -> Seq<CancelData>
    decreases s.len(),
{
    if s.len() == 0 {
        Seq::empty()
    } else {
        let prefix = stale_cancels(s.drop_last(), symbol, now);
        if is_stale_active(s.last(), now) {
            prefix.push(
                CancelData {
                    symbol,
                    client_id: s.last().client_id,
                    order_id: s.last().exchange_order_id,
                },
            )
        } else {
            prefix
        }
    }
}

/// The layered requote decision over a symbol's components: never in
/// Emergency mode, never within the quoting gap, immediately on a mode
/// change, on a missing or thin side of resting orders, and finally on a
/// drifted mid price. A side the mode requires with zero Active orders always
/// forces a requote.
pub open spec fn spec_should_requote_on(
    st: SymbolState,
    orders: Seq<PendingOrder>,
    last_quote_time: u64,
    now: int,
) -> bool {
    if st.current_mode is Emergency {
        false
    } else if order_age(now, last_quote_time as int) < QUOTING_GAP_MS {
        false
    } else if st.current_mode != st.prev_mode {
        true
    } else {
        let active_bids = num_active(orders, Side::BID);
        let active_asks = num_active(orders, Side::ASK);
        let total = active_bids + active_asks;
        if total == 0 {
            true
        } else {
            match st.current_mode {
                QuotingMode::Bootstrap { levels, .. } => if active_bids == 0 || active_asks == 0
                    || total < ((levels as int) * 2) / 2 {
                    true
                } else {
                    spec_mid_drift(st)
                },
                QuotingMode::Normal { levels, .. } => if active_bids == 0 || active_asks == 0
                    || total < ((levels as int) * 2) / 2 {
                    true
                } else {
                    spec_mid_drift(st)
                },
                QuotingMode::Stressed { levels, .. } => if active_bids == 0 || active_asks == 0
                    || total < ((levels as int) * 2) / 2 {
                    true
                } else {
                    spec_mid_drift(st)
                },
                QuotingMode::InventoryCapped { side, levels } => {
                    let required = if side is Long {
                        active_asks
                    } else {
                        active_bids
                    };
                    if required == 0 || required < (levels as int) / 2 {
                        true
                    } else {
                        spec_mid_drift(st)
                    }
                },
                QuotingMode::Emergency => false,
            }
        }
    }
}

impl SymbolContext {
    /// The layered requote decision for this symbol.
    pub open spec fn spec_should_requote(self, now: int) -> bool {
        spec_should_requote_on(
            self.state,
            self.orders.pending_orders@,
            self.orders.last_quote_time,
            now,
        )
    }

    /// Decide whether the symbol should be requoted this cycle.
    pub fn should_requote(&self, now_ms: u64) -> (r: bool)
        requires
            self.state.wf(),
        ensures
            r == self.spec_should_requote(now_ms as int),
    {
        if matches!(self.state.current_mode, QuotingMode::Emergency) {
            return false;
        }
        if elapsed_ms(now_ms, self.orders.last_quote_time) < QUOTING_GAP_MS {
            return false;
        }
        if self.state.current_mode != self.state.prev_mode {
            return true;
        }
        let (active_bids, active_asks) = count_active(&self.orders.pending_orders);
        let ledger_len = self.orders.pending_orders.len();
        proof {
            lemma_num_active_le_len(self.orders.pending_orders@);
            assert(active_bids + active_asks <= ledger_len);
        }
        let total_active = active_bids + active_asks;
        if total_active == 0 {
            return true;
        }
        match self.state.current_mode {
            QuotingMode::Bootstrap { levels, .. } => {
                let expected = levels * 2;
                if active_bids == 0 || active_asks == 0 {
                    return true;
                }
                if total_active < expected / 2 {
                    return true;
                }
            },
            QuotingMode::Normal { levels, .. } => {
                let expected = levels * 2;
                if active_bids == 0 || active_asks == 0 {
                    return true;
                }
                if total_active < expected / 2 {
                    return true;
                }
            },
            QuotingMode::Stressed { levels, .. } => {
                let expected = levels * 2;
                if active_bids == 0 || active_asks == 0 {
                    return true;
                }
                if total_active < expected / 2 {
                    return true;
                }
            },
            QuotingMode::InventoryCapped { side, levels } => {
                let expected = levels;
                let active_on_required_side = match side {
                    InventorySatus::Long => active_asks,
                    InventorySatus::Short => active_bids,
                };
                if active_on_required_side == 0 {
                    return true;
                }
                if active_on_required_side < expected / 2 {
                    return true;
                }
            },
            QuotingMode::Emergency => {
                return false;
            },
        }
        let diff: i128 = (self.state.market_state.mid_price as i128) - (self.state.prev_mid_price
            as i128);
        let mid_move: i128 = if diff < 0 {
            -diff
        } else {
            diff
        };
        if self.state.prev_mid_price != 0 && mid_move * 2000 >= (self.state.prev_mid_price
            as i128) {
            return true;
        }
        false
    }

    /// Mark every stale Active order `PendingCancel` and append one cancel
    /// intent per such order to the batch.
    pub fn check_if_time_caused_cancellation(
        &mut self,
        symbol: u32,
        cancel_batch: &mut Vec<CancelData>,
        now_ms: u64,
    )
        ensures
            final(self).state == old(self).state,
            final(self).orders.symbol == old(self).orders.symbol,
            final(self).orders.next_client_id == old(self).orders.next_client_id,
            final(self).orders.last_quote_time == old(self).orders.last_quote_time,
            final(self).orders.pending_orders@.len() == old(self).orders.pending_orders@.len(),
            forall|i: int|
                0 <= i < old(self).orders.pending_orders@.len()
                    ==> #[trigger] final(self).orders.pending_orders@[i] == if is_stale_active(
                    old(self).orders.pending_orders@[i],
                    now_ms as int,
                ) {
                    PendingOrder {
                        state: OrderState::PendingCancel,
                        ..old(self).orders.pending_orders@[i]
                    }
                } else {
                    old(self).orders.pending_orders@[i]
                },
            final(cancel_batch)@ == old(cancel_batch)@ + stale_cancels(
                old(self).orders.pending_orders@,
                symbol,
                now_ms as int,
            ),
            old(self).wf() ==> final(self).wf(),
    {
        let ghost orders0 = self.orders.pending_orders@;
        let ghost batch0 = cancel_batch@;
        let n = self.orders.pending_orders.len();
        let mut i: usize = 0;
        while i < n
            invariant
                i <= n,
                n == orders0.len(),
                self.orders.pending_orders@.len() == orders0.len(),
                self.state == old(self).state,
                self.orders.symbol == old(self).orders.symbol,
                self.orders.next_client_id == old(self).orders.next_client_id,
                self.orders.last_quote_time == old(self).orders.last_quote_time,
                orders0 == old(self).orders.pending_orders@,
                batch0 == old(cancel_batch)@,
                forall|k: int|
                    0 <= k < i ==> #[trigger] self.orders.pending_orders@[k] == if is_stale_active(
                        orders0[k],
                        now_ms as int,
                    ) {
                        PendingOrder { state: OrderState::PendingCancel, ..orders0[k] }
                    } else {
                        orders0[k]
                    },
                forall|k: int|
                    i <= k < n ==> #[trigger] self.orders.pending_orders@[k] == orders0[k],
                cancel_batch@ == batch0 + stale_cancels(
                    orders0.take(i as int),
                    symbol,
                    now_ms as int,
                ),
            decreases n - i,
        {
            proof {
                assert(orders0.take(i as int + 1).drop_last() =~= orders0.take(i as int));
                assert(orders0.take(i as int + 1).last() == orders0[i as int]);
            }
            let o = self.orders.pending_orders[i];
            if o.state == OrderState::Active {
                let age = elapsed_ms(now_ms, o.created_at);
                if age > MAX_ORDER_AGE_MS {
                    match o.exchange_order_id {
                        Some(order_id) => {
                            cancel_batch.push(
                                CancelData {
                                    symbol,
                                    client_id: o.client_id,
                                    order_id: Some(order_id),
                                },
                            );
                            self.orders.pending_orders[i] = PendingOrder {
                                state: OrderState::PendingCancel,
                                ..o
                            };
                        },
                        None => {},
                    }
                }
            }
            i = i + 1;
        }
        proof {
            assert(orders0.take(n as int) =~= orders0);
        }
    }
}

/// Two prices within the reconciliation tolerance of each other.
pub open spec fn price_close(a: int, b: int) -> bool {
    abs(a - b) <= PRICE_TOLERANCE
}

/// A resting order matches one target level: same ladder level, price within
/// tolerance.
pub open spec fn order_matches_level(o: PendingOrder, lv: QuoteLevel) -> bool {
    lv.level_number == o.level_number && price_close(o.price as int, lv.price as int)
}

/// A resting order has a matching entry somewhere on one side of the target
/// ladder.
pub open spec fn order_has_target(o: PendingOrder, side_levels: Seq<QuoteLevel>) -> bool {
    exists|j: int| 0 <= j < side_levels.len() && order_matches_level(o, #[trigger] side_levels[j])
}

/// Orders the reconciliation looks at: Active or PartiallyFilled.
pub open spec fn requote_considered(o: PendingOrder) -> bool {
    o.state == OrderState::Active || o.state == OrderState::PartiallyFilled
}

/// A considered order is kept when its own side of the target ladder has an
/// entry at its level within the price tolerance.
pub open spec fn order_kept(o: PendingOrder, bids: Seq<QuoteLevel>, asks: Seq<QuoteLevel>) -> bool {
    match o.side {
        Side::BID => order_has_target(o, bids),
        Side::ASK => order_has_target(o, asks),
    }
}

/// `(exchange_order_id, client_id)` pairs of every considered order with an
/// exchange id that the target ladder no longer justifies, in ledger order.
pub open spec fn requote_cancels(
    s: Seq<PendingOrder>,
    bids: Seq<QuoteLevel>,
    asks: Seq<QuoteLevel>,
) -> Seq<(u64, u64)>
    decreases s.len(),
{
    if s.len() == 0 {
        Seq::empty()
    } else {
        let prefix = requote_cancels(s.drop_last(), bids, asks);
        let o = s.last();
        if requote_considered(o) && !order_kept(o, bids, asks) && o.exchange_order_id is Some {
            prefix.push((o.exchange_order_id->Some_0, o.client_id))
        } else {
            prefix
        }
    }
}

/// A target level is covered by some pending order of the same side at the
/// same level within the price tolerance, whatever that order's state.
pub open spec fn level_covered(lv: QuoteLevel, side: Side, orders: Seq<PendingOrder>) -> bool {
    exists|j: int|
        0 <= j < orders.len() && (#[trigger] orders[j]).side == side && orders[j].level_number
            == lv.level_number && price_close(lv.price as int, orders[j].price as int)
}

/// The target levels of one side that no pending order covers, in ladder
/// order.
pub open spec fn uncovered_levels(
    ls: Seq<QuoteLevel>,
    side: Side,
    orders: Seq<PendingOrder>,
) -> Seq<QuoteLevel>
    decreases ls.len(),
{
    if ls.len() == 0 {
        Seq::empty()
    } else {
        let prefix = uncovered_levels(ls.drop_last(), side, orders);
        if level_covered(ls.last(), side, orders) {
            prefix
        } else {
            prefix.push(ls.last())
        }
    }
}

/// The post intent for one uncovered target level.
pub open spec fn post_of(lv: QuoteLevel, side: Side, symbol: u32, cid: u64) -> PostData {
    PostData {
        symbol,
        client_id: cid,
        price: lv.price,
        qty: lv.size,
        side,
        level_number: lv.level_number,
    }
}

/// Post intents for the uncovered ask levels followed by the uncovered bid
/// levels, with client ids allocated consecutively from `id0`.
pub open spec fn posts_from(
    asks_unc: Seq<QuoteLevel>,
    bids_unc: Seq<QuoteLevel>,
    symbol: u32,
    id0: int,
) -> Seq<PostData> {
    Seq::new(
        (asks_unc.len() + bids_unc.len()) as nat,
        |i: int|
            if i < asks_unc.len() {
                post_of(asks_unc[i], Side::ASK, symbol, (id0 + i) as u64)
            } else {
                post_of(bids_unc[i - asks_unc.len()], Side::BID, symbol, (id0 + i) as u64)
            },
    )
}

/// The ledger row created for a post intent: a `PendingNew` order awaiting
/// its acceptance acknowledgment.
pub open spec fn order_of_post(p: PostData, now: u64) -> PendingOrder {
    PendingOrder {
        client_id: p.client_id,
        exchange_order_id: None,
        side: p.side,
        price: p.price,
        original_size: p.qty,
        remaining_size: p.qty,
        state: OrderState::PendingNew,
        level_number: p.level_number,
        created_at: now,
    }
}

/// Does one side of the target ladder have an entry matching this order?
fn side_has_match(levels: &Vec<QuoteLevel>, o: &PendingOrder) -> (r: bool)
    ensures
        r == order_has_target(*o, levels@),
{
    let n = levels.len();
    let mut j: usize = 0;
    while j < n
        invariant
            j <= n,
            n == levels@.len(),
            forall|k: int| 0 <= k < j ==> !order_matches_level(*o, #[trigger] levels@[k]),
        decreases n - j,
    {
        let lv = levels[j];
        if lv.level_number == o.level_number {
            let diff: i128 = (o.price as i128) - (lv.price as i128);
            let ad: i128 = if diff < 0 {
                -diff
            } else {
                diff
            };
            if ad <= PRICE_TOLERANCE as i128 {
                assert(order_matches_level(*o, levels@[j as int]));
                return true;
            }
        }
        j = j + 1;
    }
    false
}

/// Does any pending order of this side cover the target level?
fn level_covered_exec(orders: &Vec<PendingOrder>, lv: &QuoteLevel, side: Side) -> (r: bool)
    ensures
        r == level_covered(*lv, side, orders@),
{
    let n = orders.len();
    let mut j: usize = 0;
    while j < n
        invariant
            j <= n,
            n == orders@.len(),
            forall|k: int|
                0 <= k < j ==> !((#[trigger] orders@[k]).side == side && orders@[k].level_number
                    == lv.level_number && price_close(lv.price as int, orders@[k].price as int)),
        decreases n - j,
    {
        let o = orders[j];
        if o.side == side && o.level_number == lv.level_number {
            let diff: i128 = (lv.price as i128) - (o.price as i128);
            let ad: i128 = if diff < 0 {
                -diff
            } else {
                diff
            };
            if ad <= PRICE_TOLERANCE as i128 {
                assert(orders@[j as int].side == side && orders@[j as int].level_number
                    == lv.level_number && price_close(
                    lv.price as int,
                    orders@[j as int].price as int,
                ));
                return true;
            }
        }
        j = j + 1;
    }
    false
}

impl SymbolContext {
    /// Diff the target ladder against the resting orders: emit one cancel for
    /// every considered order the ladder no longer justifies, one post (and
    /// one `PendingNew` ledger row) for every target level no pending order
    /// covers, and stamp the last-quote time whether or not anything changed.
    pub fn incremental_requote(
        &mut self,
        target_ladder: &QuoteLadder,
        symbol: u32,
        now_ms: u64,
    ) -> (r: Result<(Vec<(u64, u64)>, Vec<PostData>), MmError>)
        requires
            old(self).orders.next_client_id + target_ladder.bids@.len() + target_ladder.asks@.len()
                <= u64::MAX,
        ensures
            r is Ok,
            r->Ok_0.0@ == requote_cancels(
                old(self).orders.pending_orders@,
                target_ladder.bids@,
                target_ladder.asks@,
            ),
            ({
                let asks_unc = uncovered_levels(
                    target_ladder.asks@,
                    Side::ASK,
                    old(self).orders.pending_orders@,
                );
                let bids_unc = uncovered_levels(
                    target_ladder.bids@,
                    Side::BID,
                    old(self).orders.pending_orders@,
                );
                let posts = posts_from(
                    asks_unc,
                    bids_unc,
                    symbol,
                    old(self).orders.next_client_id as int,
                );
                &&& r->Ok_0.1@ == posts
                &&& final(self).orders.pending_orders@ == old(self).orders.pending_orders@
                    + posts.map_values(|p: PostData| order_of_post(p, now_ms))
                &&& final(self).orders.next_client_id == old(self).orders.next_client_id
                    + posts.len()
            }),
            final(self).orders.last_quote_time == now_ms,
            final(self).orders.symbol == old(self).orders.symbol,
            final(self).state == old(self).state,
            old(self).wf() ==> final(self).wf(),
    {
        let ghost orders0 = self.orders.pending_orders@;
        let ghost next0 = self.orders.next_client_id;

        let mut order_to_cancel: Vec<(u64, u64)> = Vec::new();
        let n = self.orders.pending_orders.len();
        let mut i: usize = 0;
        while i < n
            invariant
                i <= n,
                n == orders0.len(),
                self == old(self),
                orders0 == self.orders.pending_orders@,
                order_to_cancel@ == requote_cancels(
                    orders0.take(i as int),
                    target_ladder.bids@,
                    target_ladder.asks@,
                ),
            decreases n - i,
        {
            proof {
                assert(orders0.take(i as int + 1).drop_last() =~= orders0.take(i as int));
                assert(orders0.take(i as int + 1).last() == orders0[i as int]);
            }
            let o = self.orders.pending_orders[i];
            if o.state == OrderState::Active || o.state == OrderState::PartiallyFilled {
                let should_keep = match o.side {
                    Side::BID => side_has_match(&target_ladder.bids, &o),
                    Side::ASK => side_has_match(&target_ladder.asks, &o),
                };
                if !should_keep {
                    match o.exchange_order_id {
                        Some(order_id) => {
                            order_to_cancel.push((order_id, o.client_id));
                        },
                        None => {},
                    }
                }
            }
            i = i + 1;
        }
        proof {
            assert(orders0.take(n as int) =~= orders0);
        }

        let mut order_to_post: Vec<PostData> = Vec::new();
        let mut new_orders: Vec<PendingOrder> = Vec::new();

        let asks_n = target_ladder.asks.len();
        let mut j: usize = 0;
        while j < asks_n
            invariant
                j <= asks_n,
                asks_n == target_ladder.asks@.len(),
                self.state == old(self).state,
                self.orders.pending_orders@ == orders0,
                orders0 == old(self).orders.pending_orders@,
                self.orders.symbol == old(self).orders.symbol,
                self.orders.last_quote_time == old(self).orders.last_quote_time,
                next0 == old(self).orders.next_client_id,
                next0 + target_ladder.bids@.len() + target_ladder.asks@.len() <= u64::MAX,
                order_to_post@ == posts_from(
                    uncovered_levels(target_ladder.asks@.take(j as int), Side::ASK, orders0),
                    Seq::<QuoteLevel>::empty(),
                    symbol,
                    next0 as int,
                ),
                order_to_post@.len() <= j,
                self.orders.next_client_id == next0 + order_to_post@.len(),
                new_orders@ == order_to_post@.map_values(|p: PostData| order_of_post(p, now_ms)),
            decreases asks_n - j,
        {
            proof {
                assert(target_ladder.asks@.take(j as int + 1).drop_last() =~= target_ladder.asks@.take(j as int));
                assert(target_ladder.asks@.take(j as int + 1).last() == target_ladder.asks@[j as int]);
            }
            let lv = target_ladder.asks[j];
            let already_have = level_covered_exec(&self.orders.pending_orders, &lv, Side::ASK);
            if !already_have {
                let cid = self.orders.alloc_client_id();
                let post = PostData {
                    symbol,
                    client_id: cid,
                    price: lv.price,
                    qty: lv.size,
                    side: Side::ASK,
                    level_number: lv.level_number,
                };
                order_to_post.push(post);
                new_orders.push(
                    PendingOrder {
                        client_id: cid,
                        exchange_order_id: None,
                        side: Side::ASK,
                        price: lv.price,
                        original_size: lv.size,
                        remaining_size: lv.size,
                        state: OrderState::PendingNew,
                        level_number: lv.level_number,
                        created_at: now_ms,
                    },
                );
                proof {
                    assert(order_to_post@ =~= posts_from(
                        uncovered_levels(
                            target_ladder.asks@.take(j as int + 1),
                            Side::ASK,
                            orders0,
                        ),
                        Seq::<QuoteLevel>::empty(),
                        symbol,
                        next0 as int,
                    ));
                    assert(new_orders@ =~= order_to_post@.map_values(
                        |p: PostData| order_of_post(p, now_ms),
                    ));
                }
            }
            j = j + 1;
        }
        proof {
            assert(target_ladder.asks@.take(asks_n as int) =~= target_ladder.asks@);
        }

        let ghost asks_unc = uncovered_levels(target_ladder.asks@, Side::ASK, orders0);

        let bids_n = target_ladder.bids.len();
        let mut k: usize = 0;
        while k < bids_n
            invariant
                k <= bids_n,
                bids_n == target_ladder.bids@.len(),
                self.state == old(self).state,
                self.orders.pending_orders@ == orders0,
                orders0 == old(self).orders.pending_orders@,
                self.orders.symbol == old(self).orders.symbol,
                self.orders.last_quote_time == old(self).orders.last_quote_time,
                next0 == old(self).orders.next_client_id,
                next0 + target_ladder.bids@.len() + target_ladder.asks@.len() <= u64::MAX,
                asks_unc == uncovered_levels(target_ladder.asks@, Side::ASK, orders0),
                asks_unc.len() <= target_ladder.asks@.len(),
                order_to_post@ == posts_from(
                    asks_unc,
                    uncovered_levels(target_ladder.bids@.take(k as int), Side::BID, orders0),
                    symbol,
                    next0 as int,
                ),
                order_to_post@.len() <= asks_unc.len() + k,
                self.orders.next_client_id == next0 + order_to_post@.len(),
                new_orders@ == order_to_post@.map_values(|p: PostData| order_of_post(p, now_ms)),
            decreases bids_n - k,
        {
            proof {
                assert(target_ladder.bids@.take(k as int + 1).drop_last() =~= target_ladder.bids@.take(k as int));
                assert(target_ladder.bids@.take(k as int + 1).last() == target_ladder.bids@[k as int]);
            }
            let lv = target_ladder.bids[k];
            let already_have = level_covered_exec(&self.orders.pending_orders, &lv, Side::BID);
            if !already_have {
                let cid = self.orders.alloc_client_id();
                let post = PostData {
                    symbol,
                    client_id: cid,
                    price: lv.price,
                    qty: lv.size,
                    side: Side::BID,
                    level_number: lv.level_number,
                };
                order_to_post.push(post);
                new_orders.push(
                    PendingOrder {
                        client_id: cid,
                        exchange_order_id: None,
                        side: Side::BID,
                        price: lv.price,
                        original_size: lv.size,
                        remaining_size: lv.size,
                        state: OrderState::PendingNew,
                        level_number: lv.level_number,
                        created_at: now_ms,
                    },
                );
                proof {
                    assert(order_to_post@ =~= posts_from(
                        asks_unc,
                        uncovered_levels(
                            target_ladder.bids@.take(k as int + 1),
                            Side::BID,
                            orders0,
                        ),
                        symbol,
                        next0 as int,
                    ));
                    assert(new_orders@ =~= order_to_post@.map_values(
                        |p: PostData| order_of_post(p, now_ms),
                    ));
                }
            }
            k = k + 1;
        }
        proof {
            assert(target_ladder.bids@.take(bids_n as int) =~= target_ladder.bids@);
        }

        let ghost posts_final = order_to_post@;
        self.orders.pending_orders.append(&mut new_orders);
        self.orders.last_quote_time = now_ms;

        proof {
            if old(self).wf() {
                lemma_requote_wf_preserved(
                    orders0,
                    posts_final,
                    self.orders.pending_orders@,
                    next0,
                    now_ms,
                );
            }
        }

        Ok((order_to_cancel, order_to_post))
    }
}

/// Appending the `PendingNew` rows of a batch of posts with consecutively
/// allocated client ids keeps the ledger's client ids distinct and below the
/// allocator's next value.
proof fn lemma_requote_wf_preserved(
    orders0: Seq<PendingOrder>,
    posts: Seq<PostData>,
    combined: Seq<PendingOrder>,
    next0: u64,
    now_ms: u64,
)
    requires
        forall|i: int| 0 <= i < orders0.len() ==> #[trigger] orders0[i].client_id < next0,
        forall|i: int, j: int|
            0 <= i < j < orders0.len() ==> #[trigger] orders0[i].client_id
                != #[trigger] orders0[j].client_id,
        forall|i: int|
            0 <= i < posts.len() ==> #[trigger] posts[i].client_id == next0 + i,
        next0 + posts.len() <= u64::MAX,
        combined == orders0 + posts.map_values(|p: PostData| order_of_post(p, now_ms)),
    ensures
        forall|i: int|
            0 <= i < combined.len() ==> #[trigger] combined[i].client_id < next0 + posts.len(),
        forall|i: int, j: int|
            0 <= i < j < combined.len() ==> #[trigger] combined[i].client_id
                != #[trigger] combined[j].client_id,
{
    let mapped = posts.map_values(|p: PostData| order_of_post(p, now_ms));
    assert(forall|i: int|
        0 <= i < mapped.len() ==> #[trigger] mapped[i].client_id == next0 + i);
    assert forall|i: int, j: int|
        0 <= i < j < combined.len() implies #[trigger] combined[i].client_id
        != #[trigger] combined[j].client_id by {
        if j < orders0.len() {
        } else if i >= orders0.len() {
            assert(combined[i].client_id == next0 + (i - orders0.len()));
            assert(combined[j].client_id == next0 + (j - orders0.len()));
        } else {
            assert(combined[i].client_id < next0);
            assert(combined[j].client_id == next0 + (j - orders0.len()));
        }
    }
}


/// One side of a target ladder as a sequence value: the entry at index `i`
/// priced `i` ticks outward from the center in direction `sign`, sized by
/// geometric decay, numbered by its level.
pub open spec fn spec_ladder_side_seq(
    center: int,
    sign: int,
    base: int,
    decay: int,
    levels: nat,
) -> Seq<QuoteLevel> {
    Seq::new(
        levels,
        |i: int|
            QuoteLevel {
                price: (center + sign * TICK_SIZE * i) as i64,
                size: level_size(base, decay, i as nat) as u32,
                level_number: i as usize,
            },
    )
}

/// A ladder side satisfying the per-index predicate is exactly the sequence
/// value.
pub proof fn lemma_ladder_side_seq(
    s: Seq<QuoteLevel>,
    center: int,
    sign: int,
    base: int,
    decay: int,
    levels: int,
)
    requires
        0 <= levels,
        is_ladder_side(s, center, sign, base, decay, levels),
    ensures
        s == spec_ladder_side_seq(center, sign, base, decay, levels as nat),
{
    assert(s =~= spec_ladder_side_seq(center, sign, base, decay, levels as nat));
}

/// The target ladder of a state as sequence values, `None` exactly where the
/// ladder build fails: the pricing model fails or yields quotes out of range.
pub open spec fn spec_cycle_ladder(st: SymbolState) -> Option<(Seq<QuoteLevel>, Seq<QuoteLevel>)> {
    match st.current_mode {
        QuotingMode::Emergency => Some((Seq::<QuoteLevel>::empty(), Seq::<QuoteLevel>::empty())),
        QuotingMode::Bootstrap { spread_pct, levels } => {
            let c = spec_bootstrap_centers(st.ipo_price as int, spread_pct as int);
            Some(
                (
                    spec_ladder_side_seq(
                        c.0,
                        -1,
                        BOOTSTRAP_BASE_SIZE as int,
                        BOOTSTRAP_SIZE_DECAY as int,
                        levels as nat,
                    ),
                    spec_ladder_side_seq(
                        c.1,
                        1,
                        BOOTSTRAP_BASE_SIZE as int,
                        BOOTSTRAP_SIZE_DECAY as int,
                        levels as nat,
                    ),
                ),
            )
        },
        QuotingMode::Normal { levels, size_decay } => match spec_model_quotes(st) {
            Option::Some(q) => if quotes_ok(q) {
                let sizes = st.spec_quote_sizes();
                Some(
                    (
                        spec_ladder_side_seq(
                            q.0 as int,
                            -1,
                            sizes.0,
                            size_decay as int,
                            levels as nat,
                        ),
                        spec_ladder_side_seq(
                            q.1 as int,
                            1,
                            sizes.1,
                            size_decay as int,
                            levels as nat,
                        ),
                    ),
                )
            } else {
                None
            },
            Option::None => None,
        },
        QuotingMode::Stressed { spread_mult, levels } => match spec_model_quotes(st) {
            Option::Some(q) => if quotes_ok(q) {
                let c = spec_stressed_centers(q, spread_mult as int);
                Some(
                    (
                        spec_ladder_side_seq(
                            c.0,
                            -1,
                            STRESSED_BASE_SIZE as int,
                            STRESSED_SIZE_DECAY as int,
                            levels as nat,
                        ),
                        spec_ladder_side_seq(
                            c.1,
                            1,
                            STRESSED_BASE_SIZE as int,
                            STRESSED_SIZE_DECAY as int,
                            levels as nat,
                        ),
                    ),
                )
            } else {
                None
            },
            Option::None => None,
        },
        QuotingMode::InventoryCapped { side, levels } => match spec_model_quotes(st) {
            Option::Some(q) => if quotes_ok(q) {
                match side {
                    InventorySatus::Long => Some(
                        (
                            Seq::<QuoteLevel>::empty(),
                            spec_ladder_side_seq(
                                q.1 as int,
                                1,
                                CAPPED_BASE_SIZE as int,
                                CAPPED_SIZE_DECAY as int,
                                levels as nat,
                            ),
                        ),
                    ),
                    InventorySatus::Short => Some(
                        (
                            spec_ladder_side_seq(
                                q.0 as int,
                                -1,
                                CAPPED_BASE_SIZE as int,
                                CAPPED_SIZE_DECAY as int,
                                levels as nat,
                            ),
                            Seq::<QuoteLevel>::empty(),
                        ),
                    ),
                }
            } else {
                None
            },
            Option::None => None,
        },
    }
}

/// A ledger with every stale Active order marked `PendingCancel`.
pub open spec fn stale_marked(s: Seq<PendingOrder>, now: int) -> Seq<PendingOrder> {
    Seq::new(
        s.len(),
        |i: int|
            if is_stale_active(s[i], now) {
                PendingOrder { state: OrderState::PendingCancel, ..s[i] }
            } else {
                s[i]
            },
    )
}

/// The cancel intent for one `(exchange_order_id, client_id)` pair the
/// reconciler emits.
pub open spec fn cancel_of_pair(t: (u64, u64), symbol: u32) -> CancelData {
    CancelData { symbol, client_id: t.1, order_id: Some(t.0) }
}

} // verus!
