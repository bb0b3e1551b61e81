//! The engine: per-symbol contexts keyed by symbol id, event handlers for
//! feed, fill and control-plane messages, auxiliary cancellation triggers,
//! and the per-cycle management step. Transport and the clock stay with the
//! caller: every entry point takes plain events and an explicit monotonic
//! time in milliseconds, and intents accumulate in per-cycle batches that the
//! caller drains.

use vstd::prelude::*;
use vstd::math::abs;

use crate::constants::{
    AVG_CAP, CYCLE_GAP_MS, MIN_QUOTABLE_SPREAD, PNL_CAP, PRICE_MAX, QTY_CAP, SAMPLE_GAP_MS,
    VOLATILITY_CALC_GAP_MS, VOL_INPUT_CAP,
};
use crate::constants::{
    BOOTSTRAP_BASE_SIZE, BOOTSTRAP_SIZE_DECAY, CAPPED_BASE_SIZE, CAPPED_SIZE_DECAY,
    STRESSED_BASE_SIZE, STRESSED_SIZE_DECAY,
};
use crate::context::{
    cancel_of_pair, lemma_ladder_side_seq, order_age, order_of_post, posts_from, requote_cancels,
    spec_bootstrap_centers, spec_cycle_ladder, spec_model_quotes, spec_should_requote_on,
    spec_stressed_centers, stale_cancels, stale_marked, quotes_ok, uncovered_levels, SymbolContext,
};
use crate::model::{estimate_volatility, vol_estimate};
use crate::num::{clamp, clamp_i128, div_trunc, div_trunc_i128, elapsed_ms};
use crate::state::{price_ok, SymbolState};
use crate::types::{
    ApiMessage, ApiMessageType, CancelData, FeedEvent, FillEvent, InventoryPosition,
    InventorySatus, MarketState, MmError, OrderState, PendingOrder, PnL, PostData, QuoteLevel,
    QuotingMode, Side, SymbolOrders,
};

verus! {

/// The orders of a ledger that satisfy `pred`, in ledger order.
pub open spec fn keep_orders(s: Seq<PendingOrder>, pred: spec_fn(PendingOrder) -> bool) -> Seq<
    PendingOrder,
>
    decreases s.len(),
{
    if s.len() == 0 {
        Seq::empty()
    } else {
        let prefix = keep_orders(s.drop_last(), pred);
        if pred(s.last()) {
            prefix.push(s.last())
        } else {
            prefix
        }
    }
}

/// Keeping a subset of a ledger keeps every order from the ledger, grows no
/// longer than it, and preserves distinctness of client ids.
pub proof fn lemma_keep_orders_props(s: Seq<PendingOrder>, pred: spec_fn(PendingOrder) -> bool)
    ensures
        keep_orders(s, pred).len() <= s.len(),
        forall|i: int|
            0 <= i < keep_orders(s, pred).len() ==> s.contains(#[trigger] keep_orders(s, pred)[i]),
        (forall|i: int, j: int|
            0 <= i < j < s.len() ==> #[trigger] s[i].client_id != #[trigger] s[j].client_id)
            ==> (forall|i: int, j: int|
            0 <= i < j < keep_orders(s, pred).len() ==> #[trigger] keep_orders(s, pred)[i].client_id
                != #[trigger] keep_orders(s, pred)[j].client_id),
    decreases s.len(),
{
    if s.len() > 0 {
        let s0 = s.drop_last();
        lemma_keep_orders_props(s0, pred);
        let k0 = keep_orders(s0, pred);
        assert(forall|i: int| 0 <= i < s0.len() ==> s0[i] == s[i]);
        assert forall|i: int|
            0 <= i < keep_orders(s, pred).len() implies s.contains(
            #[trigger] keep_orders(s, pred)[i],
        ) by {
            if i < k0.len() {
                assert(s0.contains(k0[i]));
                let w = choose|w: int| 0 <= w < s0.len() && s0[w] == k0[i];
                assert(s[w] == k0[i]);
            } else {
                assert(keep_orders(s, pred)[i] == s.last());
                assert(s[s.len() - 1] == s.last());
            }
        }
        if forall|i: int, j: int|
            0 <= i < j < s.len() ==> #[trigger] s[i].client_id != #[trigger] s[j].client_id {
            assert(forall|i: int, j: int|
                0 <= i < j < s0.len() ==> #[trigger] s0[i].client_id
                    != #[trigger] s0[j].client_id);
            if pred(s.last()) {
                assert forall|i: int, j: int|
                    0 <= i < j < keep_orders(s, pred).len() implies #[trigger] keep_orders(
                    s,
                    pred,
                )[i].client_id != #[trigger] keep_orders(s, pred)[j].client_id by {
                    if j == k0.len() {
                        assert(s0.contains(k0[i]));
                        let w = choose|w: int| 0 <= w < s0.len() && s0[w] == k0[i];
                        assert(s[w].client_id != s[s.len() - 1].client_id);
                    }
                }
            }
        }
    }
}

/// The row updated by an acceptance acknowledgment: the exchange order id is
/// stamped and the order becomes Active.
pub open spec fn accepted_order(o: PendingOrder, order_id: u64) -> PendingOrder {
    PendingOrder { exchange_order_id: Some(order_id), state: OrderState::Active, ..o }
}

/// The row updated by a fill: the remaining size shrinks (saturating at
/// zero); a fully worked order is labeled Active, a partially worked one
/// PartiallyFilled. Rows at zero remaining are purged right after.
pub open spec fn filled_order(o: PendingOrder, fill_qty: u32) -> PendingOrder {
    let rem: u32 = if o.remaining_size >= fill_qty {
        (o.remaining_size - fill_qty) as u32
    } else {
        0
    };
    PendingOrder {
        remaining_size: rem,
        state: if rem == 0 {
            OrderState::Active
        } else {
            OrderState::PartiallyFilled
        },
        ..o
    }
}

/// Everything observable of a freshly activated symbol context: the book is
/// seeded with the reference price, the position and P&L are zero, counters
/// and model parameters are zero, the mode is a placeholder Bootstrap, the
/// ledger is empty with client ids starting at one, and the cadence clocks
/// read the activation time.
pub open spec fn fresh_context_obs(
    c: SymbolContext,
    symbol: u32,
    ipo_price: i64,
    now_ms: u64,
) -> bool {
    &&& c.state.symbol == symbol
    &&& c.state.ipo_price == ipo_price
    &&& c.state.best_bid == ipo_price
    &&& c.state.best_ask == ipo_price
    &&& c.state.best_bid_qty == 0 && c.state.best_ask_qty == 0
    &&& c.state.prev_best_bid == 0 && c.state.prev_best_ask == 0
    &&& c.state.prev_best_bid_qty == 0 && c.state.prev_best_ask_qty == 0
    &&& c.state.prev_mid_price == ipo_price
    &&& c.state.market_state == (MarketState {
        mid_price: ipo_price,
        volatility: 0,
        timestamp: 0,
    })
    &&& c.state.rolling_prices.deque@.len() == 0
    &&& c.state.rolling_prices.capacity == crate::constants::ROLLING_CAPACITY
    &&& c.state.inventory.quantity == 0 && c.state.inventory.avg_entry_price == 0
    &&& c.state.pnl.realized == 0 && c.state.pnl.unrealized == 0 && c.state.pnl.total == 0
    &&& c.state.last_sample_time == now_ms
    &&& c.state.last_volatility_calc == now_ms
    &&& c.state.last_management_cycle_time == now_ms
    &&& c.state.risk_aversion == 0 && c.state.time_to_terminal == 0 && c.state.liquidity_k == 0
    &&& c.state.total_trades == 0 && c.state.total_volume == 0
    &&& !c.state.is_bootstrapped
    &&& c.state.current_mode == (QuotingMode::Bootstrap { spread_pct: 0, levels: 0 })
    &&& c.state.prev_mode == (QuotingMode::Bootstrap { spread_pct: 0, levels: 0 })
    &&& c.orders.symbol == symbol
    &&& c.orders.pending_orders@.len() == 0
    &&& c.orders.next_client_id == 1
    &&& c.orders.last_quote_time == 0
}

/// The market-making engine over every active symbol. The symbol table is a
/// vector with pairwise-distinct symbol ids.
#[derive(Debug)]
pub struct MarketMaker {
    pub symbol_ctx: Vec<SymbolContext>,
    pub cancel_batch: Vec<CancelData>,
    pub post_batch: Vec<PostData>,
}

impl MarketMaker {
    /// Every context well formed, and no symbol id appears twice.
    pub open spec fn wf(self) -> bool {
        &&& forall|i: int|
            0 <= i < self.symbol_ctx@.len() ==> (#[trigger] self.symbol_ctx@[i]).wf()
        &&& forall|i: int, j: int|
            0 <= i < j < self.symbol_ctx@.len() ==> #[trigger] self.symbol_ctx@[i].state.symbol
                != #[trigger] self.symbol_ctx@[j].state.symbol
    }

    /// The engine knows this symbol.
    pub open spec fn has_symbol(self, symbol: u32) -> bool {
        exists|i: int|
            0 <= i < self.symbol_ctx@.len() && (#[trigger] self.symbol_ctx@[i]).state.symbol
                == symbol
    }

    /// An engine with no symbols and empty batches.
    pub fn new() -> (r: MarketMaker)
        ensures
            r.symbol_ctx@.len() == 0,
            r.cancel_batch@.len() == 0,
            r.post_batch@.len() == 0,
            r.wf(),
    {
        MarketMaker { symbol_ctx: Vec::new(), cancel_batch: Vec::new(), post_batch: Vec::new() }
    }

    /// Find the index of a symbol's context.
    fn find_symbol(&self, symbol: u32) -> (r: Option<usize>)
        ensures
            match r {
                Some(i) => i < self.symbol_ctx@.len() && self.symbol_ctx@[i as int].state.symbol
                    == symbol,
                None => !self.has_symbol(symbol),
            },
    {
        let n = self.symbol_ctx.len();
        let mut i: usize = 0;
        while i < n
            invariant
                i <= n,
                n == self.symbol_ctx@.len(),
                forall|k: int|
                    0 <= k < i ==> (#[trigger] self.symbol_ctx@[k]).state.symbol != symbol,
            decreases n - i,
        {
            if self.symbol_ctx[i].state.symbol == symbol {
                return Some(i);
            }
            i = i + 1;
        }
        None
    }

    /// Activate a symbol: a fresh context is created at the given reference
    /// price; an already active symbol is reset to a fresh context.
    pub fn add_symbol(&mut self, symbol: u32, ipo_price: i64, now_ms: u64)
        requires
            old(self).wf(),
            price_ok(ipo_price as int),
        ensures
            final(self).wf(),
            final(self).has_symbol(symbol),
            final(self).cancel_batch == old(self).cancel_batch,
            final(self).post_batch == old(self).post_batch,
            old(self).has_symbol(symbol) ==> {
                &&& final(self).symbol_ctx@.len() == old(self).symbol_ctx@.len()
                &&& forall|k: int|
                    0 <= k < old(self).symbol_ctx@.len() && old(self).symbol_ctx@[k].state.symbol != symbol ==> #[trigger] final(self).symbol_ctx@[k] == old(self).symbol_ctx@[k]
            },
            !old(self).has_symbol(symbol) ==> {
                &&& final(self).symbol_ctx@.len() == old(self).symbol_ctx@.len() + 1
                &&& forall|k: int|
                    0 <= k < old(self).symbol_ctx@.len() ==> #[trigger] final(self).symbol_ctx@[k]
                        == old(self).symbol_ctx@[k]
            },
            forall|k: int|
                0 <= k < final(self).symbol_ctx@.len() && final(self).symbol_ctx@[k].state.symbol
                    == symbol ==> fresh_context_obs(
                    #[trigger] final(self).symbol_ctx@[k],
                    symbol,
                    ipo_price,
                    now_ms,
                ),
    {
        let fresh = SymbolContext::new(ipo_price, symbol, now_ms);
        match self.find_symbol(symbol) {
            Some(i) => {
                self.symbol_ctx.remove(i);
                self.symbol_ctx.insert(i, fresh);
                proof {
                    assert(final(self).symbol_ctx@ =~= old(self).symbol_ctx@.update(
                        i as int,
                        final(self).symbol_ctx@[i as int],
                    ));
                    assert(final(self).symbol_ctx@[i as int].state.symbol == symbol);
                }
            },
            None => {
                self.symbol_ctx.push(fresh);
                proof {
                    let n = old(self).symbol_ctx@.len() as int;
                    assert(final(self).symbol_ctx@[n].state.symbol == symbol);
                }
            },
        }
    }

    /// Report whether the symbol's position is long (strictly positive) or
    /// short (anything else).
    pub fn get_inventory_status(&mut self, symbol: u32) -> (r: Result<InventorySatus, MmError>)
        requires
            old(self).wf(),
        ensures
            *final(self) == *old(self),
            match r {
                Ok(st) => old(self).has_symbol(symbol) && forall|k: int|
                    0 <= k < old(self).symbol_ctx@.len() && #[trigger] old(self).symbol_ctx@[k].state.symbol == symbol ==> st == (if old(self).symbol_ctx@[k].state.inventory.quantity > 0 {
                        InventorySatus::Long
                    } else {
                        InventorySatus::Short
                    }),
                Err(e) => e == MmError::SymbolNotFound && !old(self).has_symbol(symbol),
            },
    {
        match self.find_symbol(symbol) {
            Some(i) => {
                if self.symbol_ctx[i].state.inventory.quantity > 0 {
                    Ok(InventorySatus::Long)
                } else {
                    Ok(InventorySatus::Short)
                }
            },
            None => Err(MmError::SymbolNotFound),
        }
    }

    /// Count the Active orders per side of one symbol's ledger.
    pub fn get_active_order_cnt(&self, symbol: u32) -> (r: Result<(usize, usize), MmError>)
        requires
            self.wf(),
        ensures
            match r {
                Ok(c) => self.has_symbol(symbol) && forall|k: int|
                    0 <= k < self.symbol_ctx@.len() && #[trigger] self.symbol_ctx@[k].state.symbol
                        == symbol ==> c.0 == crate::context::num_active(
                        self.symbol_ctx@[k].orders.pending_orders@,
                        Side::BID,
                    ) && c.1 == crate::context::num_active(
                        self.symbol_ctx@[k].orders.pending_orders@,
                        Side::ASK,
                    ),
                Err(e) => e == MmError::SymbolNotFound && !self.has_symbol(symbol),
            },
    {
        match self.find_symbol(symbol) {
            Some(i) => {
                let counts = crate::context::count_active(&self.symbol_ctx[i].orders.pending_orders);
                Ok(counts)
            },
            None => Err(MmError::SymbolNotFound),
        }
    }

    /// Stamp the exchange order id of the pending order matching the ack's
    /// client id and mark it Active; an unknown client id is a silent no-op
    /// (the ack may race the local insertion or reference a stale order).
    pub fn handle_order_acceptance_ack(&mut self, api_response: ApiMessage) -> (r: Result<
        (),
        MmError,
    >)
        requires
            old(self).wf(),
        ensures
            final(self).wf(),
            final(self).cancel_batch == old(self).cancel_batch,
            final(self).post_batch == old(self).post_batch,
            final(self).symbol_ctx@.len() == old(self).symbol_ctx@.len(),
            match r {
                Ok(u) => old(self).has_symbol(api_response.symbol),
                Err(e) => e == MmError::SymbolNotFound && !old(self).has_symbol(
                    api_response.symbol,
                ) && final(self).symbol_ctx == old(self).symbol_ctx,
            },
            forall|k: int|
                0 <= k < old(self).symbol_ctx@.len() && old(self).symbol_ctx@[k].state.symbol
                    != api_response.symbol ==> #[trigger] final(self).symbol_ctx@[k] == old(self).symbol_ctx@[k],
            forall|k: int|
                0 <= k < old(self).symbol_ctx@.len() && #[trigger] old(self).symbol_ctx@[k].state.symbol == api_response.symbol ==> {
                    let oldc = old(self).symbol_ctx@[k];
                    let newc = final(self).symbol_ctx@[k];
                    &&& newc.state == oldc.state
                    &&& newc.orders.symbol == oldc.orders.symbol
                    &&& newc.orders.next_client_id == oldc.orders.next_client_id
                    &&& newc.orders.last_quote_time == oldc.orders.last_quote_time
                    &&& newc.orders.pending_orders@.len() == oldc.orders.pending_orders@.len()
                    &&& forall|p: int|
                        0 <= p < oldc.orders.pending_orders@.len()
                            ==> #[trigger] newc.orders.pending_orders@[p] == if oldc.orders.pending_orders@[p].client_id
                            == api_response.client_id {
                            accepted_order(
                                oldc.orders.pending_orders@[p],
                                api_response.order_id,
                            )
                        } else {
                            oldc.orders.pending_orders@[p]
                        }
                },
    {
        let idx = match self.find_symbol(api_response.symbol) {
            Some(i) => i,
            None => {
                return Err(MmError::SymbolNotFound);
            },
        };
        let mut ctx = self.symbol_ctx.remove(idx);
        let ghost orders0 = ctx.orders.pending_orders@;
        let n = ctx.orders.pending_orders.len();
        let mut p: usize = 0;
        while p < n
            invariant
                p <= n,
                n == orders0.len(),
                ctx.orders.pending_orders@.len() == orders0.len(),
                ctx.orders.symbol == old(self).symbol_ctx@[idx as int].orders.symbol,
                ctx.orders.next_client_id == old(self).symbol_ctx@[idx as int].orders.next_client_id,
                ctx.orders.last_quote_time == old(self).symbol_ctx@[idx as int].orders.last_quote_time,
                ctx.state == old(self).symbol_ctx@[idx as int].state,
                orders0 == old(self).symbol_ctx@[idx as int].orders.pending_orders@,
                forall|k: int|
                    0 <= k < p ==> #[trigger] ctx.orders.pending_orders@[k] == if orders0[k].client_id
                        == api_response.client_id {
                        accepted_order(orders0[k], api_response.order_id)
                    } else {
                        orders0[k]
                    },
                forall|k: int| p <= k < n ==> #[trigger] ctx.orders.pending_orders@[k] == orders0[k],
            decreases n - p,
        {
            let o = ctx.orders.pending_orders[p];
            if o.client_id == api_response.client_id {
                ctx.orders.pending_orders[p] = PendingOrder {
                    exchange_order_id: Some(api_response.order_id),
                    state: OrderState::Active,
                    ..o
                };
            }
            p = p + 1;
        }
        self.symbol_ctx.insert(idx, ctx);
        proof {
            assert(final(self).symbol_ctx@ =~= old(self).symbol_ctx@.update(
                idx as int,
                final(self).symbol_ctx@[idx as int],
            ));
        }
        Ok(())
    }

    /// Remove every pending order whose exchange order id matches the cancel
    /// acknowledgment.
    pub fn handle_order_cancel_ack(&mut self, api_response: ApiMessage) -> (r: Result<(), MmError>)
        requires
            old(self).wf(),
        ensures
            final(self).wf(),
            final(self).cancel_batch == old(self).cancel_batch,
            final(self).post_batch == old(self).post_batch,
            final(self).symbol_ctx@.len() == old(self).symbol_ctx@.len(),
            match r {
                Ok(u) => old(self).has_symbol(api_response.symbol),
                Err(e) => e == MmError::SymbolNotFound && !old(self).has_symbol(
                    api_response.symbol,
                ) && final(self).symbol_ctx == old(self).symbol_ctx,
            },
            forall|k: int|
                0 <= k < old(self).symbol_ctx@.len() && old(self).symbol_ctx@[k].state.symbol
                    != api_response.symbol ==> #[trigger] final(self).symbol_ctx@[k] == old(self).symbol_ctx@[k],
            forall|k: int|
                0 <= k < old(self).symbol_ctx@.len() && #[trigger] old(self).symbol_ctx@[k].state.symbol == api_response.symbol ==> {
                    let oldc = old(self).symbol_ctx@[k];
                    let newc = final(self).symbol_ctx@[k];
                    &&& newc.state == oldc.state
                    &&& newc.orders.symbol == oldc.orders.symbol
                    &&& newc.orders.next_client_id == oldc.orders.next_client_id
                    &&& newc.orders.last_quote_time == oldc.orders.last_quote_time
                    &&& newc.orders.pending_orders@ == keep_orders(
                        oldc.orders.pending_orders@,
                        |o: PendingOrder| o.exchange_order_id != Some(api_response.order_id),
                    )
                },
    {
        let idx = match self.find_symbol(api_response.symbol) {
            Some(i) => i,
            None => {
                return Err(MmError::SymbolNotFound);
            },
        };
        let mut ctx = self.symbol_ctx.remove(idx);
        let ghost orders0 = ctx.orders.pending_orders@;
        let ghost pred = |o: PendingOrder| o.exchange_order_id != Some(api_response.order_id);
        let mut kept: Vec<PendingOrder> = Vec::new();
        let n = ctx.orders.pending_orders.len();
        let mut p: usize = 0;
        while p < n
            invariant
                p <= n,
                n == orders0.len(),
                orders0 == ctx.orders.pending_orders@,
                kept@ == keep_orders(orders0.take(p as int), pred),
                pred == (|o: PendingOrder| o.exchange_order_id != Some(api_response.order_id)),
            decreases n - p,
        {
            proof {
                assert(orders0.take(p as int + 1).drop_last() =~= orders0.take(p as int));
                assert(orders0.take(p as int + 1).last() == orders0[p as int]);
            }
            let o = ctx.orders.pending_orders[p];
            let keep = match o.exchange_order_id {
                Some(oid) => oid != api_response.order_id,
                None => true,
            };
            if keep {
                kept.push(o);
            }
            p = p + 1;
        }
        proof {
            assert(orders0.take(n as int) =~= orders0);
            lemma_keep_orders_props(orders0, pred);
        }
        ctx.orders.pending_orders = kept;
        self.symbol_ctx.insert(idx, ctx);
        proof {
            assert(final(self).symbol_ctx@ =~= old(self).symbol_ctx@.update(
                idx as int,
                final(self).symbol_ctx@[idx as int],
            ));
        }
        Ok(())
    }

    /// Apply a fill to the order ledger: the first pending order whose
    /// exchange id matches has its remaining size reduced (saturating at
    /// zero), and every order whose remaining size has reached zero leaves
    /// the ledger.
    pub fn order_manager_update_after_fill(&mut self, market_fill: FillEvent) -> (r: Result<
        (),
        MmError,
    >)
        requires
            old(self).wf(),
        ensures
            final(self).wf(),
            final(self).cancel_batch == old(self).cancel_batch,
            final(self).post_batch == old(self).post_batch,
            final(self).symbol_ctx@.len() == old(self).symbol_ctx@.len(),
            match r {
                Ok(u) => old(self).has_symbol(market_fill.symbol),
                Err(e) => e == MmError::SymbolNotFound && !old(self).has_symbol(market_fill.symbol)
                    && final(self).symbol_ctx == old(self).symbol_ctx,
            },
            forall|k: int|
                0 <= k < old(self).symbol_ctx@.len() && old(self).symbol_ctx@[k].state.symbol
                    != market_fill.symbol ==> #[trigger] final(self).symbol_ctx@[k] == old(self).symbol_ctx@[k],
            forall|k: int|
                0 <= k < old(self).symbol_ctx@.len() && #[trigger] old(self).symbol_ctx@[k].state.symbol == market_fill.symbol ==> {
                    let oldc = old(self).symbol_ctx@[k];
                    let newc = final(self).symbol_ctx@[k];
                    &&& newc.state == oldc.state
                    &&& newc.orders.symbol == oldc.orders.symbol
                    &&& newc.orders.next_client_id == oldc.orders.next_client_id
                    &&& newc.orders.last_quote_time == oldc.orders.last_quote_time
                    &&& fill_ledger_rel(
                        oldc.orders.pending_orders@,
                        newc.orders.pending_orders@,
                        market_fill.order_id,
                        market_fill.fill_quantity,
                    )
                },
    {
        let idx = match self.find_symbol(market_fill.symbol) {
            Some(i) => i,
            None => {
                return Err(MmError::SymbolNotFound);
            },
        };
        let mut ctx = self.symbol_ctx.remove(idx);
        apply_fill_to_ledger(
            &mut ctx.orders.pending_orders,
            market_fill.order_id,
            market_fill.fill_quantity,
        );
        proof {
            if old(self).symbol_ctx@[idx as int].orders.wf() {
                assert forall|i: int|
                    0 <= i < ctx.orders.pending_orders@.len() implies #[trigger] ctx.orders.pending_orders@[i].client_id
                    < ctx.orders.next_client_id by {
                    let cid = ctx.orders.pending_orders@[i].client_id;
                    assert(has_client_id(
                        old(self).symbol_ctx@[idx as int].orders.pending_orders@,
                        cid,
                    ));
                    let w = choose|w: int|
                        0 <= w < old(self).symbol_ctx@[idx as int].orders.pending_orders@.len()
                            && old(self).symbol_ctx@[idx as int].orders.pending_orders@[w].client_id == cid;
                }
            }
        }
        self.symbol_ctx.insert(idx, ctx);
        proof {
            assert(final(self).symbol_ctx@ =~= old(self).symbol_ctx@.update(
                idx as int,
                final(self).symbol_ctx@[idx as int],
            ));
        }
        Ok(())
    }
}

/// Some order in the ledger carries this client id.
pub open spec fn has_client_id(s: Seq<PendingOrder>, cid: u64) -> bool {
    exists|j: int| 0 <= j < s.len() && (#[trigger] s[j]).client_id == cid
}

/// How a fill transforms a ledger: the first order with the matching
/// exchange id (if any) has its remaining size reduced, and rows at zero
/// remaining are purged.
pub open spec fn fill_ledger_rel(
    s0: Seq<PendingOrder>,
    s1: Seq<PendingOrder>,
    order_id: u64,
    fill_qty: u32,
) -> bool {
    let matched = exists|p: int|
        0 <= p < s0.len() && (#[trigger] s0[p]).exchange_order_id == Some(order_id);
    &&& (!matched ==> s1 == keep_orders(s0, |o: PendingOrder| o.remaining_size > 0))
    &&& (matched ==> exists|p: int|
        {
            &&& 0 <= p < s0.len()
            &&& (#[trigger] s0[p]).exchange_order_id == Some(order_id)
            &&& forall|w: int|
                0 <= w < p ==> (#[trigger] s0[w]).exchange_order_id != Some(order_id)
            &&& s1 == keep_orders(
                s0.update(p, filled_order(s0[p], fill_qty)),
                |o: PendingOrder| o.remaining_size > 0,
            )
        })
}

/// How a fill updates the ledger before the purge: the first order with the
/// matching exchange id (if any) has its remaining size reduced in place.
pub open spec fn fill_applied_rel(
    s0: Seq<PendingOrder>,
    s1: Seq<PendingOrder>,
    order_id: u64,
    fill_qty: u32,
) -> bool {
    let matched = exists|p: int|
        0 <= p < s0.len() && (#[trigger] s0[p]).exchange_order_id == Some(order_id);
    &&& (!matched ==> s1 == s0)
    &&& (matched ==> exists|p: int|
        {
            &&& 0 <= p < s0.len()
            &&& (#[trigger] s0[p]).exchange_order_id == Some(order_id)
            &&& forall|w: int|
                0 <= w < p ==> (#[trigger] s0[w]).exchange_order_id != Some(order_id)
            &&& s1 == s0.update(p, filled_order(s0[p], fill_qty))
        })
}

/// Purging the fully worked rows of a ledger after a fill keeps client ids
/// from the original ledger and keeps them distinct.
proof fn lemma_fill_purge_glue(
    s0: Seq<PendingOrder>,
    mid: Seq<PendingOrder>,
    kept: Seq<PendingOrder>,
    order_id: u64,
    fill_qty: u32,
)
    requires
        fill_applied_rel(s0, mid, order_id, fill_qty),
        kept == keep_orders(mid, |o: PendingOrder| o.remaining_size > 0),
    ensures
        fill_ledger_rel(s0, kept, order_id, fill_qty),
        forall|i: int|
            0 <= i < kept.len() ==> has_client_id(s0, (#[trigger] kept[i]).client_id),
        (forall|i: int, j: int|
            0 <= i < j < s0.len() ==> #[trigger] s0[i].client_id != #[trigger] s0[j].client_id)
            ==> (forall|i: int, j: int|
            0 <= i < j < kept.len() ==> #[trigger] kept[i].client_id
                != #[trigger] kept[j].client_id),
{
    let pred = |o: PendingOrder| o.remaining_size > 0;
    lemma_keep_orders_props(mid, pred);
    assert(forall|w: int| 0 <= w < mid.len() ==> #[trigger] mid[w].client_id == s0[w].client_id);
    assert forall|i: int|
        0 <= i < kept.len() implies has_client_id(s0, (#[trigger] kept[i]).client_id) by {
        assert(mid.contains(kept[i]));
        let w = choose|w: int| 0 <= w < mid.len() && mid[w] == kept[i];
        assert(mid[w].client_id == s0[w].client_id);
    }
    if forall|i: int, j: int|
        0 <= i < j < s0.len() ==> #[trigger] s0[i].client_id != #[trigger] s0[j].client_id {
        assert(forall|i: int, j: int|
            0 <= i < j < mid.len() ==> #[trigger] mid[i].client_id != #[trigger] mid[j].client_id);
    }
}

/// Apply one fill to a ledger: reduce the first matching order's remaining
/// size (saturating at zero) and purge every fully worked row.
fn apply_fill_to_ledger(orders: &mut Vec<PendingOrder>, order_id: u64, fill_qty: u32)
    ensures
        fill_ledger_rel(old(orders)@, final(orders)@, order_id, fill_qty),
        forall|i: int|
            0 <= i < final(orders)@.len() ==> has_client_id(
                old(orders)@,
                (#[trigger] final(orders)@[i]).client_id,
            ),
        (forall|i: int, j: int|
            0 <= i < j < old(orders)@.len() ==> #[trigger] old(orders)@[i].client_id
                != #[trigger] old(orders)@[j].client_id) ==> (forall|i: int, j: int|
            0 <= i < j < final(orders)@.len() ==> #[trigger] final(orders)@[i].client_id
                != #[trigger] final(orders)@[j].client_id),
{
    let ghost orders0 = orders@;
    let n = orders.len();
    let mut p: usize = 0;
    let mut updated = false;
    while p < n && !updated
        invariant
            p <= n,
            n == orders@.len(),
            !updated ==> orders@ == orders0,
            !updated ==> forall|k: int|
                0 <= k < p ==> !((#[trigger] orders0[k]).exchange_order_id == Some(order_id)),
            updated ==> exists|k: int|
                {
                    &&& 0 <= k < orders0.len()
                    &&& (#[trigger] orders0[k]).exchange_order_id == Some(order_id)
                    &&& forall|w: int|
                        0 <= w < k ==> (#[trigger] orders0[w]).exchange_order_id != Some(order_id)
                    &&& orders@ == orders0.update(
                        k,
                        filled_order(orders0[k], fill_qty),
                    )
                },
        decreases
                n - p + (if updated {
                    0int
                } else {
                    1int
                }),
    {
        let o = orders[p];
        let matches_fill = match o.exchange_order_id {
            Some(oid) => oid == order_id,
            None => false,
        };
        if matches_fill {
            let rem = o.remaining_size.saturating_sub(fill_qty);
            let new_state = if rem == 0 {
                OrderState::Active
            } else {
                OrderState::PartiallyFilled
            };
            orders[p] = PendingOrder { remaining_size: rem, state: new_state, ..o };
            updated = true;
        } else {
            p = p + 1;
        }
    }

    let ghost mid_orders = orders@;
    let ghost pred = |o: PendingOrder| o.remaining_size > 0;
    let mut kept: Vec<PendingOrder> = Vec::new();
    let m = orders.len();
    let mut q: usize = 0;
    while q < m
        invariant
            q <= m,
            m == mid_orders.len(),
            mid_orders == orders@,
            kept@ == keep_orders(mid_orders.take(q as int), pred),
            pred == (|o: PendingOrder| o.remaining_size > 0),
        decreases m - q,
    {
        proof {
            assert(mid_orders.take(q as int + 1).drop_last() =~= mid_orders.take(q as int));
            assert(mid_orders.take(q as int + 1).last() == mid_orders[q as int]);
        }
        let o = orders[q];
        if o.remaining_size > 0 {
            kept.push(o);
        }
        q = q + 1;
    }
    proof {
        assert(mid_orders.take(m as int) =~= mid_orders);
        assert(fill_applied_rel(orders0, mid_orders, order_id, fill_qty));
        lemma_fill_purge_glue(orders0, mid_orders, kept@, order_id, fill_qty);
    }
    *orders = kept;
}

/// Addition on the inferred-activity counters, saturating at the type's
/// maximum.
pub open spec fn sat_add_u64(a: int, b: int) -> int {
    if a + b > u64::MAX {
        u64::MAX as int
    } else {
        a + b
    }
}

/// The state after a top-of-book snapshot: best-of-book shifted into the
/// previous fields, the mid recomputed as the mean of bid and ask,
/// unrealized P&L marked to the new mid while a position is open, and (until
/// bootstrap ends) trades and volume inferred from each side's depth
/// decrease.
pub open spec fn spec_feed_state(st: SymbolState, f: FeedEvent) -> SymbolState {
    let mid = (f.best_bid + f.best_ask) / 2;
    let bid_dec: int = if st.best_bid_qty > f.best_bid_qty {
        st.best_bid_qty - f.best_bid_qty
    } else {
        0
    };
    let ask_dec: int = if st.best_ask_qty > f.best_ask_qty {
        st.best_ask_qty - f.best_ask_qty
    } else {
        0
    };
    let new_trades = if !st.is_bootstrapped {
        sat_add_u64(
            sat_add_u64(
                st.total_trades as int,
                if bid_dec > 0 {
                    1
                } else {
                    0
                },
            ),
            if ask_dec > 0 {
                1
            } else {
                0
            },
        )
    } else {
        st.total_trades as int
    };
    let new_volume = if !st.is_bootstrapped {
        sat_add_u64(sat_add_u64(st.total_volume as int, bid_dec), ask_dec)
    } else {
        st.total_volume as int
    };
    let new_unrealized: int = if st.inventory.quantity != 0 {
        (mid - st.inventory.avg_entry_price) * st.inventory.quantity
    } else {
        st.pnl.unrealized as int
    };
    SymbolState {
        best_bid: f.best_bid,
        best_ask: f.best_ask,
        best_bid_qty: f.best_bid_qty,
        best_ask_qty: f.best_ask_qty,
        prev_best_bid: st.best_bid,
        prev_best_ask: st.best_ask,
        prev_best_bid_qty: st.best_bid_qty,
        prev_best_ask_qty: st.best_ask_qty,
        prev_mid_price: st.market_state.mid_price,
        market_state: MarketState {
            mid_price: mid as i64,
            volatility: st.market_state.volatility,
            timestamp: st.market_state.timestamp,
        },
        total_trades: new_trades as u64,
        total_volume: new_volume as u64,
        pnl: PnL {
            realized: st.pnl.realized,
            unrealized: new_unrealized as i128,
            total: (st.pnl.realized + new_unrealized) as i128,
        },
        ..st
    }
}

/// The state after a buy fill: the position grows; while the resulting
/// position is long, the average entry price becomes the size-weighted blend
/// of the old position and the fill; realized P&L is untouched and
/// unrealized P&L is marked from the new average entry.
pub open spec fn spec_buy_fill(st: SymbolState, qty: int, price: int) -> SymbolState {
    let q1 = clamp(st.inventory.quantity + qty, -QTY_CAP as int, QTY_CAP as int);
    let avg1: int = if q1 > 0 {
        clamp(
            div_trunc(
                st.inventory.quantity * st.inventory.avg_entry_price + qty * price,
                q1,
            ),
            -AVG_CAP as int,
            AVG_CAP as int,
        )
    } else {
        st.inventory.avg_entry_price as int
    };
    let u1 = (st.market_state.mid_price - avg1) * q1;
    SymbolState {
        inventory: InventoryPosition { quantity: q1 as i64, avg_entry_price: avg1 as i64 },
        pnl: PnL {
            realized: st.pnl.realized,
            unrealized: u1 as i128,
            total: (st.pnl.realized + u1) as i128,
        },
        ..st
    }
}

/// The state after a sell fill: realized P&L accrues the spread against the
/// average entry before the position shrinks; the average entry never
/// changes; unrealized P&L is remarked and forced to zero on a flat
/// position.
pub open spec fn spec_sell_fill(st: SymbolState, qty: int, price: int) -> SymbolState {
    let delta = (price - st.inventory.avg_entry_price) * qty;
    let r1 = clamp(st.pnl.realized + delta, -(PNL_CAP as int), PNL_CAP as int);
    let q1 = clamp(st.inventory.quantity - qty, -QTY_CAP as int, QTY_CAP as int);
    let u1: int = if q1 != 0 {
        (st.market_state.mid_price - st.inventory.avg_entry_price) * q1
    } else {
        0
    };
    SymbolState {
        inventory: InventoryPosition {
            quantity: q1 as i64,
            avg_entry_price: st.inventory.avg_entry_price,
        },
        pnl: PnL { realized: r1 as i128, unrealized: u1 as i128, total: (r1 + u1) as i128 },
        ..st
    }
}

impl MarketMaker {
    /// Apply a top-of-book snapshot to its symbol's state.
    pub fn update_state_from_feed(&mut self, market_feed: FeedEvent) -> (r: Result<(), MmError>)
        requires
            old(self).wf(),
            price_ok(market_feed.best_bid as int),
            price_ok(market_feed.best_ask as int),
        ensures
            final(self).wf(),
            final(self).cancel_batch == old(self).cancel_batch,
            final(self).post_batch == old(self).post_batch,
            final(self).symbol_ctx@.len() == old(self).symbol_ctx@.len(),
            match r {
                Ok(u) => old(self).has_symbol(market_feed.symbol),
                Err(e) => e == MmError::SymbolNotFound && !old(self).has_symbol(market_feed.symbol)
                    && final(self).symbol_ctx == old(self).symbol_ctx,
            },
            forall|k: int|
                0 <= k < old(self).symbol_ctx@.len() && old(self).symbol_ctx@[k].state.symbol
                    != market_feed.symbol ==> #[trigger] final(self).symbol_ctx@[k] == old(
                    self,
                ).symbol_ctx@[k],
            forall|k: int|
                0 <= k < old(self).symbol_ctx@.len() && #[trigger] old(
                    self,
                ).symbol_ctx@[k].state.symbol == market_feed.symbol ==> final(self).symbol_ctx@[k].orders
                    == old(self).symbol_ctx@[k].orders && final(self).symbol_ctx@[k].state
                    == spec_feed_state(old(self).symbol_ctx@[k].state, market_feed),
    {
        let idx = match self.find_symbol(market_feed.symbol) {
            Some(i) => i,
            None => {
                return Err(MmError::SymbolNotFound);
            },
        };
        let mut ctx = self.symbol_ctx.remove(idx);
        let ghost st0 = ctx.state;

        ctx.state.prev_best_bid = ctx.state.best_bid;
        ctx.state.prev_best_ask = ctx.state.best_ask;
        ctx.state.prev_best_bid_qty = ctx.state.best_bid_qty;
        ctx.state.prev_best_ask_qty = ctx.state.best_ask_qty;
        ctx.state.prev_mid_price = ctx.state.market_state.mid_price;

        ctx.state.best_ask = market_feed.best_ask;
        ctx.state.best_bid = market_feed.best_bid;
        ctx.state.best_ask_qty = market_feed.best_ask_qty;
        ctx.state.best_bid_qty = market_feed.best_bid_qty;

        if !ctx.state.is_bootstrapped {
            let bid_moved = ctx.state.best_bid != ctx.state.prev_best_bid;
            let ask_moved = ctx.state.best_ask != ctx.state.prev_best_ask;
            let bid_depth_decreased = ctx.state.best_bid_qty < ctx.state.prev_best_bid_qty;
            let ask_depth_decreased = ctx.state.best_ask_qty < ctx.state.prev_best_ask_qty;

            if bid_moved || bid_depth_decreased {
                let qty_change = ctx.state.prev_best_bid_qty.saturating_sub(
                    ctx.state.best_bid_qty,
                );
                if qty_change > 0 {
                    ctx.state.total_volume = ctx.state.total_volume.saturating_add(
                        qty_change as u64,
                    );
                    ctx.state.total_trades = ctx.state.total_trades.saturating_add(1);
                }
            }
            if ask_moved || ask_depth_decreased {
                let qty_change = ctx.state.prev_best_ask_qty.saturating_sub(
                    ctx.state.best_ask_qty,
                );
                if qty_change > 0 {
                    ctx.state.total_volume = ctx.state.total_volume.saturating_add(
                        qty_change as u64,
                    );
                    ctx.state.total_trades = ctx.state.total_trades.saturating_add(1);
                }
            }
        }

        let mid: i64 = (((market_feed.best_bid as u64) + (market_feed.best_ask as u64)) / 2) as i64;
        ctx.state.market_state.mid_price = mid;

        if ctx.state.inventory.quantity != 0 {
            let diff: i128 = (mid as i128) - (ctx.state.inventory.avg_entry_price as i128);
            proof {
                crate::num::lemma_mul_abs_bound(
                    diff as int,
                    (PRICE_MAX + AVG_CAP) as int,
                    ctx.state.inventory.quantity as int,
                    QTY_CAP as int,
                );
            }
            let new_unrealised: i128 = diff * (ctx.state.inventory.quantity as i128);
            let realized = ctx.state.pnl.realized;
            ctx.state.pnl.update(realized, new_unrealised);
        }

        proof {
            assert(ctx.state == spec_feed_state(st0, market_feed));
        }
        self.symbol_ctx.insert(idx, ctx);
        proof {
            assert(final(self).symbol_ctx@ =~= old(self).symbol_ctx@.update(
                idx as int,
                final(self).symbol_ctx@[idx as int],
            ));
        }
        Ok(())
    }

    /// Apply a fill to its symbol's inventory and P&L; side 0 is a buy of the
    /// engine's own order, side 1 a sell, and any other value a no-op.
    pub fn update_inventory_from_fill(&mut self, market_fill: FillEvent) -> (r: Result<
        (),
        MmError,
    >)
        requires
            old(self).wf(),
            0 <= market_fill.fill_price <= PRICE_MAX,
        ensures
            final(self).wf(),
            final(self).cancel_batch == old(self).cancel_batch,
            final(self).post_batch == old(self).post_batch,
            final(self).symbol_ctx@.len() == old(self).symbol_ctx@.len(),
            match r {
                Ok(u) => old(self).has_symbol(market_fill.symbol),
                Err(e) => e == MmError::SymbolNotFound && !old(self).has_symbol(market_fill.symbol)
                    && final(self).symbol_ctx == old(self).symbol_ctx,
            },
            forall|k: int|
                0 <= k < old(self).symbol_ctx@.len() && old(self).symbol_ctx@[k].state.symbol
                    != market_fill.symbol ==> #[trigger] final(self).symbol_ctx@[k] == old(
                    self,
                ).symbol_ctx@[k],
            forall|k: int|
                0 <= k < old(self).symbol_ctx@.len() && #[trigger] old(
                    self,
                ).symbol_ctx@[k].state.symbol == market_fill.symbol ==> final(self).symbol_ctx@[k].orders
                    == old(self).symbol_ctx@[k].orders && final(self).symbol_ctx@[k].state
                    == (if market_fill.side_of_mm_order == 0 {
                    spec_buy_fill(
                        old(self).symbol_ctx@[k].state,
                        market_fill.fill_quantity as int,
                        market_fill.fill_price as int,
                    )
                } else if market_fill.side_of_mm_order == 1 {
                    spec_sell_fill(
                        old(self).symbol_ctx@[k].state,
                        market_fill.fill_quantity as int,
                        market_fill.fill_price as int,
                    )
                } else {
                    old(self).symbol_ctx@[k].state
                }),
    {
        let idx = match self.find_symbol(market_fill.symbol) {
            Some(i) => i,
            None => {
                return Err(MmError::SymbolNotFound);
            },
        };
        let mut ctx = self.symbol_ctx.remove(idx);
        let ghost st0 = ctx.state;
        let fill_qty: i128 = market_fill.fill_quantity as i128;
        let fill_price: i128 = market_fill.fill_price as i128;

        if market_fill.side_of_mm_order == 0 {
            let old_qty = ctx.state.inventory.quantity;
            let old_avg = ctx.state.inventory.avg_entry_price;
            let q1_128 = clamp_i128(
                (old_qty as i128) + fill_qty,
                -(QTY_CAP as i128),
                QTY_CAP as i128,
            );
            let q1: i64 = q1_128 as i64;
            ctx.state.inventory.quantity = q1;

            if q1 > 0 {
                proof {
                    crate::num::lemma_mul_abs_bound(
                        old_qty as int,
                        QTY_CAP as int,
                        old_avg as int,
                        AVG_CAP as int,
                    );
                    crate::num::lemma_mul_abs_bound(
                        fill_qty as int,
                        u32::MAX as int,
                        fill_price as int,
                        PRICE_MAX as int,
                    );
                }
                let num: i128 = (old_qty as i128) * (old_avg as i128) + fill_qty * fill_price;
                proof {
                    crate::num::lemma_div_trunc_bound(num as int, q1 as int);
                }
                let blended = div_trunc_i128(num, q1 as i128);
                let avg1 = clamp_i128(blended, -(AVG_CAP as i128), AVG_CAP as i128);
                ctx.state.inventory.avg_entry_price = avg1 as i64;
            }

            let diff: i128 = (ctx.state.market_state.mid_price as i128)
                - (ctx.state.inventory.avg_entry_price as i128);
            proof {
                crate::num::lemma_mul_abs_bound(
                    diff as int,
                    (PRICE_MAX + AVG_CAP) as int,
                    q1 as int,
                    QTY_CAP as int,
                );
            }
            let new_unrealised: i128 = diff * (q1 as i128);
            let new_realised = ctx.state.pnl.realized;
            ctx.state.pnl.update(new_realised, new_unrealised);
            proof {
                assert(ctx.state == spec_buy_fill(
                    st0,
                    market_fill.fill_quantity as int,
                    market_fill.fill_price as int,
                ));
            }
        } else if market_fill.side_of_mm_order == 1 {
            let old_realised = ctx.state.pnl.realized;
            let old_avg = ctx.state.inventory.avg_entry_price;
            proof {
                crate::num::lemma_mul_abs_bound(
                    (fill_price as int) - (old_avg as int),
                    (PRICE_MAX + AVG_CAP) as int,
                    fill_qty as int,
                    u32::MAX as int,
                );
            }
            let realized_pnl_from_sale: i128 = (fill_price - (old_avg as i128)) * fill_qty;
            let q1_128 = clamp_i128(
                (ctx.state.inventory.quantity as i128) - fill_qty,
                -(QTY_CAP as i128),
                QTY_CAP as i128,
            );
            let q1: i64 = q1_128 as i64;
            ctx.state.inventory.quantity = q1;

            let new_realized = clamp_i128(
                old_realised + realized_pnl_from_sale,
                -PNL_CAP,
                PNL_CAP,
            );
            let new_unrealized: i128 = if q1 != 0 {
                let diff: i128 = (ctx.state.market_state.mid_price as i128) - (old_avg as i128);
                proof {
                    crate::num::lemma_mul_abs_bound(
                        diff as int,
                        (PRICE_MAX + AVG_CAP) as int,
                        q1 as int,
                        QTY_CAP as int,
                    );
                }
                diff * (q1 as i128)
            } else {
                0
            };
            ctx.state.pnl.update(new_realized, new_unrealized);
            proof {
                assert(ctx.state == spec_sell_fill(
                    st0,
                    market_fill.fill_quantity as int,
                    market_fill.fill_price as int,
                ));
            }
        }

        self.symbol_ctx.insert(idx, ctx);
        proof {
            assert(final(self).symbol_ctx@ =~= old(self).symbol_ctx@.update(
                idx as int,
                final(self).symbol_ctx@[idx as int],
            ));
        }
        Ok(())
    }
}

/// One family of cancellation sweeps over a ledger.
#[derive(Debug, Clone, Copy, PartialEq, Eq, Structural)]
pub enum CancelSweep {
    /// Orders now on the wrong side of the mid price.
    WrongSideOfMid { mid: i64 },
    /// Every Active order.
    All,
    /// Every Active order on one side.
    OneSide { side: Side },
}

/// Whether a sweep cancels this order: it must be Active and carry an
/// exchange id, and meet the sweep's own criterion.
pub open spec fn sweep_cond(c: CancelSweep, o: PendingOrder) -> bool {
    &&& o.state == OrderState::Active
    &&& o.exchange_order_id is Some
    &&& match c {
        CancelSweep::WrongSideOfMid { mid } => (o.side == Side::BID && o.price > mid) || (o.side
            == Side::ASK && o.price < mid),
        CancelSweep::All => true,
        CancelSweep::OneSide { side } => o.side == side,
    }
}

/// A ledger with every order that a sweep cancels marked `PendingCancel`.
pub open spec fn mark_swept(s: Seq<PendingOrder>, c: CancelSweep) -> Seq<PendingOrder> {
    Seq::new(
        s.len(),
        |i: int|
            if sweep_cond(c, s[i]) {
                PendingOrder { state: OrderState::PendingCancel, ..s[i] }
            } else {
                s[i]
            },
    )
}

/// The cancel intents a sweep emits, in ledger order.
pub open spec fn swept_cancels(s: Seq<PendingOrder>, c: CancelSweep, symbol: u32) -> Seq<
    CancelData,
>
    decreases s.len(),
{
    if s.len() == 0 {
        Seq::empty()
    } else {
        let prefix = swept_cancels(s.drop_last(), c, symbol);
        if sweep_cond(c, s.last()) {
            prefix.push(
                CancelData {
                    symbol,
                    client_id: s.last().client_id,
                    order_id: s.last().exchange_order_id,
                },
            )
        } else {
            prefix
        }
    }
}

/// Run one cancellation sweep: mark each hit `PendingCancel` and append its
/// cancel intent to the batch.
fn sweep_cancel(
    orders: &mut Vec<PendingOrder>,
    cancel_batch: &mut Vec<CancelData>,
    symbol: u32,
    sweep: CancelSweep,
)
    ensures
        final(orders)@ == mark_swept(old(orders)@, sweep),
        final(cancel_batch)@ == old(cancel_batch)@ + swept_cancels(old(orders)@, sweep, symbol),
{
    let ghost orders0 = orders@;
    let ghost batch0 = cancel_batch@;
    let n = orders.len();
    let mut i: usize = 0;
    while i < n
        invariant
            i <= n,
            n == orders0.len(),
            orders@.len() == orders0.len(),
            batch0 == old(cancel_batch)@,
            orders0 == old(orders)@,
            forall|k: int|
                0 <= k < i ==> #[trigger] orders@[k] == if sweep_cond(sweep, orders0[k]) {
                    PendingOrder { state: OrderState::PendingCancel, ..orders0[k] }
                } else {
                    orders0[k]
                },
            forall|k: int| i <= k < n ==> #[trigger] orders@[k] == orders0[k],
            cancel_batch@ == batch0 + swept_cancels(orders0.take(i as int), sweep, symbol),
        decreases n - i,
    {
        proof {
            assert(orders0.take(i as int + 1).drop_last() =~= orders0.take(i as int));
            assert(orders0.take(i as int + 1).last() == orders0[i as int]);
        }
        let o = orders[i];
        if o.state == OrderState::Active {
            let hit = match sweep {
                CancelSweep::WrongSideOfMid { mid } => (o.side == Side::BID && o.price > mid) || (
                o.side == Side::ASK && o.price < mid),
                CancelSweep::All => true,
                CancelSweep::OneSide { side } => o.side == side,
            };
            if hit {
                match o.exchange_order_id {
                    Some(order_id) => {
                        cancel_batch.push(
                            CancelData { symbol, client_id: o.client_id, order_id: Some(order_id) },
                        );
                        orders[i] = PendingOrder { state: OrderState::PendingCancel, ..o };
                    },
                    None => {},
                }
            }
        }
        i = i + 1;
    }
    proof {
        assert(orders0.take(n as int) =~= orders0);
        assert(orders@ =~= mark_swept(orders0, sweep));
    }
}

/// The mid price has moved more than 0.1 percent since the previous
/// snapshot.
pub open spec fn spec_depth_price_shock(st: SymbolState) -> bool {
    st.prev_mid_price != 0 && abs(st.market_state.mid_price - st.prev_mid_price) * 1000
        > st.prev_mid_price
}

/// The spread has collapsed below the minimum quotable spread.
pub open spec fn spec_spread_collapsed(st: SymbolState) -> bool {
    st.best_ask - st.best_bid < MIN_QUOTABLE_SPREAD
}

/// One side's resting depth has fallen below 30 percent of its previous
/// value.
pub open spec fn spec_depth_evaporated(prev_qty: int, qty: int) -> bool {
    prev_qty > 0 && qty * 10 < prev_qty * 3
}

/// The mid price after a feed update, with a price shock applied: the ledger
/// after the wrong-side sweep runs (when the mid moved more than 0.1
/// percent).
pub open spec fn after_price_shock(st: SymbolState, s0: Seq<PendingOrder>) -> Seq<PendingOrder> {
    if spec_depth_price_shock(st) {
        mark_swept(s0, CancelSweep::WrongSideOfMid { mid: st.market_state.mid_price })
    } else {
        s0
    }
}

/// The ledger after the whole depth-shock check.
pub open spec fn depth_shock_orders(st: SymbolState, s0: Seq<PendingOrder>) -> Seq<PendingOrder> {
    let s1 = after_price_shock(st, s0);
    if spec_spread_collapsed(st) {
        mark_swept(s1, CancelSweep::All)
    } else {
        let s2 = if spec_depth_evaporated(st.prev_best_bid_qty as int, st.best_bid_qty as int) {
            mark_swept(s1, CancelSweep::OneSide { side: Side::BID })
        } else {
            s1
        };
        if spec_depth_evaporated(st.prev_best_ask_qty as int, st.best_ask_qty as int) {
            mark_swept(s2, CancelSweep::OneSide { side: Side::ASK })
        } else {
            s2
        }
    }
}

/// The cancel intents the whole depth-shock check appends, in order.
pub open spec fn depth_shock_cancels(st: SymbolState, s0: Seq<PendingOrder>, symbol: u32) -> Seq<
    CancelData,
> {
    let s1 = after_price_shock(st, s0);
    let c1 = if spec_depth_price_shock(st) {
        swept_cancels(s0, CancelSweep::WrongSideOfMid { mid: st.market_state.mid_price }, symbol)
    } else {
        Seq::<CancelData>::empty()
    };
    if spec_spread_collapsed(st) {
        c1 + swept_cancels(s1, CancelSweep::All, symbol)
    } else {
        let bid_evap = spec_depth_evaporated(st.prev_best_bid_qty as int, st.best_bid_qty as int);
        let s2 = if bid_evap {
            mark_swept(s1, CancelSweep::OneSide { side: Side::BID })
        } else {
            s1
        };
        let c2 = if bid_evap {
            swept_cancels(s1, CancelSweep::OneSide { side: Side::BID }, symbol)
        } else {
            Seq::<CancelData>::empty()
        };
        let c3 = if spec_depth_evaporated(st.prev_best_ask_qty as int, st.best_ask_qty as int) {
            swept_cancels(s2, CancelSweep::OneSide { side: Side::ASK }, symbol)
        } else {
            Seq::<CancelData>::empty()
        };
        c1 + c2 + c3
    }
}

impl MarketMaker {
    /// React to a depth shock after a feed update: cancel orders stranded on
    /// the wrong side of a fast-moving mid, cancel everything under a
    /// collapsed spread (skipping the remaining checks), and cancel a side
    /// whose resting depth has evaporated. Unknown symbols are ignored.
    #[verifier::rlimit(60)]
    pub fn check_if_depth_update_causes_cancellation(&mut self, symbol: u32)
        requires
            old(self).wf(),
        ensures
            final(self).wf(),
            final(self).post_batch == old(self).post_batch,
            final(self).symbol_ctx@.len() == old(self).symbol_ctx@.len(),
            !old(self).has_symbol(symbol) ==> *final(self) == *old(self),
            forall|k: int|
                0 <= k < old(self).symbol_ctx@.len() && old(self).symbol_ctx@[k].state.symbol
                    != symbol ==> #[trigger] final(self).symbol_ctx@[k] == old(self).symbol_ctx@[k],
            forall|k: int|
                0 <= k < old(self).symbol_ctx@.len() && #[trigger] old(self).symbol_ctx@[k].state.symbol
                    == symbol ==> {
                    let oldc = old(self).symbol_ctx@[k];
                    let newc = final(self).symbol_ctx@[k];
                    &&& newc.state == oldc.state
                    &&& newc.orders.symbol == oldc.orders.symbol
                    &&& newc.orders.next_client_id == oldc.orders.next_client_id
                    &&& newc.orders.last_quote_time == oldc.orders.last_quote_time
                    &&& newc.orders.pending_orders@ == depth_shock_orders(
                        oldc.state,
                        oldc.orders.pending_orders@,
                    )
                    &&& final(self).cancel_batch@ == old(self).cancel_batch@ + depth_shock_cancels(
                        oldc.state,
                        oldc.orders.pending_orders@,
                        symbol,
                    )
                },
    {
        let idx = match self.find_symbol(symbol) {
            Some(i) => i,
            None => {
                return ;
            },
        };
        let mut ctx = self.symbol_ctx.remove(idx);
        let ghost st = ctx.state;
        let ghost s0 = ctx.orders.pending_orders@;
        let ghost batch0 = self.cancel_batch@;

        let mid_price = ctx.state.market_state.mid_price;
        let prev_mid_price = ctx.state.prev_mid_price;
        let best_bid = ctx.state.best_bid;
        let best_ask = ctx.state.best_ask;
        let prev_best_bid_qty = ctx.state.prev_best_bid_qty;
        let prev_best_ask_qty = ctx.state.prev_best_ask_qty;
        let best_bid_qty = ctx.state.best_bid_qty;
        let best_ask_qty = ctx.state.best_ask_qty;

        let diff: i128 = (mid_price as i128) - (prev_mid_price as i128);
        let price_move: i128 = if diff < 0 {
            -diff
        } else {
            diff
        };
        if prev_mid_price != 0 && price_move * 1000 > (prev_mid_price as i128) {
            sweep_cancel(
                &mut ctx.orders.pending_orders,
                &mut self.cancel_batch,
                symbol,
                CancelSweep::WrongSideOfMid { mid: mid_price },
            );
        }
        proof {
            assert(ctx.orders.pending_orders@ == after_price_shock(st, s0));
        }

        let current_spread = best_ask - best_bid;
        if current_spread < MIN_QUOTABLE_SPREAD {
            sweep_cancel(
                &mut ctx.orders.pending_orders,
                &mut self.cancel_batch,
                symbol,
                CancelSweep::All,
            );
            proof {
                assert(ctx.orders.pending_orders@ == depth_shock_orders(st, s0));
                assert(self.cancel_batch@ =~= batch0 + depth_shock_cancels(st, s0, symbol));
            }
            self.symbol_ctx.insert(idx, ctx);
            proof {
                assert(final(self).symbol_ctx@ =~= old(self).symbol_ctx@.update(
                    idx as int,
                    final(self).symbol_ctx@[idx as int],
                ));
            }
            return ;
        }

        if prev_best_bid_qty > 0 && (best_bid_qty as u64) * 10 < (prev_best_bid_qty as u64) * 3 {
            sweep_cancel(
                &mut ctx.orders.pending_orders,
                &mut self.cancel_batch,
                symbol,
                CancelSweep::OneSide { side: Side::BID },
            );
        }
        if prev_best_ask_qty > 0 && (best_ask_qty as u64) * 10 < (prev_best_ask_qty as u64) * 3 {
            sweep_cancel(
                &mut ctx.orders.pending_orders,
                &mut self.cancel_batch,
                symbol,
                CancelSweep::OneSide { side: Side::ASK },
            );
        }
        proof {
            assert(ctx.orders.pending_orders@ == depth_shock_orders(st, s0));
            assert(self.cancel_batch@ =~= batch0 + depth_shock_cancels(st, s0, symbol));
        }
        self.symbol_ctx.insert(idx, ctx);
        proof {
            assert(final(self).symbol_ctx@ =~= old(self).symbol_ctx@.update(
                idx as int,
                final(self).symbol_ctx@[idx as int],
            ));
        }
    }
}

/// An Active order that is unprofitable at this mid and spread.
pub open spec fn risk_unprof_cond(o: PendingOrder, mid: int, spread: int) -> bool {
    o.state == OrderState::Active && SymbolState::spec_unprofitable(o, mid, spread)
}

/// An Active order that would grow a nearly capped position.
pub open spec fn risk_inv_cond(o: PendingOrder, inv: int) -> bool {
    o.state == OrderState::Active && SymbolState::spec_cancel_due_to_inventory(o, inv)
}

/// The cancel intents of the per-cycle risk pass, in ledger order: for each
/// order first the profitability intent, then the inventory intent. The
/// profitability check does not mark the order, so one order can emit both.
pub open spec fn risk_cancels(
    s: Seq<PendingOrder>,
    mid: int,
    spread: int,
    inv: int,
    symbol: u32,
) -> Seq<CancelData>
    decreases s.len(),
{
    if s.len() == 0 {
        Seq::empty()
    } else {
        let prefix = risk_cancels(s.drop_last(), mid, spread, inv, symbol);
        let o = s.last();
        let cd = CancelData { symbol, client_id: o.client_id, order_id: o.exchange_order_id };
        let with_unprof = if risk_unprof_cond(o, mid, spread) {
            prefix.push(cd)
        } else {
            prefix
        };
        if risk_inv_cond(o, inv) {
            with_unprof.push(cd)
        } else {
            with_unprof
        }
    }
}

/// The ledger after the risk pass: inventory-cancelled orders are marked
/// `PendingCancel`; profitability intents leave the order's state alone.
pub open spec fn risk_marked(s: Seq<PendingOrder>, inv: int) -> Seq<PendingOrder> {
    Seq::new(
        s.len(),
        |i: int|
            if risk_inv_cond(s[i], inv) {
                PendingOrder { state: OrderState::PendingCancel, ..s[i] }
            } else {
                s[i]
            },
    )
}

/// Run the per-cycle profitability and inventory cancellation pass over one
/// ledger.
fn risk_cancel_pass(
    state: &SymbolState,
    orders: &mut Vec<PendingOrder>,
    cancel_batch: &mut Vec<CancelData>,
    symbol: u32,
)
    requires
        state.wf(),
    ensures
        final(orders)@ == risk_marked(
            old(orders)@,
            state.inventory.quantity as int,
        ),
        final(cancel_batch)@ == old(cancel_batch)@ + risk_cancels(
            old(orders)@,
            state.market_state.mid_price as int,
            (state.best_ask - state.best_bid) as int,
            state.inventory.quantity as int,
            symbol,
        ),
{
    let ghost orders0 = orders@;
    let ghost batch0 = cancel_batch@;
    let mid = state.market_state.mid_price;
    let spread = state.best_ask - state.best_bid;
    let inv = state.inventory.quantity;
    let n = orders.len();
    let mut i: usize = 0;
    while i < n
        invariant
            i <= n,
            n == orders0.len(),
            orders@.len() == orders0.len(),
            state.wf(),
            mid == state.market_state.mid_price,
            spread == state.best_ask - state.best_bid,
            inv == state.inventory.quantity,
            batch0 == old(cancel_batch)@,
            orders0 == old(orders)@,
            forall|k: int|
                0 <= k < i ==> #[trigger] orders@[k] == if risk_inv_cond(orders0[k], inv as int) {
                    PendingOrder { state: OrderState::PendingCancel, ..orders0[k] }
                } else {
                    orders0[k]
                },
            forall|k: int| i <= k < n ==> #[trigger] orders@[k] == orders0[k],
            cancel_batch@ == batch0 + risk_cancels(
                orders0.take(i as int),
                mid as int,
                spread as int,
                inv as int,
                symbol,
            ),
        decreases n - i,
    {
        proof {
            assert(orders0.take(i as int + 1).drop_last() =~= orders0.take(i as int));
            assert(orders0.take(i as int + 1).last() == orders0[i as int]);
        }
        let o = orders[i];
        if state.should_cancel_unprofitable_order(&o, mid, spread) {
            if o.state == OrderState::Active {
                cancel_batch.push(
                    CancelData { symbol, client_id: o.client_id, order_id: o.exchange_order_id },
                );
            }
        }
        if state.should_cancel_due_to_inventory(&o, inv) {
            if o.state == OrderState::Active {
                cancel_batch.push(
                    CancelData { symbol, client_id: o.client_id, order_id: o.exchange_order_id },
                );
                orders[i] = PendingOrder { state: OrderState::PendingCancel, ..o };
            }
        }
        i = i + 1;
    }
    proof {
        assert(orders0.take(n as int) =~= orders0);
        assert(orders@ =~= risk_marked(orders0, inv as int));
    }
}

/// The symbol-state fields that neither the sampling, the volatility nor the
/// management step ever touches are equal.
pub open spec fn market_core_eq(a: SymbolState, b: SymbolState) -> bool {
    &&& a.symbol == b.symbol
    &&& a.ipo_price == b.ipo_price
    &&& a.best_bid == b.best_bid
    &&& a.best_ask == b.best_ask
    &&& a.best_bid_qty == b.best_bid_qty
    &&& a.best_ask_qty == b.best_ask_qty
    &&& a.prev_best_bid == b.prev_best_bid
    &&& a.prev_best_ask == b.prev_best_ask
    &&& a.prev_best_bid_qty == b.prev_best_bid_qty
    &&& a.prev_best_ask_qty == b.prev_best_ask_qty
    &&& a.prev_mid_price == b.prev_mid_price
    &&& a.market_state.mid_price == b.market_state.mid_price
    &&& a.market_state.timestamp == b.market_state.timestamp
    &&& a.inventory == b.inventory
    &&& a.pnl == b.pnl
    &&& a.risk_aversion == b.risk_aversion
    &&& a.time_to_terminal == b.time_to_terminal
    &&& a.liquidity_k == b.liquidity_k
    &&& a.total_trades == b.total_trades
    &&& a.total_volume == b.total_volume
}

/// How the sampling and volatility cadence steps transform a symbol state:
/// on the sampling cadence the mid enters the rolling window; on the
/// volatility cadence the estimator runs over the window (skipping the
/// two-price history that would divide by zero) and its capped result is
/// stored, a failure keeping the previous estimate. Mode, bootstrap flag and
/// management timestamp are untouched.
pub open spec fn cadence_steps_rel(s0: SymbolState, s1: SymbolState, now: u64) -> bool {
    let sample_due = order_age(now as int, s0.last_sample_time as int) >= SAMPLE_GAP_MS;
    let deque0 = s0.rolling_prices.deque@;
    let cap = s0.rolling_prices.capacity;
    let deque1 = if sample_due {
        if deque0.len() == cap && cap > 0 {
            deque0.drop_first().push(s0.market_state.mid_price)
        } else {
            deque0.push(s0.market_state.mid_price)
        }
    } else {
        deque0
    };
    let vol_due = order_age(now as int, s0.last_volatility_calc as int)
        >= VOLATILITY_CALC_GAP_MS;
    let vol1 = if vol_due && deque1.len() != 2 {
        match vol_estimate(deque1) {
            Option::Some(v) => if v > VOL_INPUT_CAP {
                VOL_INPUT_CAP
            } else {
                v
            },
            Option::None => s0.market_state.volatility,
        }
    } else {
        s0.market_state.volatility
    };
    &&& market_core_eq(s0, s1)
    &&& s1.current_mode == s0.current_mode
    &&& s1.prev_mode == s0.prev_mode
    &&& s1.is_bootstrapped == s0.is_bootstrapped
    &&& s1.last_management_cycle_time == s0.last_management_cycle_time
    &&& s1.rolling_prices.deque@ == deque1
    &&& s1.rolling_prices.capacity == cap
    &&& s1.last_sample_time == if sample_due {
        now
    } else {
        s0.last_sample_time
    }
    &&& s1.market_state.volatility == vol1
    &&& s1.last_volatility_calc == if vol_due {
        now
    } else {
        s0.last_volatility_calc
    }
}

/// The requote stage runs: the requote decision holds, the ladder build
/// succeeds, and the client-id allocator has room for every target level.
pub open spec fn requote_fires(
    st: SymbolState,
    orders: Seq<PendingOrder>,
    next: u64,
    last_quote_time: u64,
    now: u64,
) -> bool {
    &&& spec_should_requote_on(st, orders, last_quote_time, now as int)
    &&& match spec_cycle_ladder(st) {
        Option::Some(l) => next + l.0.len() + l.1.len() <= u64::MAX,
        Option::None => false,
    }
}

/// The post intents a firing requote emits.
pub open spec fn requote_posts(
    st: SymbolState,
    orders: Seq<PendingOrder>,
    next: u64,
    symbol: u32,
) -> Seq<PostData> {
    match spec_cycle_ladder(st) {
        Option::Some(l) => posts_from(
            uncovered_levels(l.1, Side::ASK, orders),
            uncovered_levels(l.0, Side::BID, orders),
            symbol,
            next as int,
        ),
        Option::None => Seq::<PostData>::empty(),
    }
}

/// The cancel intents a firing requote emits.
pub open spec fn requote_cancel_intents(
    st: SymbolState,
    orders: Seq<PendingOrder>,
    symbol: u32,
) -> Seq<CancelData> {
    match spec_cycle_ladder(st) {
        Option::Some(l) => requote_cancels(orders, l.0, l.1).map_values(
            |t: (u64, u64)| cancel_of_pair(t, symbol),
        ),
        Option::None => Seq::<CancelData>::empty(),
    }
}

/// The whole management step, from the post-cadence state and ledger to the
/// final context and the appended cancel/post intents: the risk and age
/// cancellation passes run and mark, the bootstrap flag latches, the mode is
/// re-evaluated, a firing requote reconciles the ladder against the ledger,
/// and the management timestamp is stamped.
pub open spec fn management_rel(
    st_mid: SymbolState,
    orders_mid: SymbolOrders,
    c1: SymbolContext,
    cs: Seq<CancelData>,
    ps: Seq<PostData>,
    symbol: u32,
    now: u64,
) -> bool {
    let pending0 = orders_mid.pending_orders@;
    let inv = st_mid.inventory.quantity;
    let mid = st_mid.market_state.mid_price;
    let spread = st_mid.best_ask - st_mid.best_bid;
    let orders1 = risk_marked(pending0, inv as int);
    let c_risk = risk_cancels(pending0, mid as int, spread as int, inv as int, symbol);
    let orders2 = stale_marked(orders1, now as int);
    let c_stale = stale_cancels(orders1, symbol, now as int);
    let boot1 = st_mid.is_bootstrapped || st_mid.spec_exit_bootstrap();
    let st1 = SymbolState { is_bootstrapped: boot1, ..st_mid };
    let mode = st1.spec_next_mode();
    let boot2 = boot1 || (!st1.spec_emergency() && !st1.spec_inventory_capped()
        && st1.spec_exit_bootstrap());
    let st2 = SymbolState {
        current_mode: mode,
        prev_mode: st1.current_mode,
        is_bootstrapped: boot2,
        ..st1
    };
    let fires = requote_fires(
        st2,
        orders2,
        orders_mid.next_client_id,
        orders_mid.last_quote_time,
        now,
    );
    let cs3 = if fires {
        requote_cancel_intents(st2, orders2, symbol)
    } else {
        Seq::<CancelData>::empty()
    };
    let posts = if fires {
        requote_posts(st2, orders2, orders_mid.next_client_id, symbol)
    } else {
        Seq::<PostData>::empty()
    };
    &&& cs == c_risk + c_stale + cs3
    &&& ps == posts
    &&& c1.state == (SymbolState { last_management_cycle_time: now, ..st2 })
    &&& c1.orders.symbol == orders_mid.symbol
    &&& c1.orders.pending_orders@ == orders2 + posts.map_values(
        |p: PostData| order_of_post(p, now),
    )
    &&& c1.orders.next_client_id == orders_mid.next_client_id + posts.len()
    &&& c1.orders.last_quote_time == if fires {
        now
    } else {
        orders_mid.last_quote_time
    }
}

/// The whole per-symbol cycle: the cadence steps, then (on the management
/// cadence) the management step; outside the management cadence nothing else
/// changes and no intent is emitted.
pub open spec fn symbol_cycle_rel(
    c0: SymbolContext,
    c1: SymbolContext,
    cs: Seq<CancelData>,
    ps: Seq<PostData>,
    symbol: u32,
    now: u64,
) -> bool {
    let st_mid = SymbolState {
        current_mode: c0.state.current_mode,
        prev_mode: c0.state.prev_mode,
        is_bootstrapped: c0.state.is_bootstrapped,
        last_management_cycle_time: c0.state.last_management_cycle_time,
        ..c1.state
    };
    &&& cadence_steps_rel(c0.state, st_mid, now)
    &&& if order_age(now as int, c0.state.last_management_cycle_time as int) >= CYCLE_GAP_MS {
        management_rel(st_mid, c0.orders, c1, cs, ps, symbol, now)
    } else {
        &&& c1.state == st_mid
        &&& c1.orders == c0.orders
        &&& cs == Seq::<CancelData>::empty()
        &&& ps == Seq::<PostData>::empty()
    }
}

/// How one feed event transforms the symbol table and the cancel batch: an
/// unknown symbol changes nothing; otherwise the matching context takes the
/// snapshot and the depth-shock check runs on it.
pub open spec fn feed_step_rel(
    t0: Seq<SymbolContext>,
    b0: Seq<CancelData>,
    t1: Seq<SymbolContext>,
    b1: Seq<CancelData>,
    f: FeedEvent,
) -> bool {
    if forall|k: int| 0 <= k < t0.len() ==> (#[trigger] t0[k]).state.symbol != f.symbol {
        t1 == t0 && b1 == b0
    } else {
        &&& t1.len() == t0.len()
        &&& forall|k: int|
            0 <= k < t0.len() && (#[trigger] t0[k]).state.symbol != f.symbol ==> t1[k] == t0[k]
        &&& forall|k: int|
            0 <= k < t0.len() && (#[trigger] t0[k]).state.symbol == f.symbol ==> {
                let st_f = spec_feed_state(t0[k].state, f);
                &&& t1[k].state == st_f
                &&& t1[k].orders.symbol == t0[k].orders.symbol
                &&& t1[k].orders.next_client_id == t0[k].orders.next_client_id
                &&& t1[k].orders.last_quote_time == t0[k].orders.last_quote_time
                &&& t1[k].orders.pending_orders@ == depth_shock_orders(
                    st_f,
                    t0[k].orders.pending_orders@,
                )
                &&& b1 == b0 + depth_shock_cancels(st_f, t0[k].orders.pending_orders@, f.symbol)
            }
    }
}

/// How one fill event transforms the symbol table: an unknown symbol changes
/// nothing; otherwise the matching context books the fill (a buy, a sell, or
/// a no-op side) and its ledger absorbs it.
pub open spec fn fill_step_rel(
    t0: Seq<SymbolContext>,
    t1: Seq<SymbolContext>,
    fl: FillEvent,
) -> bool {
    if forall|k: int| 0 <= k < t0.len() ==> (#[trigger] t0[k]).state.symbol != fl.symbol {
        t1 == t0
    } else {
        &&& t1.len() == t0.len()
        &&& forall|k: int|
            0 <= k < t0.len() && (#[trigger] t0[k]).state.symbol != fl.symbol ==> t1[k] == t0[k]
        &&& forall|k: int|
            0 <= k < t0.len() && (#[trigger] t0[k]).state.symbol == fl.symbol ==> {
                &&& t1[k].state == (if fl.side_of_mm_order == 0 {
                    spec_buy_fill(t0[k].state, fl.fill_quantity as int, fl.fill_price as int)
                } else if fl.side_of_mm_order == 1 {
                    spec_sell_fill(t0[k].state, fl.fill_quantity as int, fl.fill_price as int)
                } else {
                    t0[k].state
                })
                &&& t1[k].orders.symbol == t0[k].orders.symbol
                &&& t1[k].orders.next_client_id == t0[k].orders.next_client_id
                &&& t1[k].orders.last_quote_time == t0[k].orders.last_quote_time
                &&& fill_ledger_rel(
                    t0[k].orders.pending_orders@,
                    t1[k].orders.pending_orders@,
                    fl.order_id,
                    fl.fill_quantity,
                )
            }
    }
}

/// How one control-plane message transforms the symbol table: an activation
/// creates or resets a fresh context, an acceptance ack stamps the matching
/// order, a cancel ack removes the matching orders; acks for unknown symbols
/// change nothing.
pub open spec fn msg_step_rel(
    t0: Seq<SymbolContext>,
    t1: Seq<SymbolContext>,
    m: ApiMessage,
    now: u64,
) -> bool {
    match m.message_type {
        ApiMessageType::AddSymbolMessage => {
            if forall|k: int| 0 <= k < t0.len() ==> (#[trigger] t0[k]).state.symbol != m.symbol {
                &&& t1.len() == t0.len() + 1
                &&& forall|k: int| 0 <= k < t0.len() ==> #[trigger] t1[k] == t0[k]
                &&& fresh_context_obs(t1[t0.len() as int], m.symbol, m.ipo_price, now)
            } else {
                &&& t1.len() == t0.len()
                &&& forall|k: int|
                    0 <= k < t0.len() && (#[trigger] t0[k]).state.symbol != m.symbol ==> t1[k]
                        == t0[k]
                &&& forall|k: int|
                    0 <= k < t0.len() && (#[trigger] t0[k]).state.symbol == m.symbol
                        ==> fresh_context_obs(t1[k], m.symbol, m.ipo_price, now)
            }
        },
        ApiMessageType::OrderAcceptedAck => {
            &&& t1.len() == t0.len()
            &&& forall|k: int|
                0 <= k < t0.len() && (#[trigger] t0[k]).state.symbol != m.symbol ==> t1[k]
                    == t0[k]
            &&& forall|k: int|
                0 <= k < t0.len() && (#[trigger] t0[k]).state.symbol == m.symbol ==> {
                    &&& t1[k].state == t0[k].state
                    &&& t1[k].orders.symbol == t0[k].orders.symbol
                    &&& t1[k].orders.next_client_id == t0[k].orders.next_client_id
                    &&& t1[k].orders.last_quote_time == t0[k].orders.last_quote_time
                    &&& t1[k].orders.pending_orders@.len()
                        == t0[k].orders.pending_orders@.len()
                    &&& forall|p: int|
                        0 <= p < t0[k].orders.pending_orders@.len()
                            ==> #[trigger] t1[k].orders.pending_orders@[p]
                            == if t0[k].orders.pending_orders@[p].client_id == m.client_id {
                            accepted_order(t0[k].orders.pending_orders@[p], m.order_id)
                        } else {
                            t0[k].orders.pending_orders@[p]
                        }
                }
        },
        ApiMessageType::OrderCancelledAck => {
            &&& t1.len() == t0.len()
            &&& forall|k: int|
                0 <= k < t0.len() && (#[trigger] t0[k]).state.symbol != m.symbol ==> t1[k]
                    == t0[k]
            &&& forall|k: int|
                0 <= k < t0.len() && (#[trigger] t0[k]).state.symbol == m.symbol ==> {
                    &&& t1[k].state == t0[k].state
                    &&& t1[k].orders.symbol == t0[k].orders.symbol
                    &&& t1[k].orders.next_client_id == t0[k].orders.next_client_id
                    &&& t1[k].orders.last_quote_time == t0[k].orders.last_quote_time
                    &&& t1[k].orders.pending_orders@ == keep_orders(
                        t0[k].orders.pending_orders@,
                        |o: PendingOrder| o.exchange_order_id != Some(m.order_id),
                    )
                }
        },
    }
}

/// How one symbol's cadenced cycle transforms the table and the intent
/// batches.
pub open spec fn symbol_step_rel(
    t0: Seq<SymbolContext>,
    cs0: Seq<CancelData>,
    ps0: Seq<PostData>,
    t1: Seq<SymbolContext>,
    cs1: Seq<CancelData>,
    ps1: Seq<PostData>,
    idx: int,
    now: u64,
) -> bool {
    &&& 0 <= idx < t0.len()
    &&& t1.len() == t0.len()
    &&& forall|k: int| 0 <= k < t0.len() && k != idx ==> #[trigger] t1[k] == t0[k]
    &&& cs0.is_prefix_of(cs1)
    &&& ps0.is_prefix_of(ps1)
    &&& symbol_cycle_rel(
        t0[idx],
        t1[idx],
        cs1.skip(cs0.len() as int),
        ps1.skip(ps0.len() as int),
        t0[idx].state.symbol,
        now,
    )
}

/// The feed phase as a chain of intermediate states: entry `i` of the chain
/// is the symbol table and cancel batch after the first `i` feed events.
pub open spec fn feeds_chain(
    chain: Seq<(Seq<SymbolContext>, Seq<CancelData>)>,
    t0: Seq<SymbolContext>,
    b0: Seq<CancelData>,
    feeds: Seq<FeedEvent>,
) -> bool {
    &&& chain.len() == feeds.len() + 1
    &&& chain[0] == (t0, b0)
    &&& forall|i: int|
        0 <= i < feeds.len() ==> feed_step_rel(
            (#[trigger] chain[i]).0,
            chain[i].1,
            chain[i + 1].0,
            chain[i + 1].1,
            feeds[i],
        )
}

/// The fill phase as a chain of intermediate symbol tables.
pub open spec fn fills_chain(
    chain: Seq<Seq<SymbolContext>>,
    t0: Seq<SymbolContext>,
    fills: Seq<FillEvent>,
) -> bool {
    &&& chain.len() == fills.len() + 1
    &&& chain[0] == t0
    &&& forall|i: int|
        0 <= i < fills.len() ==> fill_step_rel(#[trigger] chain[i], chain[i + 1], fills[i])
}

/// The control-plane phase as a chain of intermediate symbol tables.
pub open spec fn msgs_chain(
    chain: Seq<Seq<SymbolContext>>,
    t0: Seq<SymbolContext>,
    msgs: Seq<ApiMessage>,
    now: u64,
) -> bool {
    &&& chain.len() == msgs.len() + 1
    &&& chain[0] == t0
    &&& forall|i: int|
        0 <= i < msgs.len() ==> msg_step_rel(#[trigger] chain[i], chain[i + 1], msgs[i], now)
}

/// The per-symbol phase as a chain of intermediate (table, cancels, posts)
/// triples, one cadenced cycle per symbol in table order.
pub open spec fn symbols_chain(
    chain: Seq<(Seq<SymbolContext>, Seq<CancelData>, Seq<PostData>)>,
    t0: Seq<SymbolContext>,
    cs0: Seq<CancelData>,
    ps0: Seq<PostData>,
    now: u64,
) -> bool {
    &&& chain.len() == t0.len() + 1
    &&& chain[0] == (t0, cs0, ps0)
    &&& forall|i: int|
        0 <= i < t0.len() ==> symbol_step_rel(
            (#[trigger] chain[i]).0,
            chain[i].1,
            chain[i].2,
            chain[i + 1].0,
            chain[i + 1].1,
            chain[i + 1].2,
            i,
            now,
        )
}

/// Run one symbol's management step: the risk and age cancellation passes,
/// the bootstrap latch, the mode re-evaluation and, when the requote
/// decision fires, the incremental reconciliation; the management timestamp
/// is stamped last, whether or not anything was emitted.
#[verifier::rlimit(100)]
fn manage_symbol(
    ctx: &mut SymbolContext,
    cancel_batch: &mut Vec<CancelData>,
    post_batch: &mut Vec<PostData>,
    now_ms: u64,
)
    requires
        old(ctx).wf(),
    ensures
        final(ctx).wf(),
        final(ctx).state.symbol == old(ctx).state.symbol,
        old(cancel_batch)@.is_prefix_of(final(cancel_batch)@),
        old(post_batch)@.is_prefix_of(final(post_batch)@),
        management_rel(
            old(ctx).state,
            old(ctx).orders,
            *final(ctx),
            final(cancel_batch)@.skip(old(cancel_batch)@.len() as int),
            final(post_batch)@.skip(old(post_batch)@.len() as int),
            old(ctx).state.symbol,
            now_ms,
        ),
{
    let symbol = ctx.state.symbol;
    let ghost st_mid = ctx.state;
    let ghost orders_mid = ctx.orders;
    let ghost b0 = cancel_batch@;
    let ghost p0 = post_batch@;

    risk_cancel_pass(&ctx.state, &mut ctx.orders.pending_orders, cancel_batch, symbol);
    let ghost orders1 = ctx.orders.pending_orders@;
    let ghost c_risk = risk_cancels(
        orders_mid.pending_orders@,
        st_mid.market_state.mid_price as int,
        (st_mid.best_ask - st_mid.best_bid) as int,
        st_mid.inventory.quantity as int,
        symbol,
    );
    ctx.check_if_time_caused_cancellation(symbol, cancel_batch, now_ms);
    proof {
        assert(ctx.orders.pending_orders@ =~= stale_marked(orders1, now_ms as int));
    }
    let ghost orders2 = ctx.orders.pending_orders@;
    let ghost c_stale = stale_cancels(orders1, symbol, now_ms as int);
    let ghost next0 = ctx.orders.next_client_id;
    let ghost lqt0 = ctx.orders.last_quote_time;

    if !ctx.state.is_bootstrapped {
        if ctx.state.should_exit_bootstrap() {
            ctx.state.is_bootstrapped = true;
        }
    }
    proof {
        assert(ctx.state == (SymbolState {
            is_bootstrapped: st_mid.is_bootstrapped || st_mid.spec_exit_bootstrap(),
            ..st_mid
        }));
    }
    let ghost st1 = ctx.state;
    ctx.state.determine_mode();
    let ghost st2 = ctx.state;

    if ctx.should_requote(now_ms) {
        match ctx.compute_target_ladder() {
            Ok(target_ladder) => {
                proof {
                    lemma_target_ladder_is_cycle_ladder(
                        st2,
                        target_ladder.bids@,
                        target_ladder.asks@,
                    );
                }
                let next = ctx.orders.next_client_id;
                let wanted: u128 = (target_ladder.bids.len() as u128) + (
                target_ladder.asks.len() as u128);
                if wanted <= ((u64::MAX - next) as u128) {
                    match ctx.incremental_requote(&target_ladder, symbol, now_ms) {
                        Ok((orders_to_cancel, orders_to_post)) => {
                            let ghost cancels_base = cancel_batch@;
                            let ghost posts_frame = post_batch@;
                            let cn = orders_to_cancel.len();
                            let mut ci: usize = 0;
                            while ci < cn
                                invariant
                                    ci <= cn,
                                    cn == orders_to_cancel@.len(),
                                    cancel_batch@ == cancels_base + orders_to_cancel@.take(
                                        ci as int,
                                    ).map_values(|t: (u64, u64)| cancel_of_pair(t, symbol)),
                                    post_batch@ == posts_frame,
                                decreases cn - ci,
                            {
                                let c = orders_to_cancel[ci];
                                cancel_batch.push(
                                    CancelData { symbol, client_id: c.1, order_id: Some(c.0) },
                                );
                                proof {
                                    assert(orders_to_cancel@.take(ci as int + 1).map_values(
                                        |t: (u64, u64)| cancel_of_pair(t, symbol),
                                    ) =~= orders_to_cancel@.take(ci as int).map_values(
                                        |t: (u64, u64)| cancel_of_pair(t, symbol),
                                    ).push(cancel_of_pair(orders_to_cancel@[ci as int], symbol)));
                                    assert(cancel_batch@ =~= cancels_base
                                        + orders_to_cancel@.take(ci as int + 1).map_values(
                                        |t: (u64, u64)| cancel_of_pair(t, symbol),
                                    ));
                                }
                                ci = ci + 1;
                            }
                            proof {
                                assert(orders_to_cancel@.take(cn as int) =~= orders_to_cancel@);
                            }
                            let ghost cancels_done = cancel_batch@;
                            let pn = orders_to_post.len();
                            let mut pi: usize = 0;
                            while pi < pn
                                invariant
                                    pi <= pn,
                                    pn == orders_to_post@.len(),
                                    post_batch@ == posts_frame + orders_to_post@.take(pi as int),
                                    cancel_batch@ == cancels_done,
                                decreases pn - pi,
                            {
                                let pdata = orders_to_post[pi];
                                post_batch.push(pdata);
                                proof {
                                    assert(post_batch@ =~= posts_frame + orders_to_post@.take(
                                        pi as int + 1,
                                    ));
                                }
                                pi = pi + 1;
                            }
                            proof {
                                assert(orders_to_post@.take(pn as int) =~= orders_to_post@);
                            }
                        },
                        Err(_) => {},
                    }
                }
            },
            Err(_) => {
                proof {
                    lemma_failed_ladder_is_none(st2);
                }
            },
        }
    }
    ctx.state.last_management_cycle_time = now_ms;

    proof {
        let cs = final(cancel_batch)@.skip(b0.len() as int);
        let ps = final(post_batch)@.skip(p0.len() as int);
        assert(b0.is_prefix_of(final(cancel_batch)@));
        assert(p0.is_prefix_of(final(post_batch)@));
        assert(final(cancel_batch)@ =~= b0 + cs);
        assert(final(post_batch)@ =~= p0 + ps);
        let fires = requote_fires(st2, orders2, next0, lqt0, now_ms);
        if fires {
            assert(cs =~= c_risk + c_stale + requote_cancel_intents(st2, orders2, symbol));
            assert(ps =~= requote_posts(st2, orders2, next0, symbol));
        } else {
            assert(cs =~= c_risk + c_stale + Seq::<CancelData>::empty());
            assert(ps =~= Seq::<PostData>::empty());
        }
    }
}

/// A ladder the builders produced matches the spec-level cycle ladder of the
/// state it was built from.
proof fn lemma_target_ladder_is_cycle_ladder(
    st: SymbolState,
    bids: Seq<QuoteLevel>,
    asks: Seq<QuoteLevel>,
)
    requires
        match st.current_mode {
            QuotingMode::Emergency => bids.len() == 0 && asks.len() == 0,
            QuotingMode::Bootstrap { spread_pct, levels } => {
                let c = spec_bootstrap_centers(st.ipo_price as int, spread_pct as int);
                &&& crate::context::is_ladder_side(
                    bids,
                    c.0,
                    -1,
                    BOOTSTRAP_BASE_SIZE as int,
                    BOOTSTRAP_SIZE_DECAY as int,
                    levels as int,
                )
                &&& crate::context::is_ladder_side(
                    asks,
                    c.1,
                    1,
                    BOOTSTRAP_BASE_SIZE as int,
                    BOOTSTRAP_SIZE_DECAY as int,
                    levels as int,
                )
            },
            QuotingMode::Normal { levels, size_decay } => spec_model_quotes(st) matches Some(q)
                && quotes_ok(q) && {
                let sizes = st.spec_quote_sizes();
                &&& crate::context::is_ladder_side(
                    bids,
                    q.0 as int,
                    -1,
                    sizes.0,
                    size_decay as int,
                    levels as int,
                )
                &&& crate::context::is_ladder_side(
                    asks,
                    q.1 as int,
                    1,
                    sizes.1,
                    size_decay as int,
                    levels as int,
                )
            },
            QuotingMode::Stressed { spread_mult, levels } => spec_model_quotes(st) matches Some(q)
                && quotes_ok(q) && {
                let c = spec_stressed_centers(q, spread_mult as int);
                &&& crate::context::is_ladder_side(
                    bids,
                    c.0,
                    -1,
                    STRESSED_BASE_SIZE as int,
                    STRESSED_SIZE_DECAY as int,
                    levels as int,
                )
                &&& crate::context::is_ladder_side(
                    asks,
                    c.1,
                    1,
                    STRESSED_BASE_SIZE as int,
                    STRESSED_SIZE_DECAY as int,
                    levels as int,
                )
            },
            QuotingMode::InventoryCapped { side, levels } => spec_model_quotes(st) matches Some(q)
                && quotes_ok(q) && match side {
                InventorySatus::Long => bids.len() == 0 && crate::context::is_ladder_side(
                    asks,
                    q.1 as int,
                    1,
                    CAPPED_BASE_SIZE as int,
                    CAPPED_SIZE_DECAY as int,
                    levels as int,
                ),
                InventorySatus::Short => asks.len() == 0 && crate::context::is_ladder_side(
                    bids,
                    q.0 as int,
                    -1,
                    CAPPED_BASE_SIZE as int,
                    CAPPED_SIZE_DECAY as int,
                    levels as int,
                ),
            },
        },
    ensures
        spec_cycle_ladder(st) == Some((bids, asks)),
{
    match st.current_mode {
        QuotingMode::Emergency => {
            assert(bids =~= Seq::<QuoteLevel>::empty());
            assert(asks =~= Seq::<QuoteLevel>::empty());
        },
        QuotingMode::Bootstrap { spread_pct, levels } => {
            let c = spec_bootstrap_centers(st.ipo_price as int, spread_pct as int);
            lemma_ladder_side_seq(
                bids,
                c.0,
                -1,
                BOOTSTRAP_BASE_SIZE as int,
                BOOTSTRAP_SIZE_DECAY as int,
                levels as int,
            );
            lemma_ladder_side_seq(
                asks,
                c.1,
                1,
                BOOTSTRAP_BASE_SIZE as int,
                BOOTSTRAP_SIZE_DECAY as int,
                levels as int,
            );
        },
        QuotingMode::Normal { levels, size_decay } => {
            let q = spec_model_quotes(st)->Some_0;
            let sizes = st.spec_quote_sizes();
            lemma_ladder_side_seq(bids, q.0 as int, -1, sizes.0, size_decay as int, levels as int);
            lemma_ladder_side_seq(asks, q.1 as int, 1, sizes.1, size_decay as int, levels as int);
        },
        QuotingMode::Stressed { spread_mult, levels } => {
            let q = spec_model_quotes(st)->Some_0;
            let c = spec_stressed_centers(q, spread_mult as int);
            lemma_ladder_side_seq(
                bids,
                c.0,
                -1,
                STRESSED_BASE_SIZE as int,
                STRESSED_SIZE_DECAY as int,
                levels as int,
            );
            lemma_ladder_side_seq(
                asks,
                c.1,
                1,
                STRESSED_BASE_SIZE as int,
                STRESSED_SIZE_DECAY as int,
                levels as int,
            );
        },
        QuotingMode::InventoryCapped { side, levels } => {
            let q = spec_model_quotes(st)->Some_0;
            match side {
                InventorySatus::Long => {
                    assert(bids =~= Seq::<QuoteLevel>::empty());
                    lemma_ladder_side_seq(
                        asks,
                        q.1 as int,
                        1,
                        CAPPED_BASE_SIZE as int,
                        CAPPED_SIZE_DECAY as int,
                        levels as int,
                    );
                },
                InventorySatus::Short => {
                    assert(asks =~= Seq::<QuoteLevel>::empty());
                    lemma_ladder_side_seq(
                        bids,
                        q.0 as int,
                        -1,
                        CAPPED_BASE_SIZE as int,
                        CAPPED_SIZE_DECAY as int,
                        levels as int,
                    );
                },
            }
        },
    }
}

/// A failed ladder build means the spec-level cycle ladder is `None`: only
/// the model-backed modes can fail, and only where the model fails or its
/// quotes are out of range.
proof fn lemma_failed_ladder_is_none(st: SymbolState)
    requires
        match st.current_mode {
            QuotingMode::Emergency => false,
            QuotingMode::Bootstrap { .. } => false,
            QuotingMode::Normal { .. } => spec_model_quotes(st) is None || !quotes_ok(
                spec_model_quotes(st)->Some_0,
            ),
            QuotingMode::Stressed { .. } => spec_model_quotes(st) is None || !quotes_ok(
                spec_model_quotes(st)->Some_0,
            ),
            QuotingMode::InventoryCapped { .. } => spec_model_quotes(st) is None || !quotes_ok(
                spec_model_quotes(st)->Some_0,
            ),
        },
    ensures
        spec_cycle_ladder(st) is None,
{
}

impl MarketMaker {
    /// Run one symbol's cadenced steps: sample the mid into the rolling
    /// window, recompute volatility, and on the management cadence run the
    /// full management step.
    #[verifier::rlimit(60)]
    fn run_symbol_cycle(&mut self, idx: usize, now_ms: u64)
        requires
            old(self).wf(),
            idx < old(self).symbol_ctx@.len(),
        ensures
            final(self).wf(),
            final(self).symbol_ctx@.len() == old(self).symbol_ctx@.len(),
            forall|k: int|
                0 <= k < old(self).symbol_ctx@.len() && k != idx ==> #[trigger] final(self).symbol_ctx@[k]
                    == old(self).symbol_ctx@[k],
            final(self).symbol_ctx@[idx as int].state.symbol == old(self).symbol_ctx@[idx as int].state.symbol,
            old(self).cancel_batch@.is_prefix_of(final(self).cancel_batch@),
            old(self).post_batch@.is_prefix_of(final(self).post_batch@),
            symbol_cycle_rel(
                old(self).symbol_ctx@[idx as int],
                final(self).symbol_ctx@[idx as int],
                final(self).cancel_batch@.skip(old(self).cancel_batch@.len() as int),
                final(self).post_batch@.skip(old(self).post_batch@.len() as int),
                old(self).symbol_ctx@[idx as int].state.symbol,
                now_ms,
            ),
    {
        let mut ctx = self.symbol_ctx.remove(idx);
        let ghost c0 = ctx;
        let ghost b0 = self.cancel_batch@;
        let ghost p0 = self.post_batch@;

        if elapsed_ms(now_ms, ctx.state.last_sample_time) >= SAMPLE_GAP_MS {
            let mid = ctx.state.market_state.mid_price;
            ctx.state.rolling_prices.push(mid);
            ctx.state.last_sample_time = now_ms;
        }

        if elapsed_ms(now_ms, ctx.state.last_volatility_calc) >= VOLATILITY_CALC_GAP_MS {
            // a history of exactly two prices would make the estimator
            // divide by zero; the previous estimate is kept until a third
            // sample arrives
            if ctx.state.rolling_prices.len() != 2 {
                match estimate_volatility(ctx.state.rolling_prices.as_slice_for_volatility()) {
                    Some(new_vol) => {
                        // the stored estimate is capped so that the pricing
                        // model's arithmetic stays in range
                        ctx.state.market_state.volatility = if new_vol > VOL_INPUT_CAP {
                            VOL_INPUT_CAP
                        } else {
                            new_vol
                        };
                    },
                    None => {},
                }
            }
            ctx.state.last_volatility_calc = now_ms;
        }
        let ghost stm = ctx.state;
        proof {
            assert(cadence_steps_rel(c0.state, stm, now_ms));
        }

        let mgmt_due = elapsed_ms(now_ms, ctx.state.last_management_cycle_time) >= CYCLE_GAP_MS;
        if mgmt_due {
            manage_symbol(&mut ctx, &mut self.cancel_batch, &mut self.post_batch, now_ms);
        }
        self.symbol_ctx.insert(idx, ctx);
        proof {
            assert(final(self).symbol_ctx@ =~= old(self).symbol_ctx@.update(
                idx as int,
                final(self).symbol_ctx@[idx as int],
            ));
            let c1 = final(self).symbol_ctx@[idx as int];
            let st_mid_r = SymbolState {
                current_mode: c0.state.current_mode,
                prev_mode: c0.state.prev_mode,
                is_bootstrapped: c0.state.is_bootstrapped,
                last_management_cycle_time: c0.state.last_management_cycle_time,
                ..c1.state
            };
            assert(st_mid_r == stm);
            assert(final(self).cancel_batch@ =~= b0 + final(self).cancel_batch@.skip(
                b0.len() as int,
            ));
            assert(final(self).post_batch@ =~= p0 + final(self).post_batch@.skip(
                p0.len() as int,
            ));
            if mgmt_due {
                assert(management_rel(
                    stm,
                    c0.orders,
                    c1,
                    final(self).cancel_batch@.skip(b0.len() as int),
                    final(self).post_batch@.skip(p0.len() as int),
                    c0.state.symbol,
                    now_ms,
                ));
            } else {
                assert(c1.state == stm);
                assert(c1.orders == c0.orders);
                assert(final(self).cancel_batch@.skip(b0.len() as int) =~= Seq::<
                    CancelData,
                >::empty());
                assert(final(self).post_batch@.skip(p0.len() as int) =~= Seq::<
                    PostData,
                >::empty());
            }
        }
    }

    /// Run one full iteration of the engine: apply every drained feed event
    /// (with its depth-shock check), every fill, and every control-plane
    /// message; run each symbol's cadenced management steps; and hand back
    /// the cancel and post intents accumulated during the iteration, leaving
    /// both batches empty. Failed per-event operations are skipped, never
    /// fatal.
    pub fn run_market_maker_cycle(
        &mut self,
        feeds: &Vec<FeedEvent>,
        fills: &Vec<FillEvent>,
        msgs: &Vec<ApiMessage>,
        now_ms: u64,
    ) -> (r: (Vec<CancelData>, Vec<PostData>))
        requires
            old(self).wf(),
            forall|i: int|
                0 <= i < feeds@.len() ==> price_ok((#[trigger] feeds@[i]).best_bid as int)
                    && price_ok(feeds@[i].best_ask as int),
            forall|i: int|
                0 <= i < fills@.len() ==> 0 <= (#[trigger] fills@[i]).fill_price <= PRICE_MAX,
            forall|i: int|
                0 <= i < msgs@.len() ==> ((#[trigger] msgs@[i]).message_type
                    == ApiMessageType::AddSymbolMessage ==> price_ok(msgs@[i].ipo_price as int)),
        ensures
            final(self).wf(),
            final(self).cancel_batch@.len() == 0,
            final(self).post_batch@.len() == 0,
            final(self).symbol_ctx@.len() >= old(self).symbol_ctx@.len(),
            forall|k: int|
                0 <= k < old(self).symbol_ctx@.len() ==> #[trigger] final(self).symbol_ctx@[k].state.symbol
                    == old(self).symbol_ctx@[k].state.symbol,
            forall|s: u32| #[trigger] old(self).has_symbol(s) ==> final(self).has_symbol(s),
            forall|i: int|
                0 <= i < msgs@.len() && (#[trigger] msgs@[i]).message_type
                    == ApiMessageType::AddSymbolMessage ==> final(self).has_symbol(msgs@[i].symbol),
            exists|
                fc: Seq<(Seq<SymbolContext>, Seq<CancelData>)>,
                lc: Seq<Seq<SymbolContext>>,
                mc: Seq<Seq<SymbolContext>>,
                sc: Seq<(Seq<SymbolContext>, Seq<CancelData>, Seq<PostData>)>,
            |
                #![trigger feeds_chain(fc, old(self).symbol_ctx@, Seq::<CancelData>::empty(), feeds@),
                    fills_chain(lc, fc.last().0, fills@),
                    msgs_chain(mc, lc.last(), msgs@, now_ms),
                    symbols_chain(sc, mc.last(), fc.last().1, Seq::<PostData>::empty(), now_ms)]
                {
                    &&& feeds_chain(
                        fc,
                        old(self).symbol_ctx@,
                        Seq::<CancelData>::empty(),
                        feeds@,
                    )
                    &&& fills_chain(lc, fc.last().0, fills@)
                    &&& msgs_chain(mc, lc.last(), msgs@, now_ms)
                    &&& symbols_chain(sc, mc.last(), fc.last().1, Seq::<PostData>::empty(), now_ms)
                    &&& sc.last() == (final(self).symbol_ctx@, r.0@, r.1@)
                },
    {
        self.cancel_batch.clear();
        self.post_batch.clear();
        let ghost t0g = self.symbol_ctx@;
        let ghost mut fc: Seq<(Seq<SymbolContext>, Seq<CancelData>)> = seq![
            (t0g, Seq::<CancelData>::empty()),
        ];

        let feeds_n = feeds.len();
        let mut fi: usize = 0;
        while fi < feeds_n
            invariant
                feeds_n == feeds@.len(),
                self.wf(),
                forall|i: int|
                    0 <= i < feeds@.len() ==> price_ok((#[trigger] feeds@[i]).best_bid as int)
                        && price_ok(feeds@[i].best_ask as int),
                t0g == old(self).symbol_ctx@,
                self.symbol_ctx@.len() == old(self).symbol_ctx@.len(),
                forall|k: int|
                    0 <= k < old(self).symbol_ctx@.len()
                        ==> #[trigger] self.symbol_ctx@[k].state.symbol == old(self).symbol_ctx@[k].state.symbol,
                self.post_batch@.len() == 0,
                fi <= feeds_n,
                fc.len() == fi + 1,
                fc[0] == (t0g, Seq::<CancelData>::empty()),
                fc.last() == (self.symbol_ctx@, self.cancel_batch@),
                forall|i: int|
                    0 <= i < fi ==> feed_step_rel(
                        (#[trigger] fc[i]).0,
                        fc[i].1,
                        fc[i + 1].0,
                        fc[i + 1].1,
                        feeds@[i],
                    ),
            decreases feeds_n - fi,
        {
            let ghost pre = *self;
            let feed = feeds[fi];
            match self.update_state_from_feed(feed) {
                Ok(_) => {
                    let ghost mid = *self;
                    self.check_if_depth_update_causes_cancellation(feed.symbol);
                    proof {
                        assert forall|k: int|
                            0 <= k < old(self).symbol_ctx@.len() implies #[trigger] self.symbol_ctx@[k].state.symbol
                            == old(self).symbol_ctx@[k].state.symbol by {
                            assert(mid.symbol_ctx@[k].state.symbol
                                == pre.symbol_ctx@[k].state.symbol);
                            assert(self.symbol_ctx@[k].state.symbol
                                == mid.symbol_ctx@[k].state.symbol);
                        }
                        assert(feed_step_rel(
                            pre.symbol_ctx@,
                            pre.cancel_batch@,
                            self.symbol_ctx@,
                            self.cancel_batch@,
                            feed,
                        ));
                    }
                },
                Err(_) => {
                    proof {
                        assert(feed_step_rel(
                            pre.symbol_ctx@,
                            pre.cancel_batch@,
                            self.symbol_ctx@,
                            self.cancel_batch@,
                            feed,
                        ));
                    }
                },
            }
            proof {
                fc = fc.push((self.symbol_ctx@, self.cancel_batch@));
            }
            fi = fi + 1;
        }
        let ghost t_feeds = self.symbol_ctx@;
        let ghost b_feeds = self.cancel_batch@;
        proof {
            assert(feeds_chain(fc, t0g, Seq::<CancelData>::empty(), feeds@));
        }

        let ghost mut lc: Seq<Seq<SymbolContext>> = seq![t_feeds];
        let fills_n = fills.len();
        let mut li: usize = 0;
        while li < fills_n
            invariant
                fills_n == fills@.len(),
                self.wf(),
                forall|i: int|
                    0 <= i < fills@.len() ==> 0 <= (#[trigger] fills@[i]).fill_price <= PRICE_MAX,
                self.symbol_ctx@.len() == old(self).symbol_ctx@.len(),
                forall|k: int|
                    0 <= k < old(self).symbol_ctx@.len()
                        ==> #[trigger] self.symbol_ctx@[k].state.symbol == old(self).symbol_ctx@[k].state.symbol,
                self.cancel_batch@ == b_feeds,
                self.post_batch@.len() == 0,
                li <= fills_n,
                lc.len() == li + 1,
                lc[0] == t_feeds,
                lc.last() == self.symbol_ctx@,
                forall|i: int|
                    0 <= i < li ==> fill_step_rel(#[trigger] lc[i], lc[i + 1], fills@[i]),
            decreases fills_n - li,
        {
            let ghost pre = *self;
            let fill = fills[li];
            match self.update_inventory_from_fill(fill) {
                Ok(_) => {},
                Err(_) => {},
            }
            let ghost mid = *self;
            match self.order_manager_update_after_fill(fill) {
                Ok(_) => {},
                Err(_) => {},
            }
            proof {
                assert forall|k: int|
                    0 <= k < old(self).symbol_ctx@.len() implies #[trigger] self.symbol_ctx@[k].state.symbol
                    == old(self).symbol_ctx@[k].state.symbol by {
                    assert(mid.symbol_ctx@[k].state.symbol == pre.symbol_ctx@[k].state.symbol);
                    assert(self.symbol_ctx@[k].state.symbol == mid.symbol_ctx@[k].state.symbol);
                }
                assert(fill_step_rel(pre.symbol_ctx@, self.symbol_ctx@, fill));
                lc = lc.push(self.symbol_ctx@);
            }
            li = li + 1;
        }
        let ghost t_fills = self.symbol_ctx@;
        proof {
            assert(fills_chain(lc, t_feeds, fills@));
        }

        let ghost mut mc: Seq<Seq<SymbolContext>> = seq![t_fills];
        let msgs_n = msgs.len();
        let mut mi: usize = 0;
        while mi < msgs_n
            invariant
                msgs_n == msgs@.len(),
                self.wf(),
                forall|i: int|
                    0 <= i < msgs@.len() ==> ((#[trigger] msgs@[i]).message_type
                        == ApiMessageType::AddSymbolMessage ==> price_ok(msgs@[i].ipo_price as int)),
                self.symbol_ctx@.len() >= old(self).symbol_ctx@.len(),
                forall|k: int|
                    0 <= k < old(self).symbol_ctx@.len()
                        ==> #[trigger] self.symbol_ctx@[k].state.symbol == old(self).symbol_ctx@[k].state.symbol,
                forall|j: int|
                    0 <= j < mi && (#[trigger] msgs@[j]).message_type
                        == ApiMessageType::AddSymbolMessage ==> self.has_symbol(msgs@[j].symbol),
                self.cancel_batch@ == b_feeds,
                self.post_batch@.len() == 0,
                mi <= msgs_n,
                mc.len() == mi + 1,
                mc[0] == t_fills,
                mc.last() == self.symbol_ctx@,
                forall|i: int|
                    0 <= i < mi ==> msg_step_rel(#[trigger] mc[i], mc[i + 1], msgs@[i], now_ms),
            decreases msgs_n - mi,
        {
            let ghost pre = *self;
            let msg = msgs[mi];
            match msg.message_type {
                ApiMessageType::AddSymbolMessage => {
                    self.add_symbol(msg.symbol, msg.ipo_price, now_ms);
                    proof {
                        if !pre.has_symbol(msg.symbol) {
                            let n0 = pre.symbol_ctx@.len() as int;
                            assert(self.symbol_ctx@[n0].state.symbol == msg.symbol) by {
                                let w = choose|w: int|
                                    0 <= w < self.symbol_ctx@.len()
                                        && self.symbol_ctx@[w].state.symbol == msg.symbol;
                                if w < n0 {
                                    assert(self.symbol_ctx@[w] == pre.symbol_ctx@[w]);
                                }
                            }
                        }
                        assert(msg_step_rel(pre.symbol_ctx@, self.symbol_ctx@, msg, now_ms));
                    }
                },
                ApiMessageType::OrderAcceptedAck => {
                    match self.handle_order_acceptance_ack(msg) {
                        Ok(_) => {},
                        Err(_) => {},
                    }
                    proof {
                        assert(msg_step_rel(pre.symbol_ctx@, self.symbol_ctx@, msg, now_ms));
                    }
                },
                ApiMessageType::OrderCancelledAck => {
                    match self.handle_order_cancel_ack(msg) {
                        Ok(_) => {},
                        Err(_) => {},
                    }
                    proof {
                        assert(msg_step_rel(pre.symbol_ctx@, self.symbol_ctx@, msg, now_ms));
                    }
                },
            }
            proof {
                assert(pre.symbol_ctx@.len() <= self.symbol_ctx@.len());
                assert(forall|k: int|
                    0 <= k < pre.symbol_ctx@.len() ==> #[trigger] self.symbol_ctx@[k].state.symbol
                        == pre.symbol_ctx@[k].state.symbol);
                assert forall|j: int|
                    0 <= j < mi + 1 && (#[trigger] msgs@[j]).message_type
                        == ApiMessageType::AddSymbolMessage implies self.has_symbol(
                    msgs@[j].symbol,
                ) by {
                    if j < mi {
                        let w = choose|w: int|
                            0 <= w < pre.symbol_ctx@.len() && pre.symbol_ctx@[w].state.symbol
                                == msgs@[j].symbol;
                        assert(self.symbol_ctx@[w].state.symbol == msgs@[j].symbol);
                    }
                }
                mc = mc.push(self.symbol_ctx@);
            }
            mi = mi + 1;
        }
        proof {
            assert(msgs_chain(mc, t_fills, msgs@, now_ms));
        }

        let sym_n = self.symbol_ctx.len();
        let ghost after_msgs = *self;
        let ghost mut sc: Seq<(Seq<SymbolContext>, Seq<CancelData>, Seq<PostData>)> = seq![
            (after_msgs.symbol_ctx@, b_feeds, Seq::<PostData>::empty()),
        ];
        let mut si: usize = 0;
        while si < sym_n
            invariant
                self.wf(),
                sym_n == self.symbol_ctx@.len(),
                si <= sym_n,
                after_msgs.symbol_ctx@.len() == sym_n,
                after_msgs.cancel_batch@ == b_feeds,
                after_msgs.post_batch@.len() == 0,
                forall|k: int|
                    0 <= k < sym_n ==> #[trigger] self.symbol_ctx@[k].state.symbol
                        == after_msgs.symbol_ctx@[k].state.symbol,
                sc.len() == si + 1,
                sc[0] == (after_msgs.symbol_ctx@, b_feeds, Seq::<PostData>::empty()),
                sc.last() == (self.symbol_ctx@, self.cancel_batch@, self.post_batch@),
                forall|i: int|
                    0 <= i < si ==> symbol_step_rel(
                        (#[trigger] sc[i]).0,
                        sc[i].1,
                        sc[i].2,
                        sc[i + 1].0,
                        sc[i + 1].1,
                        sc[i + 1].2,
                        i,
                        now_ms,
                    ),
            decreases sym_n - si,
        {
            let ghost pre = *self;
            self.run_symbol_cycle(si, now_ms);
            proof {
                assert forall|k: int|
                    0 <= k < sym_n implies #[trigger] self.symbol_ctx@[k].state.symbol
                    == after_msgs.symbol_ctx@[k].state.symbol by {
                    assert(pre.symbol_ctx@[k].state.symbol
                        == after_msgs.symbol_ctx@[k].state.symbol);
                }
                assert(symbol_step_rel(
                    pre.symbol_ctx@,
                    pre.cancel_batch@,
                    pre.post_batch@,
                    self.symbol_ctx@,
                    self.cancel_batch@,
                    self.post_batch@,
                    si as int,
                    now_ms,
                ));
                sc = sc.push((self.symbol_ctx@, self.cancel_batch@, self.post_batch@));
            }
            si = si + 1;
        }
        proof {
            assert forall|s: u32| #[trigger] old(self).has_symbol(s) implies self.has_symbol(
                s,
            ) by {
                let w = choose|w: int|
                    0 <= w < old(self).symbol_ctx@.len() && old(self).symbol_ctx@[w].state.symbol
                        == s;
                assert(after_msgs.symbol_ctx@[w].state.symbol == s);
                assert(self.symbol_ctx@[w].state.symbol == s);
            }
            assert forall|i: int|
                0 <= i < msgs@.len() && (#[trigger] msgs@[i]).message_type
                    == ApiMessageType::AddSymbolMessage implies self.has_symbol(
                msgs@[i].symbol,
            ) by {
                let w = choose|w: int|
                    0 <= w < after_msgs.symbol_ctx@.len() && after_msgs.symbol_ctx@[w].state.symbol
                        == msgs@[i].symbol;
                assert(self.symbol_ctx@[w].state.symbol == msgs@[i].symbol);
            }
            assert(symbols_chain(
                sc,
                after_msgs.symbol_ctx@,
                b_feeds,
                Seq::<PostData>::empty(),
                now_ms,
            ));
        }

        let mut cancels: Vec<CancelData> = Vec::new();
        let mut posts: Vec<PostData> = Vec::new();
        core::mem::swap(&mut cancels, &mut self.cancel_batch);
        core::mem::swap(&mut posts, &mut self.post_batch);
        proof {
            assert(fc.last() == (t_feeds, b_feeds));
            assert(lc.last() == t_fills);
            assert(mc.last() == after_msgs.symbol_ctx@);
            assert(sc.last() == (self.symbol_ctx@, cancels@, posts@));
            assert(fills_chain(lc, fc.last().0, fills@));
            assert(msgs_chain(mc, lc.last(), msgs@, now_ms));
            assert(symbols_chain(sc, mc.last(), fc.last().1, Seq::<PostData>::empty(), now_ms));
        }
        (cancels, posts)
    }
}

} // verus!
