//! Engine-wide laws: properties that relate several operations, stated over
//! the same spec functions the operations' own contracts use.

use vstd::prelude::*;

use crate::constants::{INVENTORY_CAP, MAX_SIZE_FOR_ORDER, QTY_CAP, SCALE, TARGET_INVENTORY};
use crate::context::{
    level_covered, order_kept, posts_from, requote_cancels, requote_considered, stale_cancels,
    is_stale_active, uncovered_levels,
};
use crate::engine::{spec_buy_fill, spec_feed_state, spec_sell_fill};
use crate::state::SymbolState;
use crate::types::{CancelData, FeedEvent, PendingOrder, QuoteLevel, QuotingMode, Side};

verus! {

/// Inventory invariant: a flat position carries no unrealized P&L, whatever
/// sequence of fills and feed updates led to it. A fresh symbol state is flat
/// with zero unrealized P&L, and by this lemma every fill of either side and
/// every feed update preserves the property, so it holds after every update.
pub proof fn lemma_flat_position_no_unrealized(st: SymbolState, qty: int, price: int, f: FeedEvent)
    requires
        st.wf(),
    ensures
        spec_buy_fill(st, qty, price).flat_implies_no_unrealized(),
        spec_sell_fill(st, qty, price).flat_implies_no_unrealized(),
        spec_feed_state(st, f).flat_implies_no_unrealized(),
{
    let b = spec_buy_fill(st, qty, price);
    if b.inventory.quantity == 0 {
        vstd::arithmetic::mul::lemma_mul_basics(
            st.market_state.mid_price - b.inventory.avg_entry_price,
        );
    }
    let s = spec_sell_fill(st, qty, price);
    assert(s.flat_implies_no_unrealized());
    let g = spec_feed_state(st, f);
    assert(g.inventory == st.inventory);
}

/// Average-entry invariant: the average entry price changes only when a buy
/// leaves the position strictly long; a sell never changes it, a buy that
/// leaves the position flat or short never changes it, and a feed update
/// never touches the inventory at all.
pub proof fn lemma_avg_entry_only_changes_on_long_buys(
    st: SymbolState,
    qty: int,
    price: int,
    f: FeedEvent,
)
    requires
        st.wf(),
    ensures
        spec_sell_fill(st, qty, price).inventory.avg_entry_price
            == st.inventory.avg_entry_price,
        crate::num::clamp(st.inventory.quantity + qty, -QTY_CAP as int, QTY_CAP as int) <= 0
            ==> spec_buy_fill(st, qty, price).inventory.avg_entry_price
            == st.inventory.avg_entry_price,
        spec_feed_state(st, f).inventory == st.inventory,
{
}

/// Mode priority: P&L past an emergency threshold puts the symbol in
/// Emergency mode regardless of inventory, volatility or bootstrap state.
pub proof fn lemma_mode_priority(st: SymbolState)
    requires
        st.spec_emergency(),
    ensures
        st.spec_next_mode() == QuotingMode::Emergency,
{
}

/// Bootstrap exit: each of the five conditions is necessary, and together
/// they are sufficient.
pub proof fn lemma_bootstrap_exit_needs_all(st: SymbolState)
    ensures
        st.total_trades < crate::constants::MIN_BOOTSTRAP_TRADES ==> !st.spec_exit_bootstrap(),
        st.total_volume < crate::constants::MIN_BOOTSTRAP_VOLUME ==> !st.spec_exit_bootstrap(),
        st.rolling_prices.deque@.len() < crate::constants::MIN_BOOTSTRAP_SAMPLES
            ==> !st.spec_exit_bootstrap(),
        !st.spec_spread_tight() ==> !st.spec_exit_bootstrap(),
        st.best_bid_qty == 0 || st.best_ask_qty == 0 ==> !st.spec_exit_bootstrap(),
        (st.total_trades >= crate::constants::MIN_BOOTSTRAP_TRADES && st.total_volume
            >= crate::constants::MIN_BOOTSTRAP_VOLUME && st.rolling_prices.deque@.len()
            >= crate::constants::MIN_BOOTSTRAP_SAMPLES && st.spec_spread_tight()
            && st.best_bid_qty > 0 && st.best_ask_qty > 0) ==> st.spec_exit_bootstrap(),
{
}

/// Sizing symmetry: with inventory on target and zero volatility, the
/// inventory-skew sizing yields the configured maximum size on both sides,
/// before the book-depth clamp.
pub proof fn lemma_sizing_symmetry(st: SymbolState)
    requires
        st.wf(),
        st.inventory.quantity == TARGET_INVENTORY,
        st.market_state.volatility == 0,
    ensures
        SymbolState::spec_sizes_unclamped(
            st.inventory.quantity as int,
            st.market_state.volatility as int,
        ) == (MAX_SIZE_FOR_ORDER as int, MAX_SIZE_FOR_ORDER as int),
{
    let base = SymbolState::spec_base_size(0);
    assert((MAX_SIZE_FOR_ORDER * SCALE) / (SCALE + 0) == MAX_SIZE_FOR_ORDER) by {
        vstd::arithmetic::div_mod::lemma_div_multiples_vanish(
            MAX_SIZE_FOR_ORDER as int,
            SCALE as int,
        );
    }
    let ratio = SymbolState::spec_inv_ratio(0);
    assert(ratio == 0) by {
        vstd::arithmetic::div_mod::lemma_div_is_ordered(0, 0, INVENTORY_CAP as int);
    }
    vstd::arithmetic::div_mod::lemma_div_multiples_vanish(base, SCALE as int);
}

/// No considered order is cancelled when every one of them still matches the
/// target ladder.
proof fn lemma_no_cancels_when_matched(
    orders: Seq<PendingOrder>,
    bids: Seq<QuoteLevel>,
    asks: Seq<QuoteLevel>,
)
    requires
        forall|i: int|
            0 <= i < orders.len() && requote_considered(#[trigger] orders[i]) ==> order_kept(
                orders[i],
                bids,
                asks,
            ),
    ensures
        requote_cancels(orders, bids, asks).len() == 0,
    decreases orders.len(),
{
    if orders.len() > 0 {
        assert(forall|i: int| 0 <= i < orders.len() - 1 ==> orders.drop_last()[i] == orders[i]);
        lemma_no_cancels_when_matched(orders.drop_last(), bids, asks);
        assert(orders.last() == orders[orders.len() - 1]);
    }
}

/// No level is posted when every target level is already covered.
proof fn lemma_no_posts_when_covered(
    ls: Seq<QuoteLevel>,
    side: Side,
    orders: Seq<PendingOrder>,
)
    requires
        forall|j: int| 0 <= j < ls.len() ==> level_covered(#[trigger] ls[j], side, orders),
    ensures
        uncovered_levels(ls, side, orders).len() == 0,
    decreases ls.len(),
{
    if ls.len() > 0 {
        assert(forall|j: int| 0 <= j < ls.len() - 1 ==> ls.drop_last()[j] == ls[j]);
        lemma_no_posts_when_covered(ls.drop_last(), side, orders);
        assert(ls.last() == ls[ls.len() - 1]);
    }
}

/// Reconciliation minimality: when the target ladder is unchanged — every
/// considered resting order still matches its level and every target level is
/// covered by a resting order — the reconciler emits no cancel and no post.
pub proof fn lemma_reconciliation_minimal(
    orders: Seq<PendingOrder>,
    bids: Seq<QuoteLevel>,
    asks: Seq<QuoteLevel>,
    symbol: u32,
    id0: int,
)
    requires
        forall|i: int|
            0 <= i < orders.len() && requote_considered(#[trigger] orders[i]) ==> order_kept(
                orders[i],
                bids,
                asks,
            ),
        forall|j: int| 0 <= j < bids.len() ==> level_covered(#[trigger] bids[j], Side::BID, orders),
        forall|j: int| 0 <= j < asks.len() ==> level_covered(#[trigger] asks[j], Side::ASK, orders),
    ensures
        requote_cancels(orders, bids, asks).len() == 0,
        posts_from(
            uncovered_levels(asks, Side::ASK, orders),
            uncovered_levels(bids, Side::BID, orders),
            symbol,
            id0,
        ).len() == 0,
{
    lemma_no_cancels_when_matched(orders, bids, asks);
    lemma_no_posts_when_covered(asks, Side::ASK, orders);
    lemma_no_posts_when_covered(bids, Side::BID, orders);
}

/// Occurrences of a client id in a batch of cancel intents.
pub open spec fn count_cancels_with_id(s: Seq<CancelData>, cid: u64) -> nat
    decreases s.len(),
{
    if s.len() == 0 {
        0
    } else {
        count_cancels_with_id(s.drop_last(), cid) + if s.last().client_id == cid {
            1nat
        } else {
            0nat
        }
    }
}

/// A client id that belongs to no order of the ledger never enters the
/// age-based cancel batch.
proof fn lemma_stale_cancels_absent(s: Seq<PendingOrder>, symbol: u32, now: int, cid: u64)
    requires
        forall|k: int| 0 <= k < s.len() ==> (#[trigger] s[k]).client_id != cid,
    ensures
        count_cancels_with_id(stale_cancels(s, symbol, now), cid) == 0,
    decreases s.len(),
{
    if s.len() > 0 {
        assert(forall|k: int| 0 <= k < s.len() - 1 ==> s.drop_last()[k] == s[k]);
        lemma_stale_cancels_absent(s.drop_last(), symbol, now, cid);
        assert(s.last() == s[s.len() - 1]);
        let prefix = stale_cancels(s.drop_last(), symbol, now);
        let sc = stale_cancels(s, symbol, now);
        if is_stale_active(s.last(), now) {
            assert(sc.drop_last() =~= prefix);
            assert(sc.last().client_id == s.last().client_id);
        }
    }
}

/// Cancel batching: an Active order with an exchange id aged past the
/// maximum order age appears in the age-based cancel batch exactly once per
/// run, as long as the ledger's client ids are distinct.
pub proof fn lemma_stale_cancel_exactly_once(
    s: Seq<PendingOrder>,
    symbol: u32,
    now: int,
    i: int,
)
    requires
        forall|a: int, b: int|
            0 <= a < b < s.len() ==> #[trigger] s[a].client_id != #[trigger] s[b].client_id,
        0 <= i < s.len(),
        is_stale_active(s[i], now),
    ensures
        count_cancels_with_id(stale_cancels(s, symbol, now), s[i].client_id) == 1,
    decreases s.len(),
{
    assert(forall|k: int| 0 <= k < s.len() - 1 ==> s.drop_last()[k] == s[k]);
    assert(s.last() == s[s.len() - 1]);
    if i == s.len() - 1 {
        lemma_stale_cancels_absent(s.drop_last(), symbol, now, s[i].client_id);
    } else {
        lemma_stale_cancel_exactly_once(s.drop_last(), symbol, now, i);
    }
    let prefix = stale_cancels(s.drop_last(), symbol, now);
    let sc = stale_cancels(s, symbol, now);
    if is_stale_active(s.last(), now) {
        assert(sc.drop_last() =~= prefix);
        assert(sc.last().client_id == s.last().client_id);
    }
}

} // verus!
