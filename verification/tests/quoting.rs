//! Ladder construction, sizing, the requote decision and incremental
//! reconciliation.

use mm_core::constants::SCALE;
use mm_core::context::SymbolContext;
use mm_core::types::{OrderState, PendingOrder, QuotingMode, Side};

fn micros(units: i64, cents: i64) -> i64 {
    units * SCALE + cents * 10_000
}

fn bootstrap_ctx() -> SymbolContext {
    // reference price 100.00, live book at 99.90 / 100.10
    let mut ctx = SymbolContext::new(micros(100, 0), 1, 0);
    ctx.state.prev_best_bid = ctx.state.best_bid;
    ctx.state.prev_best_ask = ctx.state.best_ask;
    ctx.state.best_bid = micros(99, 90);
    ctx.state.best_ask = micros(100, 10);
    ctx.state.best_bid_qty = 50;
    ctx.state.best_ask_qty = 50;
    ctx.state.prev_mid_price = ctx.state.market_state.mid_price;
    ctx.state.market_state.mid_price = micros(100, 0);
    ctx
}

#[test]
fn bootstrap_ladder_centers_on_reference_price() {
    // 4% of 100.00 is 4.00; the ladder centers on 100.00 +/- 2.00
    let mut ctx = bootstrap_ctx();
    let mode = ctx.state.determine_mode();
    assert_eq!(mode, QuotingMode::Bootstrap { spread_pct: 40_000, levels: 5 });
    let ladder = ctx.compute_target_ladder().unwrap();
    assert_eq!(ladder.bids.len(), 5);
    assert_eq!(ladder.asks.len(), 5);
    assert_eq!(ladder.bids[0].price, micros(98, 0));
    assert_eq!(ladder.asks[0].price, micros(102, 0));
    // one tick (0.25) outward per level
    assert_eq!(ladder.bids[1].price, micros(97, 75));
    assert_eq!(ladder.asks[4].price, micros(103, 0));
    assert_eq!(ladder.bids[3].level_number, 3);
}

#[test]
fn bootstrap_ladder_sizes_decay_geometrically() {
    let mut ctx = bootstrap_ctx();
    ctx.state.determine_mode();
    let ladder = ctx.compute_target_ladder().unwrap();
    let sizes: Vec<u32> = ladder.asks.iter().map(|l| l.size).collect();
    assert_eq!(sizes, vec![100, 85, 72, 61, 52]);
}

#[test]
fn quote_sizes_are_symmetric_at_target_inventory() {
    // zero deviation, zero volatility: both sides quote the configured max
    let ctx = bootstrap_ctx();
    assert_eq!(ctx.state.inventory.quantity, 0);
    assert_eq!(ctx.state.market_state.volatility, 0);
    let mut st = ctx.state.clone();
    st.best_bid_qty = 0;
    st.best_ask_qty = 0;
    let (bid, ask) = st.compute_quote_sizes();
    assert_eq!((bid, ask), (100, 100));
}

#[test]
fn quote_sizes_clamp_to_book_depth() {
    let mut st = bootstrap_ctx().state;
    st.best_bid_qty = 3;
    st.best_ask_qty = 0;
    let (bid, ask) = st.compute_quote_sizes();
    assert_eq!(bid, 6);  // 3 * MAX_BOOK_MULT
    assert_eq!(ask, 100);
}

#[test]
fn quote_sizes_zero_the_worsening_side_at_the_cap() {
    let mut st = bootstrap_ctx().state;
    st.best_bid_qty = 0;
    st.best_ask_qty = 0;
    st.inventory.quantity = 1000;  // at the cap, long
    let (bid, ask) = st.compute_quote_sizes();
    assert_eq!(bid, 0);
    assert_eq!(ask, 100);  // safe side grows to 2x base but clamps at max
}

#[test]
fn emergency_ladder_is_empty() {
    let mut ctx = bootstrap_ctx();
    ctx.state.current_mode = QuotingMode::Emergency;
    let ladder = ctx.compute_target_ladder().unwrap();
    assert!(ladder.bids.is_empty());
    assert!(ladder.asks.is_empty());
    assert!(!ctx.should_requote(10_000));
}

#[test]
fn normal_ladder_fails_without_model_parameters() {
    // a fresh symbol has zero risk aversion and volatility: the pricing
    // model refuses them and the ladder build propagates the failure
    let mut ctx = bootstrap_ctx();
    ctx.state.current_mode = QuotingMode::Normal { levels: 10, size_decay: 850_000 };
    let r = ctx.compute_target_ladder();
    assert_eq!(r.unwrap_err(), mm_core::types::MmError::CouldNotCalculateQuotes);
}

#[test]
fn normal_ladder_brackets_the_mid_with_model_quotes() {
    let mut ctx = bootstrap_ctx();
    ctx.state.risk_aversion = 100_000;  // 0.1
    ctx.state.market_state.volatility = 200_000;  // 0.2
    ctx.state.liquidity_k = 1_500_000;  // 1.5
    ctx.state.time_to_terminal = 3_600_000;  // one hour
    ctx.state.current_mode = QuotingMode::Normal { levels: 10, size_decay: 850_000 };
    let ladder = ctx.compute_target_ladder().unwrap();
    assert_eq!(ladder.bids.len(), 10);
    assert_eq!(ladder.asks.len(), 10);
    let bid0 = ladder.bids[0].price;
    let ask0 = ladder.asks[0].price;
    assert!(bid0 > 0);
    assert!(bid0 < ask0);
    assert!(bid0 < micros(100, 0) && micros(100, 0) < ask0);
    // deeper levels step outward
    assert_eq!(ladder.bids[1].price, bid0 - 250_000);
    assert_eq!(ladder.asks[1].price, ask0 + 250_000);
}

#[test]
fn capped_ladder_quotes_the_derisking_side_only() {
    let mut ctx = bootstrap_ctx();
    ctx.state.risk_aversion = 100_000;
    ctx.state.market_state.volatility = 200_000;
    ctx.state.liquidity_k = 1_500_000;
    ctx.state.time_to_terminal = 3_600_000;
    ctx.state.inventory.quantity = 1000;
    let mode = ctx.state.determine_mode();
    assert!(matches!(mode, QuotingMode::InventoryCapped { .. }));
    let ladder = ctx.compute_target_ladder().unwrap();
    assert!(ladder.bids.is_empty());
    assert_eq!(ladder.asks.len(), 10);
    assert_eq!(ladder.asks[0].size, 150);
}

#[test]
fn requote_gate_and_mode_change() {
    let mut ctx = bootstrap_ctx();
    ctx.state.determine_mode();
    ctx.orders.last_quote_time = 1000;
    // inside the quoting gap: no requote even though the mode changed
    assert!(!ctx.should_requote(1100));
    // past the gap, the mode change forces one
    assert!(ctx.should_requote(1300));
}

#[test]
fn requote_on_empty_book_of_orders() {
    let mut ctx = bootstrap_ctx();
    ctx.state.determine_mode();
    ctx.state.prev_mode = ctx.state.current_mode;  // no mode change
    ctx.orders.last_quote_time = 0;
    assert!(ctx.should_requote(10_000));  // zero active orders
}

#[test]
fn no_requote_when_book_is_full_and_mid_stable() {
    let mut ctx = bootstrap_ctx();
    ctx.state.determine_mode();
    ctx.state.prev_mode = ctx.state.current_mode;
    ctx.state.prev_mid_price = ctx.state.market_state.mid_price;
    // ten active orders, five per side, as Bootstrap expects
    for lvl in 0..5usize {
        for side in [Side::BID, Side::ASK] {
            let id = ctx.orders.alloc_client_id();
            ctx.orders.pending_orders.push(PendingOrder {
                client_id: id,
                exchange_order_id: Some(500 + id),
                side,
                price: micros(100, 0),
                original_size: 10,
                remaining_size: 10,
                state: OrderState::Active,
                level_number: lvl,
                created_at: 0,
            });
        }
    }
    assert!(!ctx.should_requote(10_000));
}

#[test]
fn reconciliation_is_minimal_across_identical_cycles() {
    let mut ctx = bootstrap_ctx();
    ctx.state.determine_mode();
    let ladder = ctx.compute_target_ladder().unwrap();
    let (cancels1, posts1) = ctx.incremental_requote(&ladder, 1, 1000).unwrap();
    assert!(cancels1.is_empty());
    assert_eq!(posts1.len(), 10);
    assert_eq!(ctx.orders.pending_orders.len(), 10);
    assert_eq!(ctx.orders.last_quote_time, 1000);
    // same target ladder next cycle: nothing to cancel, nothing to post
    let (cancels2, posts2) = ctx.incremental_requote(&ladder, 1, 2000).unwrap();
    assert!(cancels2.is_empty());
    assert!(posts2.is_empty());
    assert_eq!(ctx.orders.pending_orders.len(), 10);
    assert_eq!(ctx.orders.last_quote_time, 2000);
}

#[test]
fn reconciliation_cancels_displaced_orders() {
    let mut ctx = bootstrap_ctx();
    ctx.state.determine_mode();
    let ladder = ctx.compute_target_ladder().unwrap();
    // one active order at level 0 on the bid side, priced far from target
    ctx.orders.pending_orders.push(PendingOrder {
        client_id: 1,
        exchange_order_id: Some(900),
        side: Side::BID,
        price: micros(90, 0),
        original_size: 10,
        remaining_size: 10,
        state: OrderState::Active,
        level_number: 0,
        created_at: 0,
    });
    ctx.orders.next_client_id = 2;
    let (cancels, posts) = ctx.incremental_requote(&ladder, 1, 1000).unwrap();
    assert_eq!(cancels, vec![(900, 1)]);
    assert_eq!(posts.len(), 10);
}

#[test]
fn reconciliation_keeps_orders_within_tolerance() {
    let mut ctx = bootstrap_ctx();
    ctx.state.determine_mode();
    let ladder = ctx.compute_target_ladder().unwrap();
    // an active bid at level 0 within 0.10 of the target price 98.00
    ctx.orders.pending_orders.push(PendingOrder {
        client_id: 1,
        exchange_order_id: Some(900),
        side: Side::BID,
        price: micros(98, 5),
        original_size: 10,
        remaining_size: 10,
        state: OrderState::Active,
        level_number: 0,
        created_at: 0,
    });
    ctx.orders.next_client_id = 2;
    let (cancels, posts) = ctx.incremental_requote(&ladder, 1, 1000).unwrap();
    assert!(cancels.is_empty());
    // level 0 bid is covered; 9 levels remain to post
    assert_eq!(posts.len(), 9);
    assert!(posts.iter().all(|p| !(p.side == Side::BID && p.level_number == 0)));
}

#[test]
fn posted_orders_allocate_consecutive_client_ids() {
    let mut ctx = bootstrap_ctx();
    ctx.state.determine_mode();
    let ladder = ctx.compute_target_ladder().unwrap();
    let (_, posts) = ctx.incremental_requote(&ladder, 1, 1000).unwrap();
    // asks first, then bids, ids dense from 1
    for (i, p) in posts.iter().enumerate() {
        assert_eq!(p.client_id, 1 + i as u64);
        assert_eq!(p.symbol, 1);
    }
    assert_eq!(posts[0].side, Side::ASK);
    assert_eq!(posts[9].side, Side::BID);
    assert_eq!(ctx.orders.next_client_id, 11);
    // the ledger rows mirror the posts
    assert_eq!(ctx.orders.pending_orders[0].state, OrderState::PendingNew);
    assert_eq!(ctx.orders.pending_orders[0].client_id, 1);
}

#[test]
fn stressed_mode_on_high_volatility_widens_the_spread() {
    let mut ctx = bootstrap_ctx();
    ctx.state.risk_aversion = 100_000;
    ctx.state.liquidity_k = 1_500_000;
    ctx.state.time_to_terminal = 3_600_000;
    ctx.state.is_bootstrapped = true;
    ctx.state.market_state.volatility = 70_000;  // 7% > 6% stress limit
    let mode = ctx.state.determine_mode();
    assert_eq!(mode, QuotingMode::Stressed { spread_mult: 2_000_000, levels: 5 });
    let stressed = ctx.compute_target_ladder().unwrap();
    // the same quotes without widening, for comparison
    ctx.state.current_mode = QuotingMode::Normal { levels: 5, size_decay: 850_000 };
    let normal = ctx.compute_target_ladder().unwrap();
    let stressed_spread = stressed.asks[0].price - stressed.bids[0].price;
    let normal_spread = normal.asks[0].price - normal.bids[0].price;
    // a 2x multiplier doubles the spread around the model's quotes
    assert_eq!(stressed_spread, 2 * normal_spread);
    assert_eq!(stressed.asks[0].size, 50);
}

#[test]
fn requote_when_a_required_side_is_empty() {
    // five active bids and no asks: a required side is missing, so the
    // symbol requotes in Bootstrap mode even with a stable mid
    let mut ctx = bootstrap_ctx();
    ctx.state.determine_mode();
    ctx.state.prev_mode = ctx.state.current_mode;
    ctx.state.prev_mid_price = ctx.state.market_state.mid_price;
    for lvl in 0..5usize {
        let id = ctx.orders.alloc_client_id();
        ctx.orders.pending_orders.push(PendingOrder {
            client_id: id,
            exchange_order_id: Some(500 + id),
            side: Side::BID,
            price: micros(100, 0),
            original_size: 10,
            remaining_size: 10,
            state: OrderState::Active,
            level_number: lvl,
            created_at: 0,
        });
    }
    assert!(ctx.should_requote(10_000));
}
