//! Order lifecycle: acknowledgments, fills against the ledger, age and
//! depth-shock cancellation, and the full engine cycle.

use mm_core::constants::SCALE;
use mm_core::engine::MarketMaker;
use mm_core::types::{
    ApiMessage, ApiMessageType, FeedEvent, FillEvent, OrderState, PendingOrder, Side,
};

fn micros(units: i64, cents: i64) -> i64 {
    units * SCALE + cents * 10_000
}

fn feed(symbol: u32, bid: i64, ask: i64, bid_qty: u32, ask_qty: u32) -> FeedEvent {
    FeedEvent { symbol, best_bid: bid, best_ask: ask, best_bid_qty: bid_qty, best_ask_qty: ask_qty }
}

fn order(client_id: u64, order_id: Option<u64>, side: Side, price: i64, state: OrderState, created_at: u64) -> PendingOrder {
    PendingOrder {
        client_id,
        exchange_order_id: order_id,
        side,
        price,
        original_size: 10,
        remaining_size: 10,
        state,
        level_number: 0,
        created_at,
    }
}

fn engine_with_orders() -> MarketMaker {
    let mut mm = MarketMaker::new();
    mm.add_symbol(1, micros(100, 0), 0);
    mm.symbol_ctx[0].orders.pending_orders.push(order(
        1,
        None,
        Side::BID,
        micros(99, 0),
        OrderState::PendingNew,
        0,
    ));
    mm.symbol_ctx[0].orders.pending_orders.push(order(
        2,
        Some(77),
        Side::ASK,
        micros(101, 0),
        OrderState::Active,
        0,
    ));
    mm.symbol_ctx[0].orders.next_client_id = 3;
    mm
}

#[test]
fn acceptance_ack_stamps_exchange_id() {
    let mut mm = engine_with_orders();
    mm.handle_order_acceptance_ack(ApiMessage {
        message_type: ApiMessageType::OrderAcceptedAck,
        symbol: 1,
        client_id: 1,
        order_id: 55,
        ipo_price: 0,
    })
    .unwrap();
    let o = &mm.symbol_ctx[0].orders.pending_orders[0];
    assert_eq!(o.exchange_order_id, Some(55));
    assert_eq!(o.state, OrderState::Active);
}

#[test]
fn acceptance_ack_with_unknown_client_id_is_a_no_op() {
    let mut mm = engine_with_orders();
    let before = mm.symbol_ctx[0].orders.pending_orders.clone();
    mm.handle_order_acceptance_ack(ApiMessage {
        message_type: ApiMessageType::OrderAcceptedAck,
        symbol: 1,
        client_id: 42,
        order_id: 55,
        ipo_price: 0,
    })
    .unwrap();
    assert_eq!(mm.symbol_ctx[0].orders.pending_orders, before);
}

#[test]
fn cancel_ack_removes_matching_orders() {
    let mut mm = engine_with_orders();
    mm.handle_order_cancel_ack(ApiMessage {
        message_type: ApiMessageType::OrderCancelledAck,
        symbol: 1,
        client_id: 0,
        order_id: 77,
        ipo_price: 0,
    })
    .unwrap();
    let orders = &mm.symbol_ctx[0].orders.pending_orders;
    assert_eq!(orders.len(), 1);
    assert_eq!(orders[0].client_id, 1);
}

#[test]
fn fill_reduces_remaining_and_purges_at_zero() {
    let mut mm = engine_with_orders();
    // partial fill of 4 against order 77
    mm.order_manager_update_after_fill(FillEvent {
        symbol: 1,
        order_id: 77,
        side_of_mm_order: 1,
        fill_quantity: 4,
        fill_price: micros(101, 0),
        timestamp: 0,
    })
    .unwrap();
    {
        let o = &mm.symbol_ctx[0].orders.pending_orders[1];
        assert_eq!(o.remaining_size, 6);
        assert_eq!(o.state, OrderState::PartiallyFilled);
    }
    // the rest fills; the order leaves the ledger
    mm.order_manager_update_after_fill(FillEvent {
        symbol: 1,
        order_id: 77,
        side_of_mm_order: 1,
        fill_quantity: 6,
        fill_price: micros(101, 0),
        timestamp: 0,
    })
    .unwrap();
    let orders = &mm.symbol_ctx[0].orders.pending_orders;
    assert_eq!(orders.len(), 1);
    assert_eq!(orders[0].client_id, 1);
}

#[test]
fn stale_active_order_is_cancelled_exactly_once() {
    let mut mm = engine_with_orders();
    let mut batch = Vec::new();
    // 61 seconds after creation, past the 60-second age limit
    let mut ctx = mm.symbol_ctx.remove(0);
    ctx.check_if_time_caused_cancellation(1, &mut batch, 61_000);
    assert_eq!(batch.len(), 1);
    assert_eq!(batch[0].client_id, 2);
    assert_eq!(batch[0].order_id, Some(77));
    assert_eq!(ctx.orders.pending_orders[1].state, OrderState::PendingCancel);
    // a second run finds it PendingCancel, not Active, and adds nothing
    ctx.check_if_time_caused_cancellation(1, &mut batch, 62_000);
    assert_eq!(batch.len(), 1);
}

#[test]
fn young_orders_survive_the_age_check() {
    let mut mm = engine_with_orders();
    let mut batch = Vec::new();
    let mut ctx = mm.symbol_ctx.remove(0);
    ctx.check_if_time_caused_cancellation(1, &mut batch, 59_000);
    assert!(batch.is_empty());
    assert_eq!(ctx.orders.pending_orders[1].state, OrderState::Active);
}

#[test]
fn depth_shock_cancels_wrong_side_orders() {
    let mut mm = MarketMaker::new();
    mm.add_symbol(1, micros(100, 0), 0);
    mm.update_state_from_feed(feed(1, micros(99, 90), micros(100, 10), 50, 50)).unwrap();
    // an active bid above the mid
    mm.symbol_ctx[0].orders.pending_orders.push(order(
        1,
        Some(70),
        Side::BID,
        micros(101, 0),
        OrderState::Active,
        0,
    ));
    mm.symbol_ctx[0].orders.next_client_id = 2;
    // mid jumps over 0.1%: 100.00 -> 98.00
    mm.update_state_from_feed(feed(1, micros(97, 90), micros(98, 10), 50, 50)).unwrap();
    mm.check_if_depth_update_causes_cancellation(1);
    assert_eq!(mm.cancel_batch.len(), 1);
    assert_eq!(mm.cancel_batch[0].client_id, 1);
    assert_eq!(mm.symbol_ctx[0].orders.pending_orders[0].state, OrderState::PendingCancel);
}

#[test]
fn collapsed_spread_cancels_every_active_order() {
    let mut mm = engine_with_orders();
    // spread below 0.01
    mm.update_state_from_feed(feed(1, micros(100, 0), micros(100, 0), 50, 50)).unwrap();
    mm.check_if_depth_update_causes_cancellation(1);
    // only the Active order with an exchange id is swept
    assert_eq!(mm.cancel_batch.len(), 1);
    assert_eq!(mm.cancel_batch[0].client_id, 2);
}

#[test]
fn evaporated_depth_cancels_that_side() {
    let mut mm = MarketMaker::new();
    mm.add_symbol(1, micros(100, 0), 0);
    mm.update_state_from_feed(feed(1, micros(99, 90), micros(100, 10), 100, 100)).unwrap();
    mm.symbol_ctx[0].orders.pending_orders.push(order(
        1,
        Some(70),
        Side::BID,
        micros(99, 80),
        OrderState::Active,
        0,
    ));
    mm.symbol_ctx[0].orders.pending_orders.push(order(
        2,
        Some(71),
        Side::ASK,
        micros(100, 20),
        OrderState::Active,
        0,
    ));
    mm.symbol_ctx[0].orders.next_client_id = 3;
    // bid depth falls from 100 to 20 (under 30%); ask depth holds
    mm.update_state_from_feed(feed(1, micros(99, 90), micros(100, 10), 20, 100)).unwrap();
    mm.check_if_depth_update_causes_cancellation(1);
    assert_eq!(mm.cancel_batch.len(), 1);
    assert_eq!(mm.cancel_batch[0].client_id, 1);
    assert_eq!(mm.symbol_ctx[0].orders.pending_orders[1].state, OrderState::Active);
}

#[test]
fn full_cycle_quotes_and_then_holds_steady() {
    let mut mm = MarketMaker::new();
    let add = vec![ApiMessage {
        message_type: ApiMessageType::AddSymbolMessage,
        symbol: 1,
        client_id: 0,
        order_id: 0,
        ipo_price: micros(100, 0),
    }];
    mm.run_market_maker_cycle(&Vec::new(), &Vec::new(), &add, 0);
    // a wide book: the bootstrap ladder (4 percent of the reference price)
    // must sit within five spreads of the mid or the profitability sweep
    // would cancel it again next cycle
    let feeds = vec![feed(1, micros(99, 0), micros(101, 0), 50, 50)];
    let (cancels, posts) = mm.run_market_maker_cycle(&feeds, &Vec::new(), &Vec::new(), 300);
    assert!(cancels.is_empty());
    assert_eq!(posts.len(), 10);  // bootstrap ladder, five per side
    assert!(mm.cancel_batch.is_empty() && mm.post_batch.is_empty());
    // accept every post, then run a quiet cycle: the ladder is unchanged,
    // so reconciliation emits nothing
    let acks: Vec<ApiMessage> = posts
        .iter()
        .enumerate()
        .map(|(i, p)| ApiMessage {
            message_type: ApiMessageType::OrderAcceptedAck,
            symbol: 1,
            client_id: p.client_id,
            order_id: 1000 + i as u64,
            ipo_price: 0,
        })
        .collect();
    let (cancels2, posts2) = mm.run_market_maker_cycle(&Vec::new(), &Vec::new(), &acks, 400);
    assert!(cancels2.is_empty() && posts2.is_empty());
    let (cancels3, posts3) = mm.run_market_maker_cycle(&Vec::new(), &Vec::new(), &Vec::new(), 600);
    assert!(cancels3.is_empty());
    assert!(posts3.is_empty());
}

#[test]
fn volatility_estimate_updates_from_price_history() {
    let mut mm = MarketMaker::new();
    mm.add_symbol(1, micros(100, 0), 0);
    assert_eq!(mm.symbol_ctx[0].state.market_state.volatility, 0);
    // alternate the mid between 99.75 and 100.25 so log returns vary
    let mut now = 0u64;
    for k in 0..30u32 {
        let (b, a) = if k % 2 == 0 {
            (micros(99, 50), micros(100, 0))
        } else {
            (micros(100, 0), micros(100, 50))
        };
        let feeds = vec![feed(1, b, a, 50, 50)];
        now += 300;
        mm.run_market_maker_cycle(&feeds, &Vec::new(), &Vec::new(), now);
    }
    // the estimator has run on a varying history: a positive estimate
    assert!(mm.symbol_ctx[0].state.market_state.volatility > 0);
}

#[test]
fn activation_feed_and_first_ladder() {
    // symbol activated at reference price 100.00; a feed update sets
    // best_bid 99.90 and best_ask 100.10 with depth on both sides: the mid
    // becomes 100.00, the mode stays Bootstrap for want of trades, and the
    // ladder centers on 100.00 +/- 2.00 with five levels per side
    let mut mm = MarketMaker::new();
    mm.add_symbol(1, micros(100, 0), 0);
    mm.update_state_from_feed(feed(1, micros(99, 90), micros(100, 10), 50, 50)).unwrap();
    assert_eq!(mm.symbol_ctx[0].state.market_state.mid_price, micros(100, 0));
    let mode = mm.symbol_ctx[0].state.determine_mode();
    assert!(matches!(mode, mm_core::types::QuotingMode::Bootstrap { .. }));
    let ladder = mm.symbol_ctx[0].compute_target_ladder().unwrap();
    assert_eq!(ladder.bids.len(), 5);
    assert_eq!(ladder.asks.len(), 5);
    assert_eq!(ladder.bids[0].price, micros(98, 0));
    assert_eq!(ladder.asks[0].price, micros(102, 0));
}
