//! Inventory, P&L and mode-machine behavior, driven through the engine.

use mm_core::constants::SCALE;
use mm_core::engine::MarketMaker;
use mm_core::types::{ApiMessage, ApiMessageType, FeedEvent, FillEvent, InventorySatus, MmError, QuotingMode};

fn micros(units: i64, cents: i64) -> i64 {
    units * SCALE + cents * 10_000
}

fn feed(symbol: u32, bid: i64, ask: i64, bid_qty: u32, ask_qty: u32) -> FeedEvent {
    FeedEvent { symbol, best_bid: bid, best_ask: ask, best_bid_qty: bid_qty, best_ask_qty: ask_qty }
}

fn engine_with_symbol() -> MarketMaker {
    let mut mm = MarketMaker::new();
    mm.add_symbol(1, micros(100, 0), 0);
    mm
}

#[test]
fn feed_update_sets_mid_and_prev_fields() {
    let mut mm = engine_with_symbol();
    let r = mm.update_state_from_feed(feed(1, micros(99, 90), micros(100, 10), 50, 50));
    assert!(r.is_ok());
    let st = &mm.symbol_ctx[0].state;
    assert_eq!(st.market_state.mid_price, micros(100, 0));
    assert_eq!(st.best_bid, micros(99, 90));
    assert_eq!(st.best_ask, micros(100, 10));
    assert_eq!(st.prev_best_bid, micros(100, 0));
    assert_eq!(st.prev_mid_price, micros(100, 0));
}

#[test]
fn feed_update_unknown_symbol_fails() {
    let mut mm = engine_with_symbol();
    let r = mm.update_state_from_feed(feed(7, micros(99, 0), micros(101, 0), 5, 5));
    assert_eq!(r, Err(MmError::SymbolNotFound));
}

#[test]
fn buy_fill_opens_long_position() {
    // A buy of qty 10 at 99.95 from a flat book at mid 100.00.
    let mut mm = engine_with_symbol();
    mm.update_state_from_feed(feed(1, micros(99, 90), micros(100, 10), 50, 50)).unwrap();
    let r = mm.update_inventory_from_fill(FillEvent {
        symbol: 1,
        order_id: 11,
        side_of_mm_order: 0,
        fill_quantity: 10,
        fill_price: micros(99, 95),
        timestamp: 0,
    });
    assert!(r.is_ok());
    let st = &mm.symbol_ctx[0].state;
    assert_eq!(st.inventory.quantity, 10);
    assert_eq!(st.inventory.avg_entry_price, micros(99, 95));
    assert_eq!(st.pnl.realized, 0);
    // unrealized marks to mid: (100.00 - 99.95) * 10 = 0.50
    assert_eq!(st.pnl.unrealized, (micros(100, 0) - micros(99, 95)) as i128 * 10);
}

#[test]
fn sell_fill_locks_in_realized_pnl_and_flattens() {
    let mut mm = engine_with_symbol();
    mm.update_state_from_feed(feed(1, micros(99, 90), micros(100, 10), 50, 50)).unwrap();
    mm.update_inventory_from_fill(FillEvent {
        symbol: 1,
        order_id: 11,
        side_of_mm_order: 0,
        fill_quantity: 10,
        fill_price: micros(99, 95),
        timestamp: 0,
    })
    .unwrap();
    mm.update_inventory_from_fill(FillEvent {
        symbol: 1,
        order_id: 12,
        side_of_mm_order: 1,
        fill_quantity: 10,
        fill_price: micros(100, 5),
        timestamp: 0,
    })
    .unwrap();
    let st = &mm.symbol_ctx[0].state;
    // (100.05 - 99.95) * 10 = 1.00
    assert_eq!(st.pnl.realized, SCALE as i128);
    assert_eq!(st.inventory.quantity, 0);
    assert_eq!(st.pnl.unrealized, 0);
    assert_eq!(st.pnl.total, SCALE as i128);
    // the average entry is untouched by the sell
    assert_eq!(st.inventory.avg_entry_price, micros(99, 95));
}

#[test]
fn flat_position_never_carries_unrealized_pnl() {
    let mut mm = engine_with_symbol();
    mm.update_state_from_feed(feed(1, micros(98, 0), micros(102, 0), 9, 9)).unwrap();
    let fills = [
        (0u8, 5u32, micros(99, 0)),
        (1u8, 5u32, micros(101, 0)),
        (1u8, 7u32, micros(100, 0)),
        (0u8, 7u32, micros(99, 50)),
    ];
    for (i, (side, qty, price)) in fills.iter().enumerate() {
        mm.update_inventory_from_fill(FillEvent {
            symbol: 1,
            order_id: 100 + i as u64,
            side_of_mm_order: *side,
            fill_quantity: *qty,
            fill_price: *price,
            timestamp: 0,
        })
        .unwrap();
        let st = &mm.symbol_ctx[0].state;
        if st.inventory.quantity == 0 {
            assert_eq!(st.pnl.unrealized, 0);
        }
        assert_eq!(st.pnl.total, st.pnl.realized + st.pnl.unrealized);
    }
    assert_eq!(mm.symbol_ctx[0].state.inventory.quantity, 0);
}

#[test]
fn other_fill_side_is_a_no_op() {
    let mut mm = engine_with_symbol();
    let before = mm.symbol_ctx[0].state.inventory;
    mm.update_inventory_from_fill(FillEvent {
        symbol: 1,
        order_id: 1,
        side_of_mm_order: 9,
        fill_quantity: 10,
        fill_price: micros(99, 0),
        timestamp: 0,
    })
    .unwrap();
    assert_eq!(mm.symbol_ctx[0].state.inventory, before);
}

#[test]
fn emergency_mode_overrides_everything() {
    let mut mm = engine_with_symbol();
    mm.update_state_from_feed(feed(1, micros(99, 90), micros(100, 10), 50, 50)).unwrap();
    // sell 100 units bought at 99.95... sell low to lose money: buy at 120, sell at 100
    mm.update_inventory_from_fill(FillEvent {
        symbol: 1,
        order_id: 1,
        side_of_mm_order: 0,
        fill_quantity: 100,
        fill_price: micros(120, 0),
        timestamp: 0,
    })
    .unwrap();
    mm.update_inventory_from_fill(FillEvent {
        symbol: 1,
        order_id: 2,
        side_of_mm_order: 1,
        fill_quantity: 100,
        fill_price: micros(100, 0),
        timestamp: 0,
    })
    .unwrap();
    // realized = (100 - 120) * 100 = -2000.00 < -1500 threshold
    assert_eq!(mm.symbol_ctx[0].state.pnl.realized, -2000 * SCALE as i128);
    let mode = mm.symbol_ctx[0].state.determine_mode();
    assert_eq!(mode, QuotingMode::Emergency);
    assert_eq!(mm.symbol_ctx[0].state.current_mode, QuotingMode::Emergency);
}

#[test]
fn inventory_cap_forces_one_sided_mode() {
    let mut mm = engine_with_symbol();
    mm.update_inventory_from_fill(FillEvent {
        symbol: 1,
        order_id: 1,
        side_of_mm_order: 0,
        fill_quantity: 1000,
        fill_price: micros(100, 0),
        timestamp: 0,
    })
    .unwrap();
    let mode = mm.symbol_ctx[0].state.determine_mode();
    assert_eq!(mode, QuotingMode::InventoryCapped { side: InventorySatus::Long, levels: 10 });
    assert_eq!(mm.get_inventory_status(1), Ok(InventorySatus::Long));
}

#[test]
fn fresh_symbol_stays_in_bootstrap() {
    let mut mm = engine_with_symbol();
    mm.update_state_from_feed(feed(1, micros(99, 90), micros(100, 10), 50, 50)).unwrap();
    let mode = mm.symbol_ctx[0].state.determine_mode();
    assert_eq!(mode, QuotingMode::Bootstrap { spread_pct: 40_000, levels: 5 });
}

#[test]
fn bootstrap_exit_fails_on_trade_count_alone() {
    // 19 trades, 1500 volume, 25 samples, 1% spread, depth on both sides:
    // everything holds but the trade count, so the exit is refused.
    let mut mm = engine_with_symbol();
    mm.update_state_from_feed(feed(1, micros(99, 50), micros(100, 50), 60, 60)).unwrap();
    {
        let st = &mut mm.symbol_ctx[0].state;
        st.total_trades = 19;
        st.total_volume = 1500;
        for _ in 0..25 {
            let mid = st.market_state.mid_price;
            st.rolling_prices.push(mid);
        }
        assert_eq!(st.rolling_prices.len(), 25);
        assert!(!st.should_exit_bootstrap());
        // with the twentieth trade every condition holds
        st.total_trades = 20;
        assert!(st.should_exit_bootstrap());
    }
}

#[test]
fn bootstrap_counters_grow_on_depth_decrease() {
    let mut mm = engine_with_symbol();
    mm.update_state_from_feed(feed(1, micros(99, 90), micros(100, 10), 50, 50)).unwrap();
    // both sides lose depth: two inferred trades, volume 30 + 20
    mm.update_state_from_feed(feed(1, micros(99, 90), micros(100, 10), 20, 30)).unwrap();
    let st = &mm.symbol_ctx[0].state;
    assert_eq!(st.total_trades, 2);
    assert_eq!(st.total_volume, 50);
}

#[test]
fn add_symbol_replaces_existing_context() {
    let mut mm = engine_with_symbol();
    mm.update_inventory_from_fill(FillEvent {
        symbol: 1,
        order_id: 1,
        side_of_mm_order: 0,
        fill_quantity: 5,
        fill_price: micros(100, 0),
        timestamp: 0,
    })
    .unwrap();
    mm.add_symbol(1, micros(50, 0), 0);
    assert_eq!(mm.symbol_ctx.len(), 1);
    assert_eq!(mm.symbol_ctx[0].state.ipo_price, micros(50, 0));
    assert_eq!(mm.symbol_ctx[0].state.inventory.quantity, 0);
}

#[test]
fn control_messages_route_by_type() {
    let mut mm = MarketMaker::new();
    let msgs = vec![ApiMessage {
        message_type: ApiMessageType::AddSymbolMessage,
        symbol: 3,
        client_id: 0,
        order_id: 0,
        ipo_price: micros(10, 0),
    }];
    let (cancels, posts) = mm.run_market_maker_cycle(&Vec::new(), &Vec::new(), &msgs, 0);
    assert_eq!(mm.symbol_ctx.len(), 1);
    assert_eq!(mm.symbol_ctx[0].state.symbol, 3);
    // at activation time no cadence gate has opened yet
    assert!(cancels.is_empty());
    assert!(posts.is_empty());
    // a management cycle later the symbol quotes its bootstrap ladder
    let (cancels2, posts2) = mm.run_market_maker_cycle(&Vec::new(), &Vec::new(), &Vec::new(), 300);
    assert!(cancels2.is_empty());
    assert_eq!(posts2.len(), 10);
}
