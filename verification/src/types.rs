//! Data model of the quoting engine: sides, order states, quoting modes,
//! events, intents and the per-symbol inventory/P&L records.

use vstd::prelude::*;

verus! {

/// Side of an order or quote.
#[derive(Debug, Clone, Copy, PartialEq, Eq, Structural)]
pub enum Side {
    BID,
    ASK,
}

/// Lifecycle state of a pending order.
#[derive(Debug, Clone, Copy, PartialEq, Eq, Structural)]
pub enum OrderState {
    PendingNew,
    Active,
    PendingCancel,
    PartiallyFilled,
}

/// Direction of an open inventory position.
#[derive(Debug, Clone, Copy, PartialEq, Eq, Structural)]
pub enum InventorySatus {
    Long,
    Short,
}

/// Kind of a control-plane message.
#[derive(Debug, Clone, Copy, PartialEq, Eq, Structural)]
pub enum ApiMessageType {
    AddSymbolMessage,
    OrderAcceptedAck,
    OrderCancelledAck,
}

/// Errors of the engine's operations.
#[derive(Debug, Clone, Copy, PartialEq, Eq, Structural)]
pub enum MmError {
    SymbolNotFound,
    ClienIdNotFound,
    CouldNotCalculateQuotes,
}

/// Active quoting mode of a symbol. Ratios are in micro units.
#[derive(Debug, Clone, Copy, PartialEq, Eq, Structural)]
pub enum QuotingMode {
    Bootstrap { spread_pct: i64, levels: usize },
    Normal { levels: usize, size_decay: u64 },
    Stressed { spread_mult: i64, levels: usize },
    InventoryCapped { side: InventorySatus, levels: usize },
    Emergency,
}

/// One target quote level; `level_number` 0 is the innermost level.
#[derive(Debug, Clone, Copy, PartialEq, Eq, Structural)]
pub struct QuoteLevel {
    pub price: i64,
    pub size: u32,
    pub level_number: usize,
}

/// Target ladder of one management cycle: levels per side, innermost first.
#[derive(Debug, Clone)]
pub struct QuoteLadder {
    pub bids: Vec<QuoteLevel>,
    pub asks: Vec<QuoteLevel>,
}

/// A cancel intent accumulated during a cycle.
#[derive(Debug, Clone, Copy)]
pub struct CancelData {
    pub symbol: u32,
    pub client_id: u64,
    pub order_id: Option<u64>,
}

/// A post intent accumulated during a cycle.
#[derive(Debug, Clone, Copy, PartialEq, Eq, Structural)]
pub struct PostData {
    pub symbol: u32,
    pub client_id: u64,
    pub price: i64,
    pub qty: u32,
    pub side: Side,
    pub level_number: usize,
}

/// A top-of-book snapshot delivered by the market-data feed. Prices are in
/// micros.
#[derive(Debug, Clone, Copy, PartialEq, Eq, Structural)]
pub struct FeedEvent {
    pub symbol: u32,
    pub best_bid: i64,
    pub best_ask: i64,
    pub best_bid_qty: u32,
    pub best_ask_qty: u32,
}

/// A fill of one of the engine's own orders. `side_of_mm_order` is 0 for a
/// buy (bid) and 1 for a sell (ask); any other value is ignored.
#[derive(Debug, Clone, Copy, PartialEq, Eq, Structural)]
pub struct FillEvent {
    pub symbol: u32,
    pub order_id: u64,
    pub side_of_mm_order: u8,
    pub fill_quantity: u32,
    pub fill_price: i64,
    pub timestamp: u64,
}

/// A control-plane message: symbol activation or an order acknowledgment.
#[derive(Debug, Clone, Copy)]
pub struct ApiMessage {
    pub message_type: ApiMessageType,
    pub symbol: u32,
    pub client_id: u64,
    pub order_id: u64,
    pub ipo_price: i64,
}

/// Best-of-book movement between two consecutive snapshots, in micros.
#[derive(Debug, Clone, Copy, PartialEq, Eq, Structural)]
pub struct DepthUpdate {
    pub old_best_bid: i64,
    pub old_best_ask: i64,
    pub new_best_bid: i64,
    pub new_best_ask: i64,
}

/// Signed inventory position of one symbol. `quantity` is in units (positive
/// means long), `avg_entry_price` in micros.
#[derive(Debug, Clone, Copy, PartialEq, Eq, Structural)]
pub struct InventoryPosition {
    pub quantity: i64,
    pub avg_entry_price: i64,
}

impl InventoryPosition {
    /// A flat position.
    pub fn new() -> (r: InventoryPosition)
        ensures
            r.quantity == 0,
            r.avg_entry_price == 0,
    {
        InventoryPosition { quantity: 0, avg_entry_price: 0 }
    }
}

/// Profit and loss of one symbol, in micros.
#[derive(Debug, Clone, Copy, PartialEq, Eq, Structural)]
pub struct PnL {
    pub realized: i128,
    pub unrealized: i128,
    pub total: i128,
}

impl PnL {
    /// Zero P&L.
    pub fn new() -> (r: PnL)
        ensures
            r.realized == 0,
            r.unrealized == 0,
            r.total == 0,
    {
        PnL { realized: 0, unrealized: 0, total: 0 }
    }

    /// Replace both legs; the total is always their sum.
    pub fn update(&mut self, realized: i128, unrealized: i128)
        requires
            i128::MIN <= realized + unrealized <= i128::MAX,
        ensures
            final(self).realized == realized,
            final(self).unrealized == unrealized,
            final(self).total == realized + unrealized,
    {
        self.realized = realized;
        self.unrealized = unrealized;
        self.total = realized + unrealized;
    }
}

/// Derived per-symbol market state: mid price and volatility estimate in
/// micros, plus the monotonic timestamp of the last update.
#[derive(Debug, Clone, Copy, PartialEq, Eq, Structural)]
pub struct MarketState {
    pub mid_price: i64,
    pub volatility: i64,
    pub timestamp: u64,
}

/// One order the engine believes is (or was) live.
#[derive(Debug, Clone, Copy, PartialEq, Eq, Structural)]
pub struct PendingOrder {
    pub client_id: u64,
    pub exchange_order_id: Option<u64>,
    pub side: Side,
    pub price: i64,
    pub original_size: u32,
    pub remaining_size: u32,
    pub state: OrderState,
    pub level_number: usize,
    pub created_at: u64,
}

/// The order-side ledger of one symbol.
#[derive(Debug, Clone)]
pub struct SymbolOrders {
    pub symbol: u32,
    pub pending_orders: Vec<PendingOrder>,
    pub next_client_id: u64,
    pub last_quote_time: u64,
}

impl SymbolOrders {
    /// Client ids strictly below the allocator's next value and pairwise
    /// distinct.
    pub open spec fn wf(self) -> bool {
        &&& forall|i: int|
            0 <= i < self.pending_orders@.len() ==> #[trigger] self.pending_orders@[i].client_id
                < self.next_client_id
        &&& forall|i: int, j: int|
            0 <= i < j < self.pending_orders@.len() ==> #[trigger] self.pending_orders@[i].client_id
                != #[trigger] self.pending_orders@[j].client_id
    }

    /// An empty ledger whose first client id is 1.
    pub fn new(symbol: u32) -> (r: SymbolOrders)
        ensures
            r.symbol == symbol,
            r.pending_orders@.len() == 0,
            r.next_client_id == 1,
            r.last_quote_time == 0,
            r.wf(),
    {
        SymbolOrders { symbol, pending_orders: Vec::new(), next_client_id: 1, last_quote_time: 0 }
    }

    /// Hand out the next client id.
    pub fn alloc_client_id(&mut self) -> (r: u64)
        requires
            old(self).next_client_id < u64::MAX,
        ensures
            r == old(self).next_client_id,
            final(self).next_client_id == old(self).next_client_id + 1,
            final(self).pending_orders == old(self).pending_orders,
            final(self).symbol == old(self).symbol,
            final(self).last_quote_time == old(self).last_quote_time,
            old(self).wf() ==> final(self).wf(),
    {
        let id = self.next_client_id;
        self.next_client_id = self.next_client_id + 1;
        id
    }
}

} // verus!
