//! Decision core of an automated market-making engine.
//!
//! For each traded instrument the engine maintains two-sided resting quotes,
//! tracks inventory and realized/unrealized profit-and-loss, reacts to
//! market-data and fill events, and enforces risk limits through a small set
//! of quoting modes. All monetary quantities are fixed-point integers in
//! micro price units (one unit of currency is `SCALE` micros); quantities are
//! plain integers. Transport of events to and from the engine is left to the
//! caller; the engine itself is a pure state machine over plain values.

pub mod constants;
pub mod num;
pub mod types;
pub mod rolling_price;
pub mod state;
pub mod model;
pub mod context;
pub mod engine;
pub mod laws;
