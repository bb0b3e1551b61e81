//! Trusted interface to the external pricing model and volatility estimator.
//!
//! Both collaborators are pure functions of their arguments, so each call's
//! result is given a name (`model_quotes`, `vol_estimate`) that the callers'
//! contracts are stated over. Parts of their arithmetic round-trip through
//! `f64` library functions whose exact rounding can differ between platforms,
//! so "pure function of its arguments" is a claim about one build of this
//! crate, which is all the engine's reasoning uses. Values cross the boundary
//! in the engine's own fixed-point representation: micro units, one whole
//! unit being `1_000_000` micros, which is exactly a `rust_decimal` value of
//! scale 6.

use vstd::prelude::*;

use market_maker_rs::strategy::avellaneda_stoikov::calculate_optimal_quotes;
use market_maker_rs::market_state::volatility::VolatilityEstimator;
use rust_decimal::Decimal;

verus! {

/// The optimal (bid, ask) pair, in micros, that the pricing model yields for
/// these inputs (`mid`, `risk_aversion`, `volatility` and `liquidity_k` in
/// micros, `inventory` in units, horizon in milliseconds); `None` where the
/// model fails or the quotes do not fit the engine's price type.
pub uninterp spec fn model_quotes(
    mid: i64,
    inventory: i64,
    risk_aversion: i64,
    volatility: i64,
    time_to_terminal_ms: u64,
    liquidity_k: i64,
) -> Option<(i64, i64)>;

/// Relies on market_maker_rs's `calculate_optimal_quotes`: a pure function of
/// its arguments that validates its inputs (mid price, volatility, risk
/// aversion and order intensity must be positive) and, on success, returns a
/// bid and ask with `0 < bid < ask`. The bounds keep the model's decimal
/// arithmetic (`inventory * gamma * sigma^2 * horizon`) far below the
/// decimal type's maximum, where its multiplication would panic.
#[verifier::external_body]
pub(crate) fn optimal_quotes(
    mid: i64,
    inventory: i64,
    risk_aversion: i64,
    volatility: i64,
    time_to_terminal_ms: u64,
    liquidity_k: i64,
) -> (r: Option<(i64, i64)>)
    requires
        mid <= crate::constants::PRICE_MAX,
        -crate::constants::QTY_CAP <= inventory <= crate::constants::QTY_CAP,
        risk_aversion <= crate::constants::PRICE_MAX,
        volatility <= crate::constants::VOL_INPUT_CAP,
        time_to_terminal_ms <= crate::constants::HORIZON_MS_CAP,
    ensures
        r == model_quotes(mid, inventory, risk_aversion, volatility, time_to_terminal_ms, liquidity_k),
        mid <= 0 || volatility <= 0 || risk_aversion <= 0 || liquidity_k <= 0 ==> r is None,
        r matches Some(q) ==> 0 <= q.0 <= q.1,
{
    let r = calculate_optimal_quotes(Decimal::new(mid, 6), Decimal::from(inventory),
        Decimal::new(risk_aversion, 6), Decimal::new(volatility, 6), time_to_terminal_ms,
        Decimal::new(liquidity_k, 6));
    let (mut b, mut a) = match r { Ok(p) => p, Err(_) => return None };
    b.rescale(6);
    a.rescale(6);
    if b.scale() != 6 || a.scale() != 6 { return None; }
    match (i64::try_from(b.mantissa()), i64::try_from(a.mantissa())) {
        (Ok(bm), Ok(am)) => Some((bm, am)),
        _ => None,
    }
}

/// The annualized volatility estimate, in micros, that the estimator yields
/// for this price history (prices in micros, oldest first); `None` where the
/// estimator fails or the estimate does not fit the engine's type.
pub uninterp spec fn vol_estimate(prices: Seq<i64>) -> Option<i64>;

/// Relies on market_maker_rs's `VolatilityEstimator::new` (a constant,
/// parameterless configuration) and `VolatilityEstimator::calculate_simple`:
/// a pure function of the price history that fails on fewer than two prices
/// or a non-positive price and otherwise returns a non-negative annualized
/// standard deviation of log returns. A history of exactly two prices is
/// excluded: the estimator divides the squared deviations by one less than
/// the number of returns, which is zero there, and `rust_decimal` panics on
/// division by zero.
#[verifier::external_body]
pub(crate) fn estimate_volatility(prices: &Vec<i64>) -> (r: Option<i64>)
    requires
        prices@.len() != 2,
    ensures
        r == vol_estimate(prices@),
        prices@.len() < 2 ==> r is None,
        r matches Some(v) ==> v >= 0,
{
    let dec_prices: Vec<Decimal> = prices.iter().map(|&p| Decimal::new(p, 6)).collect();
    let estimator = VolatilityEstimator::new();
    let mut v = match estimator.calculate_simple(&dec_prices) {
        Ok(v) => v,
        Err(_) => return None,
    };
    v.rescale(6);
    if v.scale() != 6 {
        return None;
    }
    i64::try_from(v.mantissa()).ok()
}

} // verus!
