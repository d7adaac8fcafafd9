//! The validated cancellation result.
//!
//! The raw acknowledgement carries every number as a string and every
//! vocabulary word as text; this conversion parses each field
//! independently, and the first field that cannot be read names the
//! failure.

use vstd::prelude::*;

use crate::base::{Side, Target};
use crate::coin::Coins;
use crate::decimal::{parse_decimal, spec_parse_decimal, Decimal};
use crate::models::CanceledOrderResponse;

verus! {

/// Which field of a cancellation acknowledgement could not be read.
#[derive(Clone, Copy, Debug, PartialEq, Eq, Structural)]
pub enum CanceledOrderError {
    /// The pair symbol is not in the closed catalog.
    UnsupportedPair,
    /// The side word is neither `sell` nor `buy`.
    InvalidSide,
    /// The order-type word is not a known target.
    InvalidTarget,
    /// The price is not a decimal literal.
    InvalidPrice,
    /// The original amount is not a decimal literal.
    InvalidOriginalAmount,
    /// The remaining amount is not a decimal literal.
    InvalidRemainingAmount,
}

/// A validated canceled order.
#[derive(Clone, Copy, Debug, PartialEq, Eq, Structural)]
pub struct CanceledOrder {
    pub symbol: Coins,
    pub side: Side,
    pub target: Target,
    pub price: Decimal,
    pub original_amount: Decimal,
    pub remaining_amount: Decimal,
}

/// The canceled order a raw acknowledgement denotes: the pair against the
/// closed catalog, side and target against their vocabularies, and the
/// three string-typed numbers through the decimal parser. Fields are read
/// in that order, and the first unreadable one names the failure.
pub open spec fn spec_canceled_order(resp: CanceledOrderResponse) -> Result<
    CanceledOrder,
    CanceledOrderError,
> {
    match Coins::spec_parse(resp.symbol@) {
        None => Err(CanceledOrderError::UnsupportedPair),
        Some(symbol) => match Side::spec_parse(resp.side@) {
            None => Err(CanceledOrderError::InvalidSide),
            Some(side) => match Target::spec_parse(resp.order_type@) {
                None => Err(CanceledOrderError::InvalidTarget),
                Some(target) => match spec_parse_decimal(resp.price@) {
                    None => Err(CanceledOrderError::InvalidPrice),
                    Some(price) => match spec_parse_decimal(resp.original_amount@) {
                        None => Err(CanceledOrderError::InvalidOriginalAmount),
                        Some(original_amount) => match spec_parse_decimal(
                            resp.remaining_amount@,
                        ) {
                            None => Err(CanceledOrderError::InvalidRemainingAmount),
                            Some(remaining_amount) => Ok(
                                CanceledOrder {
                                    symbol,
                                    side,
                                    target,
                                    price,
                                    original_amount,
                                    remaining_amount,
                                },
                            ),
                        },
                    },
                },
            },
        },
    }
}

impl CanceledOrder {
    /// Validates a raw cancellation acknowledgement. Every field is parsed
    /// independently; the first failure short-circuits and names the field
    /// that could not be read. A malformed numeric string is always an
    /// error, never a zero.
    pub fn try_from(resp: &CanceledOrderResponse) -> (r: Result<CanceledOrder, CanceledOrderError>)
        ensures
            r == spec_canceled_order(*resp),
    {
        let symbol = match Coins::parse(resp.symbol.as_str()) {
            Ok(pair) => pair,
            Err(_) => {
                return Err(CanceledOrderError::UnsupportedPair);
            },
        };
        let side = match Side::parse(resp.side.as_str()) {
            Ok(side) => side,
            Err(_) => {
                return Err(CanceledOrderError::InvalidSide);
            },
        };
        let target = match Target::parse(resp.order_type.as_str()) {
            Ok(target) => target,
            Err(_) => {
                return Err(CanceledOrderError::InvalidTarget);
            },
        };
        let price = match parse_decimal(resp.price.as_str()) {
            Some(d) => d,
            None => {
                return Err(CanceledOrderError::InvalidPrice);
            },
        };
        let original_amount = match parse_decimal(resp.original_amount.as_str()) {
            Some(d) => d,
            None => {
                return Err(CanceledOrderError::InvalidOriginalAmount);
            },
        };
        let remaining_amount = match parse_decimal(resp.remaining_amount.as_str()) {
            Some(d) => d,
            None => {
                return Err(CanceledOrderError::InvalidRemainingAmount);
            },
        };
        Ok(CanceledOrder { symbol, side, target, price, original_amount, remaining_amount })
    }
}

/// The lifecycle states of an order this client distinguishes.
#[derive(Clone, Copy, Debug, PartialEq, Eq, Structural)]
pub enum OrderStatus {
    Executed,
}

} // verus!
