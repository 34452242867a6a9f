//! Oracle prices: which price of an oracle reading is usable, and the
//! conversion of token amounts to USD units. The oracle is queried by the
//! contract layer, which hands the reply over.

use vstd::prelude::*;
use crate::errors::PriceError;
use crate::math::{sat_mul, sat_mul_spec};

verus! {

/// Scale of USD conversions: prices carry 7 decimals.
pub const USD_PRICE_SCALE: u128 = 10_000_000;

/// Validity verdict of an oracle reading.
#[derive(Debug, Clone, Copy, PartialEq, Eq, Structural)]
pub enum OracleValidity {
    Valid,
    NonPositive,
    TooVolatile,
    StaleForPool,
    Frozen,
}

/// The prices of an oracle reading.
#[derive(Debug, Clone, Copy, PartialEq, Eq, Structural)]
pub struct OracleReading {
    pub last_price: u128,
    pub last_price_twap: u128,
}

/// The usable price of an oracle reply: the last price when valid, the
/// time-weighted price when too volatile, none otherwise or when the call
/// failed (`None` reply).
pub open spec fn usable_price_spec(reply: Option<(OracleReading, OracleValidity)>) -> Option<u128> {
    match reply {
        Some((reading, validity)) => match validity {
            OracleValidity::Valid => Some(reading.last_price),
            OracleValidity::TooVolatile => Some(reading.last_price_twap),
            _ => None,
        },
        None => None,
    }
}

/// `amount * price` (saturating) in USD units.
pub open spec fn to_usd_spec(amount: u128, price: u128) -> u128 {
    sat_mul_spec(amount, price) / USD_PRICE_SCALE
}

/// Oracle helpers for valuation and conversions.
#[derive(Debug, Clone, Copy)]
pub struct OracleUtils;

impl OracleUtils {
    /// The usable price of an oracle reply, if any.
    pub fn get_token_price_usd_safe(reply: Option<(OracleReading, OracleValidity)>) -> (r: Option<u128>)
        ensures
            r == usable_price_spec(reply),
    {
        match reply {
            Some((reading, validity)) => match validity {
                OracleValidity::Valid => Some(reading.last_price),
                OracleValidity::TooVolatile => Some(reading.last_price_twap),
                OracleValidity::NonPositive | OracleValidity::StaleForPool | OracleValidity::Frozen => None,
            },
            None => None,
        }
    }

    /// The usable price of an oracle reply; a failed call or an unusable
    /// reading is refused.
    pub fn get_token_price_usd(reply: Option<(OracleReading, OracleValidity)>) -> (r: Result<u128, PriceError>)
        ensures
            r == (match usable_price_spec(reply) {
                Some(p) => Ok::<u128, PriceError>(p),
                None => Err(PriceError::Unauthorized),
            }),
    {
        match Self::get_token_price_usd_safe(reply) {
            Some(p) => Ok(p),
            None => Err(PriceError::Unauthorized),
        }
    }

    /// USD value of `amount` tokens at `token_price_usd`.
    pub fn convert_token_to_usd(amount: u128, token_price_usd: u128) -> (r: u128)
        ensures
            r == to_usd_spec(amount, token_price_usd),
    {
        sat_mul(amount, token_price_usd) / USD_PRICE_SCALE
    }

    /// USD value of `amount` tokens when the oracle gave a usable price.
    pub fn convert_token_to_usd_safe(amount: u128, reply: Option<(OracleReading, OracleValidity)>) -> (r: Option<u128>)
        ensures
            r == (match usable_price_spec(reply) {
                Some(p) => Some(to_usd_spec(amount, p)),
                None => None::<u128>,
            }),
    {
        match Self::get_token_price_usd_safe(reply) {
            Some(p) => Some(Self::convert_token_to_usd(amount, p)),
            None => None,
        }
    }

    /// USD value of an XLM amount; the factory has no XLM price source, so
    /// the value is zero.
    pub fn convert_xlm_to_usd(xlm_amount: u128) -> (r: u128)
        ensures
            r == 0,
    {
        0
    }

    /// Price of XLM in USD; the factory has no XLM price source, so the
    /// price is zero.
    pub fn get_xlm_price_usd() -> (r: u128)
        ensures
            r == 0,
    {
        0
    }
}

/// A conversion never reports more than the saturated product allows, and
/// a bigger amount is never worth less at the same price.
pub proof fn lemma_to_usd_monotone(a1: u128, a2: u128, price: u128)
    requires
        a1 <= a2,
    ensures
        to_usd_spec(a1, price) <= to_usd_spec(a2, price),
{
    assert(a1 * price <= a2 * price) by (nonlinear_arith)
        requires a1 <= a2;
    vstd::arithmetic::div_mod::lemma_div_is_ordered(sat_mul_spec(a1, price) as int, sat_mul_spec(a2, price) as int, USD_PRICE_SCALE as int);
}

} // verus!
