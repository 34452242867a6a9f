use vstd::prelude::*;
use crate::errors::{IndexError, IndexFundError};
use crate::math::{fixed_mul_floor, mul_div_floor_spec, sat_mul, sat_mul_spec, sat_add_spec};

verus! {

/// Shares issued for depositing `amount` into a vault that holds
/// `vault_amount` against `total_shares` shares; `None` stands for the
/// error the contract raises.
pub open spec fn vault_amount_to_shares_spec(amount: u128, total_shares: u128, vault_amount: u128) -> Option<u128> {
    if vault_amount > 0 {
        match mul_div_floor_spec(amount, total_shares, vault_amount) {
            Some(v) => Some(v),
            None => Some(amount),
        }
    } else if total_shares == 0 {
        Some(amount)
    } else {
        None
    }
}

/// Converts a deposit into index shares, proportionally to the vault
/// (`amount * total_shares / vault_amount`, rounded down; the amount itself
/// when that product overflows). An empty vault mints one share per unit, and
/// is an error when shares already exist.
pub fn vault_amount_to_shares(amount: u128, total_shares: u128, vault_amount: u128) -> (r: Result<u128, IndexError>)
    ensures
        match vault_amount_to_shares_spec(amount, total_shares, vault_amount) {
            Some(v) => r == Ok::<u128, IndexError>(v),
            None => r == Err::<u128, IndexError>(IndexError::InvalidSharesDetected),
        },
{
    if vault_amount > 0 {
        match fixed_mul_floor(amount, total_shares, vault_amount) {
            Some(v) => Ok(v),
            None => Ok(amount),
        }
    } else if total_shares == 0 {
        Ok(amount)
    } else {
        Err(IndexError::InvalidSharesDetected)
    }
}

/// Shares minted for a net deposit `amount` against the current NAV.
pub open spec fn nav_amount_to_shares_spec(amount: u128, total_shares: u128, current_nav: u128) -> Option<u128> {
    if current_nav > 0 {
        match mul_div_floor_spec(amount, total_shares, current_nav) {
            Some(v) => Some(v),
            None => Some(amount),
        }
    } else if total_shares == 0 {
        Some(amount)
    } else {
        None
    }
}

/// Converts a net deposit into index shares against the current NAV:
/// `amount * total_shares / current_nav` rounded down, the amount itself when
/// the product overflows; with a zero NAV the amount itself when no shares
/// exist, and `InvalidSharesDetected` otherwise.
pub fn nav_amount_to_shares(amount: u128, total_shares: u128, current_nav: u128) -> (r: Result<u128, IndexFundError>)
    ensures
        match nav_amount_to_shares_spec(amount, total_shares, current_nav) {
            Some(v) => r == Ok::<u128, IndexFundError>(v),
            None => r == Err::<u128, IndexFundError>(IndexFundError::InvalidSharesDetected),
        },
{
    if current_nav > 0 {
        match fixed_mul_floor(amount, total_shares, current_nav) {
            Some(v) => Ok(v),
            None => Ok(amount),
        }
    } else if total_shares == 0 {
        Ok(amount)
    } else {
        Err(IndexFundError::InvalidSharesDetected)
    }
}

/// NAV owed for redeeming `n_shares`.
pub open spec fn shares_to_nav_spec(n_shares: u128, total_shares: u128, current_nav: u128) -> Option<u128> {
    if n_shares > total_shares {
        None
    } else if total_shares > 0 {
        match mul_div_floor_spec(current_nav, n_shares, total_shares) {
            Some(v) => Some(v),
            None => Some(0),
        }
    } else {
        Some(0)
    }
}

/// The NAV share of `n_shares` out of `total_shares`: `current_nav * n_shares /
/// total_shares` rounded down (zero when the product overflows or no shares
/// exist). Redeeming more than all shares is `InvalidSharesDetected`.
pub fn shares_to_nav(n_shares: u128, total_shares: u128, current_nav: u128) -> (r: Result<u128, IndexFundError>)
    ensures
        match shares_to_nav_spec(n_shares, total_shares, current_nav) {
            Some(v) => r == Ok::<u128, IndexFundError>(v),
            None => r == Err::<u128, IndexFundError>(IndexFundError::InvalidSharesDetected),
        },
{
    if n_shares > total_shares {
        return Err(IndexFundError::InvalidSharesDetected);
    }
    if total_shares > 0 {
        match fixed_mul_floor(current_nav, n_shares, total_shares) {
            Some(v) => Ok(v),
            None => Ok(0),
        }
    } else {
        Ok(0)
    }
}

/// Share price: NAV per share, or the initial price while there are no shares
/// or no value.
pub open spec fn share_price_spec(total_shares: u128, nav: u128, initial_price: u128) -> u128 {
    if total_shares == 0 || nav == 0 { initial_price } else { (nav / total_shares) as u128 }
}

/// Current share price of the index fund.
pub fn get_current_share_price(total_shares: u128, nav: u128, initial_price: u128) -> (r: u128)
    ensures
        r == share_price_spec(total_shares, nav, initial_price),
{
    if total_shares == 0 || nav == 0 {
        initial_price
    } else {
        nav / total_shares
    }
}

/// A component holding as the valuation sees it: the balance held and the
/// oracle price of one unit (read only for non-zero balances).
#[derive(Debug, Clone, Copy, PartialEq, Eq, Structural)]
pub struct Holding {
    pub balance: u128,
    pub price: u128,
}

/// Portfolio value of a sequence of holdings: the saturating sum of
/// `balance * price` over the holdings with a non-zero balance.
pub open spec fn nav_spec(holdings: Seq<Holding>) -> u128
    decreases holdings.len(),
{
    if holdings.len() == 0 {
        0
    } else {
        let h = holdings.last();
        let prev = nav_spec(holdings.drop_last());
        if h.balance > 0 { sat_add_spec(prev, sat_mul_spec(h.balance, h.price)) } else { prev }
    }
}

/// Net asset value of the index: the sum over all components of balance
/// times price, each product and the running sum saturating.
pub fn get_current_nav(holdings: &Vec<Holding>) -> (r: u128)
    ensures
        r == nav_spec(holdings@),
{
    let mut total: u128 = 0;
    let mut i: usize = 0;
    while i < holdings.len()
        invariant
            i <= holdings.len(),
            total == nav_spec(holdings@.subrange(0, i as int)),
        decreases holdings.len() - i,
    {
        let h = holdings[i];
        proof {
            assert(holdings@.subrange(0, i + 1).drop_last() =~= holdings@.subrange(0, i as int));
        }
        if h.balance > 0 {
            total = total.saturating_add(sat_mul(h.balance, h.price));
        }
        i = i + 1;
    }
    proof {
        assert(holdings@.subrange(0, i as int) =~= holdings@);
    }
    total
}

/// Minting for a deposit and redeeming the shares obtained at once never pays
/// out more than the deposit: with `nav` and `total_shares` before the mint,
/// the deposit raising the NAV by `amount`, the value of the new shares
/// afterwards is at most `amount` (when no product overflows).
pub proof fn lemma_mint_then_redeem_no_gain(amount: u128, total_shares: u128, nav: u128)
    requires
        nav > 0,
        amount * total_shares <= u128::MAX,
        nav + amount <= u128::MAX,
        ({
            let s = nav_amount_to_shares_spec(amount, total_shares, nav).unwrap();
            &&& total_shares + s <= u128::MAX
            &&& (nav + amount) * s <= u128::MAX
        }),
    ensures
        ({
            let s = nav_amount_to_shares_spec(amount, total_shares, nav).unwrap();
            let paid = shares_to_nav_spec(s, (total_shares + s) as u128, (nav + amount) as u128).unwrap();
            paid <= amount
        }),
{
    let s = nav_amount_to_shares_spec(amount, total_shares, nav).unwrap();
    let a = amount as int;
    let t = total_shares as int;
    let n = nav as int;
    let si = s as int;
    assert(si == (a * t) / n);
    assert(n * si <= a * t) by (nonlinear_arith)
        requires si == (a * t) / n, n > 0, a >= 0, t >= 0;
    if t + si > 0 {
        assert(((n + a) * si) / (t + si) <= a) by (nonlinear_arith)
            requires n * si <= a * t, t + si > 0, si >= 0, a >= 0, n > 0;
    }
}

} // verus!
