//! Execution of planned swaps: which component a swap concerns, which
//! adapter carries it out, and how each adapter's answer is recorded. The
//! adapters are called by the contract layer, which hands their answers
//! over.

use vstd::prelude::*;
use crate::errors::IndexFundError;
use crate::components::{ComponentBook, TradeParams, contains_token, index_of};

verus! {

/// Event code of a swap that the adapter refused.
pub const SWAP_REFUSED_CODE: u32 = 1000;

/// Event code of a swap whose adapter call failed.
pub const SWAP_CALL_FAILED_CODE: u32 = 999;

/// Answer of an adapter to one swap.
#[derive(Debug, Clone, Copy, PartialEq, Eq, Structural)]
pub enum SwapOutcome {
    /// The swap went through and delivered this amount.
    Swapped(u128),
    /// The adapter answered with an error.
    Refused,
    /// The call itself failed.
    CallFailed,
}

/// Amount recorded for a swap: what it delivered, zero when it failed.
pub open spec fn outcome_amount(o: SwapOutcome) -> u128 {
    match o {
        SwapOutcome::Swapped(a) => a,
        _ => 0,
    }
}

/// The component a swap concerns: what it sells when it pays out in the
/// quote token, what it buys otherwise.
pub open spec fn component_token_spec(params: TradeParams, quote_token: u64) -> u64 {
    if params.token_out == quote_token { params.token_in } else { params.token_out }
}

/// The component token of a swap.
pub fn swap_component_token(params: &TradeParams, quote_token: u64) -> (r: u64)
    ensures
        r == component_token_spec(*params, quote_token),
{
    if params.token_out == quote_token { params.token_in } else { params.token_out }
}

/// The adapter name registered for the component a swap concerns, if the
/// component is part of the fund.
pub fn swap_adapter_name(book: &ComponentBook, params: &TradeParams, quote_token: u64) -> (r: Option<u64>)
    requires
        book.wf(),
    ensures
        r == (if contains_token(book@, component_token_spec(*params, quote_token)) {
            Some(book@[index_of(book@, component_token_spec(*params, quote_token))].component.adapter)
        } else {
            None::<u64>
        }),
{
    let token = swap_component_token(params, quote_token);
    match book.get_component(token) {
        Some(c) => Some(c.adapter),
        None => None,
    }
}

/// The adapter address from the registry's reply; no reply is refused.
pub fn get_adapter_from_registry(reply: Option<u64>) -> (r: Result<u64, IndexFundError>)
    ensures
        r == (match reply {
            Some(a) => Ok::<u64, IndexFundError>(a),
            None => Err(IndexFundError::FailedToGetAdapter),
        }),
{
    match reply {
        Some(a) => Ok(a),
        None => Err(IndexFundError::FailedToGetAdapter),
    }
}

/// Event code of a failed swap.
pub fn swap_failure_code(outcome: SwapOutcome) -> (r: Option<u32>)
    ensures
        r == (match outcome {
            SwapOutcome::Swapped(_) => None::<u32>,
            SwapOutcome::Refused => Some(SWAP_REFUSED_CODE),
            SwapOutcome::CallFailed => Some(SWAP_CALL_FAILED_CODE),
        }),
{
    match outcome {
        SwapOutcome::Swapped(_) => None,
        SwapOutcome::Refused => Some(SWAP_REFUSED_CODE),
        SwapOutcome::CallFailed => Some(SWAP_CALL_FAILED_CODE),
    }
}

/// Records the answers to a batch of swaps, `outcomes[i]` being the answer
/// to the i-th swap-utility call (see `Index::plan_swap_calls`): one amount
/// per swap, in order; a swap that went through gives what it delivered, a
/// refused or failed one gives zero, and no failure stops the swaps after it.
pub fn execute_swaps(outcomes: &Vec<SwapOutcome>) -> (r: Vec<u128>)
    ensures
        r@.len() == outcomes@.len(),
        forall|i: int| 0 <= i < r@.len() ==> #[trigger] r@[i] == outcome_amount(outcomes@[i]),
        forall|i: int| 0 <= i < r@.len() ==> match #[trigger] outcomes@[i] {
            SwapOutcome::Swapped(a) => r@[i] == a,
            _ => r@[i] == 0,
        },
{
    let mut results: Vec<u128> = Vec::new();
    let mut i: usize = 0;
    while i < outcomes.len()
        invariant
            0 <= i <= outcomes@.len(),
            results@.len() == i,
            forall|j: int| 0 <= j < i ==> #[trigger] results@[j] == outcome_amount(outcomes@[j]),
        decreases outcomes@.len() - i,
    {
        let amount = match outcomes[i] {
            SwapOutcome::Swapped(a) => a,
            SwapOutcome::Refused => 0,
            SwapOutcome::CallFailed => 0,
        };
        results.push(amount);
        i = i + 1;
    }
    results
}

} // verus!
