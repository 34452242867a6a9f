//! Swap adapters: how a trade request becomes an order for the Normal
//! treasury, the Soroswap router or the Aquarius router. The order is
//! placed by the contract layer, which hands the router's answer back.

use vstd::prelude::*;
use crate::errors::AdapterError;
use crate::components::TradeParams;

verus! {

/// Values an adapter reads from the metadata of a trade request.
#[derive(Debug, Clone, Copy, PartialEq, Eq, Structural)]
pub struct TradeMetadata {
    /// The `pair` address entry, if present.
    pub pair: Option<u64>,
    /// The `deadline` number entry, if present.
    pub deadline: Option<i128>,
}

/// Direction of a treasury order.
#[derive(Debug, Clone, Copy, PartialEq, Eq, Structural)]
pub enum Direction {
    Buy,
    Sell,
}

/// Side of a treasury order.
#[derive(Debug, Clone, Copy, PartialEq, Eq, Structural)]
pub enum Side {
    Long,
    Short,
}

/// An order for the Normal treasury.
#[derive(Debug, Clone, Copy, PartialEq, Eq, Structural)]
pub struct TreasuryOrder {
    pub direction: Direction,
    pub side: Side,
    pub to: u64,
    pub pair: u64,
    pub amount_in: u128,
    pub amount_out_min: u128,
}

/// Adapter trading long tokens through the Normal treasury.
#[derive(Debug, Clone, Copy, PartialEq, Eq, Structural)]
pub struct NormalAdapter {
    pub admin: u64,
    pub protocol_id: u64,
    pub protocol_address: u64,
    /// The treasury's quote token: paying with it buys, receiving it sells.
    pub protocol_quote_token: u64,
}

pub open spec fn treasury_order_spec(quote: u64, params: TradeParams, metadata: TradeMetadata) -> Result<TreasuryOrder, AdapterError> {
    match metadata.pair {
        Some(pair) => Ok(TreasuryOrder {
            direction: if params.token_in == quote { Direction::Buy } else { Direction::Sell },
            side: Side::Long,
            to: params.to,
            pair,
            amount_in: params.amount_in,
            amount_out_min: params.amount_out_min,
        }),
        None => Err(AdapterError::InvalidArgument),
    }
}

/// A treasury order carries the trade unchanged: the same amounts, the
/// recipient and the requested pair, long side, buying exactly when the
/// trade pays in the quote token; only a request without a pair is refused.
pub proof fn lemma_treasury_order_keeps_trade(quote: u64, params: TradeParams, metadata: TradeMetadata)
    ensures
        treasury_order_spec(quote, params, metadata) is Err <==> metadata.pair is None,
        treasury_order_spec(quote, params, metadata) matches Ok(o) ==> o.amount_in == params.amount_in
            && o.amount_out_min == params.amount_out_min && o.to == params.to
            && metadata.pair == Some(o.pair) && o.side == Side::Long
            && (o.direction == Direction::Buy <==> params.token_in == quote),
{
}

impl NormalAdapter {
    /// An adapter for the treasury at `protocol_address` quoting in
    /// `protocol_quote_token`.
    pub fn new(admin: u64, protocol_id: u64, protocol_address: u64, protocol_quote_token: u64) -> (r: NormalAdapter)
        ensures
            r == (NormalAdapter { admin, protocol_id, protocol_address, protocol_quote_token }),
    {
        NormalAdapter { admin, protocol_id, protocol_address, protocol_quote_token }
    }

    /// The treasury order for a trade: paying in the quote token buys long,
    /// anything else sells long; a request without a `pair` entry is refused.
    pub fn swap(&self, params: TradeParams, metadata: TradeMetadata) -> (r: Result<TreasuryOrder, AdapterError>)
        ensures
            r == treasury_order_spec(self.protocol_quote_token, params, metadata),
    {
        let direction = if params.token_in == self.protocol_quote_token { Direction::Buy } else { Direction::Sell };
        let side = Side::Long;
        let pair = match metadata.pair {
            Some(p) => p,
            None => return Err(AdapterError::InvalidArgument),
        };
        Ok(TreasuryOrder {
            direction,
            side,
            to: params.to,
            pair,
            amount_in: params.amount_in,
            amount_out_min: params.amount_out_min,
        })
    }
}

/// An exact-input order for the Soroswap router.
#[derive(Debug, Clone, Copy, PartialEq, Eq, Structural)]
pub struct RouterOrder {
    pub amount_in: i128,
    pub amount_out_min: i128,
    /// First token of the swap path.
    pub path_from: u64,
    /// Last token of the swap path.
    pub path_to: u64,
    pub to: u64,
    pub deadline: u64,
}

/// Adapter trading through the Soroswap router.
#[derive(Debug, Clone, Copy, PartialEq, Eq, Structural)]
pub struct SoroswapAdapter {
    pub admin: u64,
    pub protocol_id: u64,
    pub protocol_address: u64,
}

/// Deadline of a router order: the metadata's deadline when it is a `u64`,
/// no deadline (`u64::MAX`) when absent.
pub open spec fn deadline_spec(deadline: Option<i128>) -> Result<u64, AdapterError> {
    match deadline {
        Some(d) => if 0 <= d <= u64::MAX { Ok(d as u64) } else { Err(AdapterError::InvalidArgument) },
        None => Ok(u64::MAX),
    }
}

/// The router order for a trade: amounts that do not fit an `i128`, or a
/// deadline that is not a `u64`, are refused.
pub open spec fn router_order_spec(params: TradeParams, metadata: TradeMetadata) -> Result<RouterOrder, AdapterError> {
    if params.amount_in > i128::MAX || params.amount_out_min > i128::MAX {
        Err(AdapterError::InvalidArgument)
    } else {
    match deadline_spec(metadata.deadline) {
        Ok(deadline) => Ok(RouterOrder {
            amount_in: params.amount_in as i128,
            amount_out_min: params.amount_out_min as i128,
            path_from: params.token_in,
            path_to: params.token_out,
            to: params.to,
            deadline,
        }),
        Err(e) => Err(e),
    }
    }
}

/// The amount a router swap delivered: the last amount of the route; an
/// empty route or a negative amount is refused.
pub open spec fn swap_output_spec(amounts: Seq<i128>) -> Result<u128, AdapterError> {
    if amounts.len() > 0 && amounts.last() >= 0 {
        Ok(amounts.last() as u128)
    } else {
        Err(AdapterError::InvalidArgument)
    }
}

/// An accepted router order carries the trade unchanged: the same amount in,
/// the same minimum out (the trade's slippage bound), the trade's tokens as
/// the path and its recipient; it is refused only for amounts beyond
/// `i128` or a deadline that is not a `u64`.
pub proof fn lemma_router_order_keeps_trade(params: TradeParams, metadata: TradeMetadata)
    ensures
        router_order_spec(params, metadata) matches Ok(o) ==> o.amount_in == params.amount_in
            && o.amount_out_min == params.amount_out_min && o.path_from == params.token_in
            && o.path_to == params.token_out && o.to == params.to,
        router_order_spec(params, metadata) is Err <==> (params.amount_in > i128::MAX || params.amount_out_min > i128::MAX
            || (metadata.deadline matches Some(d) && (d < 0 || d > u64::MAX))),
{
}

impl SoroswapAdapter {
    /// An adapter for the router at `protocol_address`.
    pub fn new(admin: u64, protocol_id: u64, protocol_address: u64) -> (r: SoroswapAdapter)
        ensures
            r == (SoroswapAdapter { admin, protocol_id, protocol_address }),
    {
        SoroswapAdapter { admin, protocol_id, protocol_address }
    }

    /// The router order for a trade; amounts beyond `i128` and a deadline
    /// that is not a `u64` are refused.
    pub fn swap(&self, params: TradeParams, metadata: TradeMetadata) -> (r: Result<RouterOrder, AdapterError>)
        ensures
            r == router_order_spec(params, metadata),
            r matches Ok(o) ==> o.amount_in == params.amount_in && o.amount_out_min == params.amount_out_min
                && o.path_from == params.token_in && o.path_to == params.token_out && o.to == params.to,
    {
        if params.amount_in > i128::MAX as u128 || params.amount_out_min > i128::MAX as u128 {
            return Err(AdapterError::InvalidArgument);
        }
        let deadline: u64 = match metadata.deadline {
            Some(d) => {
                if d < 0 || d > u64::MAX as i128 {
                    return Err(AdapterError::InvalidArgument);
                }
                d as u64
            },
            None => u64::MAX,
        };
        Ok(RouterOrder {
            amount_in: params.amount_in as i128,
            amount_out_min: params.amount_out_min as i128,
            path_from: params.token_in,
            path_to: params.token_out,
            to: params.to,
            deadline,
        })
    }

    /// The amount a router swap delivered: the last amount of the route; an
    /// empty route or a negative amount is refused.
    pub fn swap_output(amounts: &Vec<i128>) -> (r: Result<u128, AdapterError>)
        ensures
            r == swap_output_spec(amounts@),
    {
        if amounts.len() == 0 {
            return Err(AdapterError::InvalidArgument);
        }
        let last = amounts[amounts.len() - 1];
        if last < 0 {
            return Err(AdapterError::InvalidArgument);
        }
        Ok(last as u128)
    }
}

/// One hop of a chained swap: the pool's token pair in ascending order,
/// the pool's hash and the token the hop yields.
#[derive(Debug, Clone, Copy)]
pub struct SwapHop {
    pub pair: (u64, u64),
    pub pool_hash: [u8; 32],
    pub token_out: u64,
}

/// A chained swap for the Aquarius router.
#[derive(Debug, Clone)]
pub struct ChainedSwap {
    pub to: u64,
    pub swaps_chain: Vec<SwapHop>,
    pub token_in: u64,
    pub in_amount: u128,
    pub out_min: u128,
}

/// Adapter trading through the Aquarius router.
#[derive(Debug, Clone, Copy, PartialEq, Eq, Structural)]
pub struct AquariusAdapter {
    pub admin: u64,
    pub protocol_id: u64,
    pub protocol_address: u64,
}

pub open spec fn hop_spec(token_in: u64, token_out: u64, pool_hash: [u8; 32]) -> SwapHop {
    SwapHop {
        pair: if token_in < token_out { (token_in, token_out) } else { (token_out, token_in) },
        pool_hash,
        token_out,
    }
}

pub open spec fn option_seq(o: Option<Vec<[u8; 32]>>) -> Option<Seq<[u8; 32]>> {
    match o {
        Some(v) => Some(v@),
        None => None,
    }
}

/// The hops of a path of tokens with one pool hash per consecutive pair.
pub open spec fn swaps_chain_spec(path: Seq<u64>, hashes: Option<Seq<[u8; 32]>>) -> Result<Seq<SwapHop>, AdapterError> {
    match hashes {
        None => Err(AdapterError::MissingPoolHashes),
        Some(h) => {
            if path.len() < 2 {
                Err(AdapterError::WrongMinimumPathLength)
            } else if h.len() != path.len() - 1 {
                Err(AdapterError::WrongPoolHashesLength)
            } else {
                Ok(Seq::new((path.len() - 1) as nat, |i: int| hop_spec(path[i], path[i + 1], h[i])))
            }
        },
    }
}

/// Splits a token path into router hops: the hashes must be present, the
/// path must have two tokens at least and one hash per hop.
pub fn convert_to_swaps_chain(path: &Vec<u64>, pool_hashes: &Option<Vec<[u8; 32]>>) -> (r: Result<Vec<SwapHop>, AdapterError>)
    ensures
        r is Err ==> swaps_chain_spec(path@, option_seq(*pool_hashes)) == Err::<Seq<SwapHop>, AdapterError>(r->Err_0),
        r is Ok ==> swaps_chain_spec(path@, option_seq(*pool_hashes)) == Ok::<Seq<SwapHop>, AdapterError>(r->Ok_0@),
{
    let hashes = match pool_hashes {
        Some(h) => h,
        None => return Err(AdapterError::MissingPoolHashes),
    };
    if path.len() < 2 {
        return Err(AdapterError::WrongMinimumPathLength);
    }
    if hashes.len() != path.len() - 1 {
        return Err(AdapterError::WrongPoolHashesLength);
    }
    let mut chain: Vec<SwapHop> = Vec::new();
    let mut i: usize = 0;
    while i < path.len() - 1
        invariant
            path@.len() >= 2,
            hashes@.len() == path@.len() - 1,
            0 <= i <= path@.len() - 1,
            chain@.len() == i,
            forall|j: int| 0 <= j < i ==> #[trigger] chain@[j] == hop_spec(path@[j], path@[j + 1], hashes@[j]),
        decreases path@.len() - 1 - i,
    {
        let token_in = path[i];
        let token_out = path[i + 1];
        let pool_hash = hashes[i];
        let pair = if token_in < token_out { (token_in, token_out) } else { (token_out, token_in) };
        chain.push(SwapHop { pair, pool_hash, token_out });
        i = i + 1;
    }
    proof {
        let h = hashes@;
        assert(chain@ == Seq::new((path@.len() - 1) as nat, |k: int| hop_spec(path@[k], path@[k + 1], h[k])));
    }
    Ok(chain)
}

/// The chained swap for a path: the hops, the first token as input and the
/// amounts reinterpreted as unsigned.
pub fn protocol_swap_exact_tokens_for_tokens(
    amount_in: i128,
    amount_out_min: i128,
    path: &Vec<u64>,
    to: u64,
    pool_hashes: &Option<Vec<[u8; 32]>>,
) -> (r: Result<ChainedSwap, AdapterError>)
    ensures
        r is Err ==> swaps_chain_spec(path@, option_seq(*pool_hashes)) == Err::<Seq<SwapHop>, AdapterError>(r->Err_0),
        r is Ok ==> swaps_chain_spec(path@, option_seq(*pool_hashes)) == Ok::<Seq<SwapHop>, AdapterError>(r->Ok_0.swaps_chain@),
        r is Ok ==> r->Ok_0.to == to && r->Ok_0.token_in == path@[0]
            && r->Ok_0.in_amount == amount_in as u128 && r->Ok_0.out_min == amount_out_min as u128,
{
    let swaps_chain = match convert_to_swaps_chain(path, pool_hashes) {
        Ok(c) => c,
        Err(e) => return Err(e),
    };
    let token_in = path[0];
    Ok(ChainedSwap {
        to,
        swaps_chain,
        token_in,
        in_amount: amount_in as u128,
        out_min: amount_out_min as u128,
    })
}

impl AquariusAdapter {
    /// An adapter for the router at `protocol_address`.
    pub fn new(admin: u64, protocol_id: u64, protocol_address: u64) -> (r: AquariusAdapter)
        ensures
            r == (AquariusAdapter { admin, protocol_id, protocol_address }),
    {
        AquariusAdapter { admin, protocol_id, protocol_address }
    }

    /// The chained swap for a trade from `token_in` to `token_out`. The
    /// adapter passes no pool hashes, so every request is refused with
    /// `MissingPoolHashes`.
    pub fn swap(&self, params: TradeParams) -> (r: Result<ChainedSwap, AdapterError>)
        requires
            params.amount_in <= i128::MAX,
            params.amount_out_min <= i128::MAX,
        ensures
            r is Err && r->Err_0 == AdapterError::MissingPoolHashes,
    {
        let path: Vec<u64> = vec![params.token_in, params.token_out];
        let none: Option<Vec<[u8; 32]>> = None;
        protocol_swap_exact_tokens_for_tokens(
            params.amount_in as i128,
            params.amount_out_min as i128,
            &path,
            params.to,
            &none,
        )
    }
}

} // verus!
