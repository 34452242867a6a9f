use vstd::prelude::*;

verus! {

/// Errors of the index contract.
#[derive(Debug, Clone, Copy, PartialEq, Eq, Structural)]
pub enum IndexError {
    MaxIFWithdrawReached,
    PathIsEmpty,
    IndexMintKilled,
    IndexRedeemKilled,
    IndexRebalanceKilled,
    ManagerNotSet,
    ProtocolRecipientNotSet,
    InvalidIFForNewStakes,
    InvalidIFSharesDetected,
    RebalanceTooSoon,
    UnauthorizedRebalance,
    PublicRebalanceRequiresProposal,
    InvalidWeightSum,
    ComponentNotFound,
    InvalidComponentAction,
    NotWhitelisted,
    Blacklisted,
    InvalidSharesDetected,
    InvalidCommitmentProof,
    PrivateConstraintVerificationNotSupported,
    AuthorizedConstraintVerificationNotSupported,
    RebalancingConstraintsViolated,
    UnauthorizedRefactor,
    RebalanceRequiredAfterRefactor,
}

/// Errors of the index-fund contract.
#[derive(Debug, Clone, Copy, PartialEq, Eq, Structural)]
pub enum IndexFundError {
    PathIsEmpty,
    IndexMintKilled,
    IndexRedeemKilled,
    IndexRebalanceKilled,
    ManagerNotSet,
    ProtocolRecipientNotSet,
    InvalidSharesDetected,
    RebalanceTooSoon,
    UnauthorizedRebalance,
    PublicRebalanceRequiresProposal,
    InvalidWeightSum,
    ComponentNotFound,
    InvalidComponentAction,
    RebalanceNotAllowed,
    UnauthorizedRefactor,
    NotWhitelisted,
    Blacklisted,
    InvalidAmount,
    InsufficientBalance,
    MissingOracleAddress,
    FailedToGetAdapter,
}

impl IndexFundError {
    /// The numeric code under which the contract reports the error.
    pub fn code(&self) -> (c: u32)
        ensures
            c == index_fund_error_code(*self),
    {
        match self {
            IndexFundError::PathIsEmpty => 29,
            IndexFundError::IndexMintKilled => 30,
            IndexFundError::IndexRedeemKilled => 31,
            IndexFundError::IndexRebalanceKilled => 32,
            IndexFundError::ManagerNotSet => 33,
            IndexFundError::ProtocolRecipientNotSet => 34,
            IndexFundError::InvalidSharesDetected => 35,
            IndexFundError::RebalanceTooSoon => 37,
            IndexFundError::UnauthorizedRebalance => 38,
            IndexFundError::PublicRebalanceRequiresProposal => 39,
            IndexFundError::InvalidWeightSum => 40,
            IndexFundError::ComponentNotFound => 41,
            IndexFundError::InvalidComponentAction => 42,
            IndexFundError::RebalanceNotAllowed => 46,
            IndexFundError::UnauthorizedRefactor => 45,
            IndexFundError::NotWhitelisted => 43,
            IndexFundError::Blacklisted => 44,
            IndexFundError::InvalidAmount => 47,
            IndexFundError::InsufficientBalance => 48,
            IndexFundError::MissingOracleAddress => 49,
            IndexFundError::FailedToGetAdapter => 50,
        }
    }
}

pub open spec fn index_fund_error_code(e: IndexFundError) -> u32 {
    match e {
        IndexFundError::PathIsEmpty => 29,
        IndexFundError::IndexMintKilled => 30,
        IndexFundError::IndexRedeemKilled => 31,
        IndexFundError::IndexRebalanceKilled => 32,
        IndexFundError::ManagerNotSet => 33,
        IndexFundError::ProtocolRecipientNotSet => 34,
        IndexFundError::InvalidSharesDetected => 35,
        IndexFundError::RebalanceTooSoon => 37,
        IndexFundError::UnauthorizedRebalance => 38,
        IndexFundError::PublicRebalanceRequiresProposal => 39,
        IndexFundError::InvalidWeightSum => 40,
        IndexFundError::ComponentNotFound => 41,
        IndexFundError::InvalidComponentAction => 42,
        IndexFundError::RebalanceNotAllowed => 46,
        IndexFundError::UnauthorizedRefactor => 45,
        IndexFundError::NotWhitelisted => 43,
        IndexFundError::Blacklisted => 44,
        IndexFundError::InvalidAmount => 47,
        IndexFundError::InsufficientBalance => 48,
        IndexFundError::MissingOracleAddress => 49,
        IndexFundError::FailedToGetAdapter => 50,
    }
}

/// Refusal of a caller who lacks the role an administrative action needs.
#[derive(Debug, Clone, Copy, PartialEq, Eq, Structural)]
pub enum AccessError {
    Unauthorized,
}

/// Errors of the adapter registry contract.
#[derive(Debug, Clone, Copy, PartialEq, Eq, Structural)]
pub enum AdapterRegistryError {
    AlreadyInitialized,
    AdapterNameNotFound,
    AdapterAddressNotFound,
    AdapterAddressAlreadyAssigned,
}

/// Errors raised by swap adapters.
#[derive(Debug, Clone, Copy, PartialEq, Eq, Structural)]
pub enum AdapterError {
    InvalidArgument,
    MissingPoolHashes,
    WrongMinimumPathLength,
    WrongPoolHashesLength,
    NotInitialized,
}

/// Errors reported by the swap utility.
#[derive(Debug, Clone, Copy, PartialEq, Eq, Structural)]
pub enum SwapError {
    ProviderNotSupported,
    ProviderNotConfigured,
    InvalidTokenPair,
    InvalidAmount,
    InvalidSlippage,
    InsufficientLiquidity,
    SlippageExceeded,
    SwapFailed,
    NormalDexFailed,
    SoroswapSwapFailed,
    SoroswapAggregatorUnavailable,
    InvalidProviderConfig,
    UnauthorizedAccess,
    ContractNotInitialized,
}

impl SwapError {
    /// The numeric code under which the swap utility reports the error.
    pub fn code(&self) -> (c: u32)
        ensures
            c == swap_error_code(*self),
    {
        match self {
            SwapError::ProviderNotSupported => 100,
            SwapError::ProviderNotConfigured => 101,
            SwapError::InvalidTokenPair => 200,
            SwapError::InvalidAmount => 201,
            SwapError::InvalidSlippage => 202,
            SwapError::InsufficientLiquidity => 300,
            SwapError::SlippageExceeded => 301,
            SwapError::SwapFailed => 302,
            SwapError::NormalDexFailed => 400,
            SwapError::SoroswapSwapFailed => 401,
            SwapError::SoroswapAggregatorUnavailable => 402,
            SwapError::InvalidProviderConfig => 500,
            SwapError::UnauthorizedAccess => 501,
            SwapError::ContractNotInitialized => 502,
        }
    }
}

pub open spec fn swap_error_code(e: SwapError) -> u32 {
    match e {
        SwapError::ProviderNotSupported => 100,
        SwapError::ProviderNotConfigured => 101,
        SwapError::InvalidTokenPair => 200,
        SwapError::InvalidAmount => 201,
        SwapError::InvalidSlippage => 202,
        SwapError::InsufficientLiquidity => 300,
        SwapError::SlippageExceeded => 301,
        SwapError::SwapFailed => 302,
        SwapError::NormalDexFailed => 400,
        SwapError::SoroswapSwapFailed => 401,
        SwapError::SoroswapAggregatorUnavailable => 402,
        SwapError::InvalidProviderConfig => 500,
        SwapError::UnauthorizedAccess => 501,
        SwapError::ContractNotInitialized => 502,
    }
}

/// Errors of the insurance-fund placeholder.
#[derive(Debug, Clone, Copy, PartialEq, Eq, Structural)]
pub enum InsuranceFundError {
    InvalidIFForNewStakes,
    InvalidIFSharesDetected,
}

/// Error raised when an oracle gives no usable price.
#[derive(Debug, Clone, Copy, PartialEq, Eq, Structural)]
pub enum PriceError {
    Unauthorized,
}

} // verus!
