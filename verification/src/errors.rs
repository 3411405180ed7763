use vstd::prelude::*;

verus! {

/// A token-transfer failure reported by the fungible-token collaborator.
#[derive(Debug, PartialEq, Eq)]
pub enum PSP22Error {
    Custom(String),
    InsufficientBalance,
    InsufficientAllowance,
    ZeroRecipientAddress,
    ZeroSenderAddress,
    SafeTransferCheckFailed(String),
}

/// A dispatch failure reported by a cross-contract call.
#[derive(Debug, PartialEq, Eq)]
pub enum LangError {
    CouldNotReadInput,
}

#[derive(Debug, PartialEq, Eq)]
pub enum MathError {
    AddOverflow(u8),
    CastOverflow(u8),
    DivByZero(u8),
    MulOverflow(u8),
    SubUnderflow(u8),
}

/// Errors that can be returned from calling `Pair`'s methods.
#[derive(Debug, PartialEq, Eq)]
pub enum PairError {
    PSP22Error(PSP22Error),
    LangError(LangError),
    MathError(MathError),
    KInvariantChanged,
    InsufficientLiquidityMinted,
    InsufficientLiquidityBurned,
    InsufficientOutputAmount,
    InsufficientLiquidity,
    InsufficientInputAmount,
    InvalidTo,
    ReservesOverflow,
}

/// Errors that can be returned from calling `Factory`'s methods.
#[derive(Debug, PartialEq, Eq)]
pub enum FactoryError {
    PairError(PairError),
    CallerIsNotFeeSetter,
    IdenticalAddresses,
    PairExists,
    PairInstantiationFailed,
}

/// A swap failure reported by the router collaborator.
#[derive(Debug, PartialEq, Eq)]
pub enum RouterError {
    PSP22Error(PSP22Error),
    FactoryError(FactoryError),
    PairError(PairError),
    LangError(LangError),
    MathError(MathError),
    CrossContractCallFailed(String),
    Expired,
    IdenticalAddresses,
    InvalidPath,
    PairNotFound,
    TransferError,
    ExcessiveInputAmount,
    InsufficientAmount,
    InsufficientOutputAmount,
    InsufficientAmountA,
    InsufficientAmountB,
    InsufficientLiquidity,
}

#[derive(Debug, PartialEq, Eq)]
pub enum AzTradingCompetitionError {
    ContractCall(LangError),
    InkEnvError(String),
    NotFound(String),
    PSP22Error(PSP22Error),
    RouterError(RouterError),
    Unauthorised,
    UnprocessableEntity(String),
}

} // verus!
