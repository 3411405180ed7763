use vstd::prelude::*;
use crate::account::AccountId;
use crate::errors::{PSP22Error, RouterError};
use crate::types::{Balance, Timestamp};

verus! {

/// The outbound collaborators of the competition: token custody, the swap
/// router, the price oracle and native-coin transfers. The library promises
/// nothing about them; every contract here states what holds of the ledger
/// whatever these calls return.
pub trait Collaborators {
    /// Sends `amount` of `token` out of the competition's reserve to `to`.
    fn psp22_transfer(&mut self, token: AccountId, to: AccountId, amount: Balance) -> Result<
        (),
        PSP22Error,
    >;

    /// Pulls `amount` of `token` from `from` into the competition's reserve.
    fn psp22_transfer_from(&mut self, token: AccountId, from: AccountId, amount: Balance)
        -> Result<(), PSP22Error>;

    /// Raises the router's allowance over the competition's `token` reserve.
    fn psp22_increase_allowance(&mut self, token: AccountId, spender: AccountId, amount: Balance)
        -> Result<(), PSP22Error>;

    /// Sends `amount` of the native coin to `to`.
    fn native_transfer(&mut self, to: AccountId, amount: Balance) -> Result<(), String>;

    /// Swaps `amount_in` along `path`; the last element of the returned
    /// sequence is the realized output amount.
    fn swap_exact_tokens_for_tokens(
        &mut self,
        amount_in: Balance,
        amount_out_min: Balance,
        path: Vec<AccountId>,
        deadline: u64,
    ) -> Result<Vec<Balance>, RouterError>;

    /// One optional `(timestamp, price)` pair per requested symbol.
    fn get_latest_prices(&mut self, price_symbols: Vec<String>) -> Vec<
        Option<(Timestamp, Balance)>,
    >;
}

} // verus!
