use vstd::prelude::*;
use crate::account::AccountId;
use crate::types::{Balance, Timestamp};

verus! {

/// The event records the host emits after each state change; the library
/// only defines their shapes.
#[derive(Debug, PartialEq, Eq)]
pub struct CollectAdminFee {
    pub id: u64,
}

#[derive(Debug, PartialEq, Eq)]
pub struct CollectPrize {
    pub id: u64,
    pub competitor: AccountId,
    pub token: AccountId,
    pub amount: Balance,
}

#[derive(Debug, PartialEq, Eq)]
pub struct CompetitionsCreate {
    pub id: u64,
    pub start: Timestamp,
    pub end: Timestamp,
    pub entry_fee_token: AccountId,
    pub entry_fee_amount: Balance,
    pub admin_fee_percentage_numerator: u16,
    pub azero_processing_fee: Balance,
    pub creator: AccountId,
}

#[derive(Debug, PartialEq, Eq)]
pub struct CompetitorFinalValueUpdate {
    pub id: u64,
    pub competitor: AccountId,
    pub value: String,
}

#[derive(Debug, PartialEq, Eq)]
pub struct Deregister {
    pub id: u64,
    pub competitor: AccountId,
}

#[derive(Debug, PartialEq, Eq)]
pub struct JudgeUpdate {
    pub id: u64,
    pub judge: AccountId,
}

#[derive(Debug, PartialEq, Eq)]
pub struct NextJudgeUpdate {
    pub id: u64,
    pub user: AccountId,
}

#[derive(Debug, PartialEq, Eq)]
pub struct PayoutStructureUpdate {
    pub id: u64,
    pub payout_structure_numerators: Vec<(u16, u16)>,
}

#[derive(Debug, PartialEq, Eq)]
pub struct PlaceCompetitor {
    pub id: u64,
    pub competitors_addresses: Vec<AccountId>,
}

#[derive(Debug, PartialEq, Eq)]
pub struct Register {
    pub id: u64,
    pub competitor: AccountId,
}

#[derive(Debug, PartialEq, Eq)]
pub struct Swap {
    pub id: u64,
    pub competitor: AccountId,
    pub in_token: AccountId,
    pub in_amount: Balance,
    pub out_token: AccountId,
    pub out_amount: Balance,
}

} // verus!
