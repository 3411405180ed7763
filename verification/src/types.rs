use vstd::prelude::*;
use crate::account::AccountId;
use crate::wide::{is_dec_digits, dec_value, two_pow_256};

verus! {

pub type Balance = u128;

pub type Timestamp = u64;

#[derive(Clone, Copy, PartialEq, Eq, Structural, Debug)]
pub struct CompetitionJudge {
    pub deadline: Timestamp,
}

#[derive(Clone, Copy, PartialEq, Eq, Structural, Debug)]
pub struct CompetitionTokenCompetitor {
    pub amount: Balance,
    pub collected: bool,
}

#[derive(Clone, Copy, PartialEq, Eq, Structural, Debug)]
pub struct CompetitionTokenPrize {
    pub amount: Balance,
    pub collected: Balance,
}

#[derive(Debug, PartialEq, Eq)]
pub struct Competitor {
    pub final_value: Option<String>,
    pub judge_place_attempt: u128,
    pub competition_place_details_index: u32,
}

impl Clone for Competitor {
    fn clone(&self) -> (r: Self)
        ensures
            r == *self,
    {
        Competitor {
            final_value: match &self.final_value {
                Some(s) => Some(s.clone()),
                None => None,
            },
            judge_place_attempt: self.judge_place_attempt,
            competition_place_details_index: self.competition_place_details_index,
        }
    }
}

/// A stored final value is a string of decimal digits denoting a value
/// below 2^256.
pub open spec fn final_value_ok(v: Option<String>) -> bool {
    match v {
        Some(s) => is_dec_digits(s@) && dec_value(s@) < two_pow_256(),
        None => true,
    }
}

#[derive(Debug, PartialEq, Eq)]
pub struct CompetitionPlaceDetail {
    pub competitor_value: String,
    pub competitors_count: u32,
    pub payout_numerator: u16,
}

impl Clone for CompetitionPlaceDetail {
    fn clone(&self) -> (r: Self)
        ensures
            r == *self,
    {
        CompetitionPlaceDetail {
            competitor_value: self.competitor_value.clone(),
            competitors_count: self.competitors_count,
            payout_numerator: self.payout_numerator,
        }
    }
}

/// A well-formed placement group: at least one member, and a parsable value.
pub open spec fn place_detail_ok(d: CompetitionPlaceDetail) -> bool {
    &&& d.competitors_count >= 1
    &&& is_dec_digits(d.competitor_value@)
    &&& dec_value(d.competitor_value@) < two_pow_256()
}

#[derive(Debug, PartialEq, Eq)]
pub struct Competition {
    pub id: u64,
    pub start: Timestamp,
    pub end: Timestamp,
    pub entry_fee_token: AccountId,
    pub entry_fee_amount: Balance,
    pub admin_fee_collected: bool,
    pub admin_fee_percentage_numerator: u16,
    pub azero_processing_fee: Balance,
    pub judge: AccountId,
    pub judge_place_attempt: u128,
    pub next_judge: Option<AccountId>,
    pub payout_places: u16,
    pub payout_structure_numerator_sum: u16,
    pub token_prices_vec: Vec<(Timestamp, Balance)>,
    pub competitors_count: u32,
    pub competitor_final_value_updated_count: u32,
    pub competitors_placed_count: u32,
    pub creator: AccountId,
}

/// Equality of competitions up to the identity of the price vector: all
/// scalar fields agree and the price vectors hold the same entries.
pub open spec fn competition_eqv(a: Competition, b: Competition) -> bool {
    &&& a == (Competition { token_prices_vec: a.token_prices_vec, ..b })
    &&& a.token_prices_vec@ == b.token_prices_vec@
}

pub(crate) fn clone_prices(v: &Vec<(Timestamp, Balance)>) -> (r: Vec<(Timestamp, Balance)>)
    ensures
        r@ == v@,
{
    let mut r: Vec<(Timestamp, Balance)> = Vec::new();
    let n = v.len();
    let mut i: usize = 0;
    while i < n
        invariant
            n == v@.len(),
            0 <= i <= n,
            r@ == v@.take(i as int),
        decreases n - i,
    {
        r.push(v[i]);
        proof {
            assert(r@ =~= v@.take(i + 1));
        }
        i = i + 1;
    }
    proof {
        assert(v@.take(n as int) =~= v@);
    }
    r
}

impl Clone for Competition {
    fn clone(&self) -> (r: Self)
        ensures
            competition_eqv(r, *self),
    {
        Competition {
            id: self.id,
            start: self.start,
            end: self.end,
            entry_fee_token: self.entry_fee_token,
            entry_fee_amount: self.entry_fee_amount,
            admin_fee_collected: self.admin_fee_collected,
            admin_fee_percentage_numerator: self.admin_fee_percentage_numerator,
            azero_processing_fee: self.azero_processing_fee,
            judge: self.judge,
            judge_place_attempt: self.judge_place_attempt,
            next_judge: self.next_judge,
            payout_places: self.payout_places,
            payout_structure_numerator_sum: self.payout_structure_numerator_sum,
            token_prices_vec: clone_prices(&self.token_prices_vec),
            competitors_count: self.competitors_count,
            competitor_final_value_updated_count: self.competitor_final_value_updated_count,
            competitors_placed_count: self.competitors_placed_count,
            creator: self.creator,
        }
    }
}

#[derive(Debug)]
pub struct Config {
    pub admin: AccountId,
    pub allowed_pair_token_combinations_vec: Vec<(AccountId, AccountId)>,
    pub competitions_count: u64,
    pub default_admin_fee_percentage_numerator: u16,
    pub default_azero_processing_fee: Balance,
    pub dia: AccountId,
    pub minimum_duration: Timestamp,
    pub percentage_calculation_denominator: u16,
    pub router: AccountId,
    pub token_dia_price_symbols_vec: Vec<(AccountId, String)>,
}

} // verus!
