use vstd::prelude::*;
use crate::account::AccountId;
use crate::errors::AzTradingCompetitionError;
use crate::store::{AzTradingCompetition, is_not_found, is_unprocessable};
use crate::traits::Collaborators;
use crate::types::{Balance, Timestamp, Competition, CompetitionTokenCompetitor, Competitor};
use crate::wide::mul_frac;
use crate::{DEFAULT_ADMIN_FEE_PERCENTAGE_NUMERATOR, PERCENTAGE_CALCULATION_DENOMINATOR};

verus! {

/// The balance a freshly registered competitor holds in one token: the
/// entry fee net of the admin-fee reservation for the entry-fee token,
/// zero for every other tradable token.
pub open spec fn seeded_balance(
    token: AccountId,
    entry_fee_token: AccountId,
    net: Balance,
) -> CompetitionTokenCompetitor {
    CompetitionTokenCompetitor {
        amount: if token == entry_fee_token {
            net
        } else {
            0
        },
        collected: false,
    }
}

/// The per-token balance map after seeding one balance per configured
/// token for `caller`.
pub open spec fn seed_balances(
    m: Map<(u64, AccountId, AccountId), CompetitionTokenCompetitor>,
    id: u64,
    tokens: Seq<(AccountId, String)>,
    caller: AccountId,
    entry_fee_token: AccountId,
    net: Balance,
) -> Map<(u64, AccountId, AccountId), CompetitionTokenCompetitor>
    decreases tokens.len(),
{
    if tokens.len() == 0 {
        m
    } else {
        seed_balances(m, id, tokens.drop_last(), caller, entry_fee_token, net).insert(
            (id, tokens.last().0, caller),
            seeded_balance(tokens.last().0, entry_fee_token, net),
        )
    }
}

/// The per-token balance map after removing every balance of `caller`.
pub open spec fn remove_balances(
    m: Map<(u64, AccountId, AccountId), CompetitionTokenCompetitor>,
    id: u64,
    tokens: Seq<(AccountId, String)>,
    caller: AccountId,
) -> Map<(u64, AccountId, AccountId), CompetitionTokenCompetitor>
    decreases tokens.len(),
{
    if tokens.len() == 0 {
        m
    } else {
        remove_balances(m, id, tokens.drop_last(), caller).remove((id, tokens.last().0, caller))
    }
}

/// What one registration call does to the ledger.
pub open spec fn register_outcome(
    pre: AzTradingCompetition,
    post: AzTradingCompetition,
    r: Result<(), AzTradingCompetitionError>,
    id: u64,
    caller: AccountId,
    now: Timestamp,
    transferred_value: Balance,
) -> bool {
                let comp = pre.competitions.m()[id];
                let fee = comp.entry_fee_amount * comp.admin_fee_percentage_numerator / (
                DEFAULT_ADMIN_FEE_PERCENTAGE_NUMERATOR as int);
                match r {
                    Ok(_) => {
                        &&& pre.competitions.m().contains_key(id)
                        &&& comp.payout_structure_numerator_sum
                            == PERCENTAGE_CALCULATION_DENOMINATOR
                        &&& now < comp.start
                        &&& !pre.competition_token_competitors.m().contains_key(
                            (id, comp.entry_fee_token, caller),
                        )
                        &&& transferred_value == comp.azero_processing_fee
                        &&& comp.competitors_count < u32::MAX
                        &&& post.competition_token_competitors.m() == seed_balances(
                            pre.competition_token_competitors.m(),
                            id,
                            pre.token_dia_price_symbols_vec@,
                            caller,
                            comp.entry_fee_token,
                            (comp.entry_fee_amount - fee) as Balance,
                        )
                        &&& post.competitors.m() == pre.competitors.m().insert(
                            (id, caller),
                            (Competitor {
                                final_value: None,
                                judge_place_attempt: 0,
                                competition_place_details_index: 0,
                            }),
                        )
                        &&& post.competitions.m() == pre.competitions.m().insert(
                            id,
                            (Competition {
                                competitors_count: (comp.competitors_count + 1) as u32,
                                ..comp
                            }),
                        )
                        &&& post == (AzTradingCompetition {
                            competition_token_competitors:
                                post.competition_token_competitors,
                            competitors: post.competitors,
                            competitions: post.competitions,
                            ..pre
                        })
                    },
                    Err(e) => {
                        &&& post == pre
                        &&& if !pre.competitions.m().contains_key(id) {
                            is_not_found(e, "Competition"@)
                        } else if comp.payout_structure_numerator_sum
                            != PERCENTAGE_CALCULATION_DENOMINATOR {
                            is_unprocessable(e, "Payout structure is not set yet."@)
                        } else if now >= comp.start {
                            is_unprocessable(e, "Competition has started"@)
                        } else if pre.competition_token_competitors.m().contains_key(
                            (id, comp.entry_fee_token, caller),
                        ) {
                            is_unprocessable(e, "Already registered"@)
                        } else if transferred_value != comp.azero_processing_fee {
                            is_unprocessable(e, "Please include AZERO processing fee."@)
                        } else if comp.competitors_count == u32::MAX {
                            is_unprocessable(e, "Maximum number of competitors reached."@)
                        } else {
                            e matches AzTradingCompetitionError::PSP22Error(_)
                        }
                    },
                }
            }

impl AzTradingCompetition {
    /// The admin-fee share reserved out of one entry fee.
    pub(crate) fn admin_fee(competition: &Competition) -> (r: Balance)
        requires
            competition.admin_fee_percentage_numerator <= DEFAULT_ADMIN_FEE_PERCENTAGE_NUMERATOR,
        ensures
            r == competition.entry_fee_amount * competition.admin_fee_percentage_numerator / (
            DEFAULT_ADMIN_FEE_PERCENTAGE_NUMERATOR as int),
            r <= competition.entry_fee_amount,
    {
        mul_frac(
            competition.entry_fee_amount,
            competition.admin_fee_percentage_numerator as u128,
            DEFAULT_ADMIN_FEE_PERCENTAGE_NUMERATOR as u128,
        )
    }

    /// Pulls `amount` of `token` from `from` through the custody
    /// collaborator; its refusal is passed on untouched.
    pub(crate) fn acquire_psp22<C: Collaborators>(
        collaborators: &mut C,
        token: AccountId,
        from: AccountId,
        amount: Balance,
    ) -> (r: Result<(), AzTradingCompetitionError>)
        ensures
            r matches Err(e) ==> e matches AzTradingCompetitionError::PSP22Error(_),
    {
        match collaborators.psp22_transfer_from(token, from, amount) {
            Ok(()) => Ok(()),
            Err(e) => Err(AzTradingCompetitionError::PSP22Error(e)),
        }
    }

    /// Registers the caller: checks the payout structure is complete, the
    /// competition has not started, the caller is new and paid the exact
    /// processing fee; pulls the entry fee and seeds one balance per
    /// tradable token, net of the admin-fee reservation.
    pub fn register<C: Collaborators>(
        &mut self,
        collaborators: &mut C,
        id: u64,
        caller: AccountId,
        now: Timestamp,
        transferred_value: Balance,
    ) -> (r: Result<(), AzTradingCompetitionError>)
        requires
            old(self).wf(),
        ensures
            final(self).wf(),
            register_outcome(*old(self), *final(self), r, id, caller, now, transferred_value),
    {
        let ghost tokens = self.token_dia_price_symbols_vec@;
        let (sum, start, entry_fee_token, entry_fee_amount, processing_fee, count) =
            match self.competitions.get(&id) {
            Some(c) => (
                c.payout_structure_numerator_sum,
                c.start,
                c.entry_fee_token,
                c.entry_fee_amount,
                c.azero_processing_fee,
                c.competitors_count,
            ),
            None => {
                return Err(AzTradingCompetitionError::NotFound("Competition".to_owned()));
            },
        };
        if sum != PERCENTAGE_CALCULATION_DENOMINATOR {
            return Err(
                AzTradingCompetitionError::UnprocessableEntity(
                    "Payout structure is not set yet.".to_owned(),
                ),
            );
        }
        if let Err(e) = Self::validate_competition_has_not_started(start, now) {
            return Err(e);
        }
        if self.competition_token_competitors.contains_key(&(id, entry_fee_token, caller)) {
            return Err(
                AzTradingCompetitionError::UnprocessableEntity("Already registered".to_owned()),
            );
        }
        if transferred_value != processing_fee {
            return Err(
                AzTradingCompetitionError::UnprocessableEntity(
                    "Please include AZERO processing fee.".to_owned(),
                ),
            );
        }
        if count == u32::MAX {
            return Err(
                AzTradingCompetitionError::UnprocessableEntity(
                    "Maximum number of competitors reached.".to_owned(),
                ),
            );
        }
        if let Err(e) = Self::acquire_psp22(collaborators, entry_fee_token, caller, entry_fee_amount
        ) {
            return Err(e);
        }
        let mut competition = match self.competitions.take(&id) {
            Some(c) => c,
            None => {
                proof {
                    assert(false);
                }
                return Err(AzTradingCompetitionError::NotFound("Competition".to_owned()));
            },
        };
        let fee = Self::admin_fee(&competition);
        let net = competition.entry_fee_amount - fee;
        let n = self.token_dia_price_symbols_vec.len();
        let mut i: usize = 0;
        while i < n
            invariant
                tokens == old(self).token_dia_price_symbols_vec@,
                n == tokens.len(),
                0 <= i <= n,
                self.wf(),
                self.token_dia_price_symbols_vec@ == tokens,
                self.competitions.m() == old(self).competitions.m().remove(id),
                self.competition_token_competitors.m() == seed_balances(
                    old(self).competition_token_competitors.m(),
                    id,
                    tokens.take(i as int),
                    caller,
                    entry_fee_token,
                    net,
                ),
                *self == (AzTradingCompetition {
                    competition_token_competitors: self.competition_token_competitors,
                    competitions: self.competitions,
                    ..*old(self)
                }),
            decreases n - i,
        {
            let token = self.token_dia_price_symbols_vec[i].0;
            let token_balance: Balance = if entry_fee_token.hi == token.hi && entry_fee_token.lo
                == token.lo {
                net
            } else {
                0
            };
            self.competition_token_competitors.insert(
                (id, token, caller),
                CompetitionTokenCompetitor { amount: token_balance, collected: false },
            );
            proof {
                assert(tokens.take(i + 1).drop_last() =~= tokens.take(i as int));
                assert(tokens.take(i + 1).last() == tokens[i as int]);
            }
            i = i + 1;
        }
        proof {
            assert(tokens.take(n as int) =~= tokens);
        }
        competition.competitors_count = competition.competitors_count + 1;
        let ghost stored = competition;
        self.competitions.insert(id, competition);
        self.competitors.insert(
            (id, caller),
            Competitor { final_value: None, judge_place_attempt: 0, competition_place_details_index: 0 },
        );
        proof {
            assert(self.competitions.m() =~= old(self).competitions.m().insert(id, stored));
        }
        Ok(())
    }
}

/// What one deregistration call does to the ledger.
pub open spec fn deregister_outcome(
    pre: AzTradingCompetition,
    post: AzTradingCompetition,
    r: Result<(), AzTradingCompetitionError>,
    id: u64,
    caller: AccountId,
    now: Timestamp,
) -> bool {
                let comp = pre.competitions.m()[id];
                match r {
                    Ok(_) => {
                        &&& pre.competitions.m().contains_key(id)
                        &&& pre.competition_token_competitors.m().contains_key(
                            (id, comp.entry_fee_token, caller),
                        )
                        &&& !(now >= comp.start && comp.competitors_count >= comp.payout_places)
                        &&& post.competition_token_competitors.m() == remove_balances(
                            pre.competition_token_competitors.m(),
                            id,
                            pre.token_dia_price_symbols_vec@,
                            caller,
                        )
                        &&& post.competitions.m() == pre.competitions.m().insert(
                            id,
                            (Competition {
                                competitors_count: (if comp.competitors_count > 0 {
                                    comp.competitors_count - 1
                                } else {
                                    0
                                }) as u32,
                                ..comp
                            }),
                        )
                        &&& post == (AzTradingCompetition {
                            competition_token_competitors:
                                post.competition_token_competitors,
                            competitions: post.competitions,
                            ..pre
                        })
                    },
                    Err(e) => {
                        &&& post == pre
                        &&& if !pre.competitions.m().contains_key(id) {
                            is_not_found(e, "Competition"@)
                        } else if !pre.competition_token_competitors.m().contains_key(
                            (id, comp.entry_fee_token, caller),
                        ) {
                            is_not_found(e, "CompetitionTokenCompetitor"@)
                        } else if now >= comp.start && comp.competitors_count
                            >= comp.payout_places {
                            is_unprocessable(
                                e,
                                "Unable to deregister when competition has started and minimum competitor requirements met."@,
                            )
                        } else {
                            e matches AzTradingCompetitionError::PSP22Error(_) || e
                                matches AzTradingCompetitionError::InkEnvError(_)
                        }
                    },
                }
            }

impl AzTradingCompetition {
    /// Returns the caller's entry fee and processing fee and removes every
    /// balance record, allowed before the competition starts or while it
    /// never reached its minimum field.
    pub fn deregister<C: Collaborators>(
        &mut self,
        collaborators: &mut C,
        id: u64,
        caller: AccountId,
        now: Timestamp,
    ) -> (r: Result<(), AzTradingCompetitionError>)
        requires
            old(self).wf(),
        ensures
            final(self).wf(),
            deregister_outcome(*old(self), *final(self), r, id, caller, now),
    {
        let ghost tokens = self.token_dia_price_symbols_vec@;
        let (start, entry_fee_token, entry_fee_amount, processing_fee, count, places) =
            match self.competitions.get(&id) {
            Some(c) => (
                c.start,
                c.entry_fee_token,
                c.entry_fee_amount,
                c.azero_processing_fee,
                c.competitors_count,
                c.payout_places,
            ),
            None => {
                return Err(AzTradingCompetitionError::NotFound("Competition".to_owned()));
            },
        };
        if !self.competition_token_competitors.contains_key(&(id, entry_fee_token, caller)) {
            return Err(
                AzTradingCompetitionError::NotFound("CompetitionTokenCompetitor".to_owned()),
            );
        }
        if now >= start && count >= places as u32 {
            return Err(
                AzTradingCompetitionError::UnprocessableEntity(
                    "Unable to deregister when competition has started and minimum competitor requirements met.".to_owned(),
                ),
            );
        }
        if let Err(e) = collaborators.psp22_transfer(entry_fee_token, caller, entry_fee_amount) {
            return Err(AzTradingCompetitionError::PSP22Error(e));
        }
        if let Err(_msg) = collaborators.native_transfer(caller, processing_fee) {
            return Err(AzTradingCompetitionError::InkEnvError("requested transfer failed".to_owned()));
        }
        let n = self.token_dia_price_symbols_vec.len();
        let mut i: usize = 0;
        while i < n
            invariant
                tokens == old(self).token_dia_price_symbols_vec@,
                n == tokens.len(),
                0 <= i <= n,
                self.wf(),
                self.token_dia_price_symbols_vec@ == tokens,
                self.competition_token_competitors.m() == remove_balances(
                    old(self).competition_token_competitors.m(),
                    id,
                    tokens.take(i as int),
                    caller,
                ),
                *self == (AzTradingCompetition {
                    competition_token_competitors: self.competition_token_competitors,
                    ..*old(self)
                }),
            decreases n - i,
        {
            let token = self.token_dia_price_symbols_vec[i].0;
            self.competition_token_competitors.remove(&(id, token, caller));
            proof {
                assert(tokens.take(i + 1).drop_last() =~= tokens.take(i as int));
                assert(tokens.take(i + 1).last() == tokens[i as int]);
            }
            i = i + 1;
        }
        proof {
            assert(tokens.take(n as int) =~= tokens);
        }
        let mut competition = match self.competitions.take(&id) {
            Some(c) => c,
            None => {
                proof {
                    assert(false);
                }
                return Err(AzTradingCompetitionError::NotFound("Competition".to_owned()));
            },
        };
        if competition.competitors_count > 0 {
            competition.competitors_count = competition.competitors_count - 1;
        }
        let ghost stored = competition;
        self.competitions.insert(id, competition);
        proof {
            assert(self.competitions.m() =~= old(self).competitions.m().insert(id, stored));
        }
        Ok(())
    }
}

} // verus!
