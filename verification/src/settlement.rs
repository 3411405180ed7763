use vstd::prelude::*;
use crate::account::AccountId;
use crate::errors::AzTradingCompetitionError;
use crate::store::{AzTradingCompetition, is_not_found, is_unprocessable};
use crate::traits::Collaborators;
use crate::types::{Balance, Timestamp, Competition, CompetitionTokenCompetitor,
    CompetitionTokenPrize};
use crate::wide::{mul_frac, u256_mul, u256_div, wide_val, two_pow_128};
use crate::{DEFAULT_ADMIN_FEE_PERCENTAGE_NUMERATOR, PERCENTAGE_CALCULATION_DENOMINATOR};

verus! {

/// The prize owed to one member of a placement group out of what the pool
/// still holds: the group's share of the remainder, split across the tie,
/// clamped to the remainder itself.
pub open spec fn prize_share(numerator: u16, available: Balance, tie_count: u32) -> int {
    let q = numerator * available / (PERCENTAGE_CALCULATION_DENOMINATOR as int) / (
    tie_count as int);
    if q > available {
        available as int
    } else {
        q
    }
}

impl AzTradingCompetition {
    /// Sends the admin the fee reserved out of every entry: one admin-fee
    /// share per registered competitor. Collectable once, by the admin,
    /// after the start, and only when the field met its minimum.
    pub fn collect_competition_admin_fee<C: Collaborators>(
        &mut self,
        collaborators: &mut C,
        id: u64,
        caller: AccountId,
        now: Timestamp,
    ) -> (r: Result<Balance, AzTradingCompetitionError>)
        requires
            old(self).wf(),
        ensures
            final(self).wf(),
            ({
                let comp = old(self).competitions.m()[id];
                let share = comp.entry_fee_amount * comp.admin_fee_percentage_numerator / (
                PERCENTAGE_CALCULATION_DENOMINATOR as int);
                let fee = comp.competitors_count * share;
                match r {
                    Ok(a) => {
                        &&& caller == old(self).admin
                        &&& old(self).competitions.m().contains_key(id)
                        &&& now >= comp.start
                        &&& comp.competitors_count >= comp.payout_places
                        &&& !comp.admin_fee_collected
                        &&& fee <= u128::MAX
                        &&& a == fee
                        &&& final(self).competitions.m() == old(self).competitions.m().insert(
                            id,
                            (Competition { admin_fee_collected: true, ..comp }),
                        )
                        &&& *final(self) == (AzTradingCompetition {
                            competitions: final(self).competitions,
                            ..*old(self)
                        })
                    },
                    Err(e) => {
                        &&& *final(self) == *old(self)
                        &&& if caller != old(self).admin {
                            e == AzTradingCompetitionError::Unauthorised
                        } else if !old(self).competitions.m().contains_key(id) {
                            is_not_found(e, "Competition"@)
                        } else if now < comp.start {
                            is_unprocessable(e, "Competition hasn't started"@)
                        } else if comp.competitors_count < comp.payout_places {
                            is_unprocessable(
                                e,
                                "Competition hasn't met minimum competitor requirements."@,
                            )
                        } else if comp.admin_fee_collected {
                            is_unprocessable(e, "Admin fee has already been colleted."@)
                        } else if fee > u128::MAX {
                            is_unprocessable(e, "Admin fee exceeds the maximum token amount."@)
                        } else {
                            e matches AzTradingCompetitionError::PSP22Error(_)
                        }
                    },
                }
            }),
    {
        if let Err(e) = Self::authorise(self.admin, caller) {
            return Err(e);
        }
        let (start, entry_fee_token, entry_fee_amount, numerator, count, places, collected) =
            match self.competitions.get(&id) {
            Some(c) => (
                c.start,
                c.entry_fee_token,
                c.entry_fee_amount,
                c.admin_fee_percentage_numerator,
                c.competitors_count,
                c.payout_places,
                c.admin_fee_collected,
            ),
            None => {
                return Err(AzTradingCompetitionError::NotFound("Competition".to_owned()));
            },
        };
        if let Err(e) = Self::validate_competition_has_started(start, now) {
            return Err(e);
        }
        if count < places as u32 {
            return Err(
                AzTradingCompetitionError::UnprocessableEntity(
                    "Competition hasn't met minimum competitor requirements.".to_owned(),
                ),
            );
        }
        if collected {
            return Err(
                AzTradingCompetitionError::UnprocessableEntity(
                    "Admin fee has already been colleted.".to_owned(),
                ),
            );
        }
        let share: Balance = mul_frac(
            entry_fee_amount,
            numerator as u128,
            PERCENTAGE_CALCULATION_DENOMINATOR as u128,
        );
        let wide = u256_mul(count as u128, share);
        if wide.0 != 0 {
            proof {
                assert(wide.0 * two_pow_128() >= two_pow_128()) by (nonlinear_arith)
                    requires
                        wide.0 >= 1,
                ;
            }
            return Err(
                AzTradingCompetitionError::UnprocessableEntity(
                    "Admin fee exceeds the maximum token amount.".to_owned(),
                ),
            );
        }
        let admin_fee: Balance = wide.1;
        if let Err(e) = collaborators.psp22_transfer(entry_fee_token, caller, admin_fee) {
            return Err(AzTradingCompetitionError::PSP22Error(e));
        }
        let mut competition = match self.competitions.take(&id) {
            Some(c) => c,
            None => {
                proof {
                    assert(false);
                }
                return Err(AzTradingCompetitionError::NotFound("Competition".to_owned()));
            },
        };
        competition.admin_fee_collected = true;
        let ghost stored = competition;
        self.competitions.insert(id, competition);
        proof {
            assert(self.competitions.m() =~= old(self).competitions.m().insert(id, stored));
        }
        Ok(admin_fee)
    }

    /// Sends the caller its share of one token's prize pool: the caller's
    /// placement-group numerator applied to what the pool still holds,
    /// split across the tie and clamped so the pool can never pay out more
    /// than it holds.
    pub fn collect_prize<C: Collaborators>(
        &mut self,
        collaborators: &mut C,
        id: u64,
        token: AccountId,
        caller: AccountId,
    ) -> (r: Result<Balance, AzTradingCompetitionError>)
        requires
            old(self).wf(),
        ensures
            final(self).wf(),
            ({
                let comp = old(self).competitions.m()[id];
                let ctc = old(self).competition_token_competitors.m()[(id, token, caller)];
                let prize = old(self).competition_token_prizes.m()[(id, token)];
                let competitor = old(self).competitors.m()[(id, caller)];
                let idx = competitor.competition_place_details_index;
                let details = old(self).competition_place_details.m()[id]@;
                let available = (prize.amount - prize.collected) as Balance;
                match r {
                    Ok(a) => {
                        &&& old(self).competitions.m().contains_key(id)
                        &&& comp.competitors_count == comp.competitors_placed_count
                        &&& old(self).competition_token_competitors.m().contains_key(
                            (id, token, caller),
                        )
                        &&& !ctc.collected
                        &&& old(self).competition_token_prizes.m().contains_key((id, token))
                        &&& old(self).competitors.m().contains_key((id, caller))
                        &&& old(self).competition_place_details.m().contains_key(id)
                        &&& idx < details.len()
                        &&& a == prize_share(
                            details[idx as int].payout_numerator,
                            available,
                            details[idx as int].competitors_count,
                        )
                        &&& a > 0
                        &&& final(self).competition_token_competitors.m() == old(
                            self,
                        ).competition_token_competitors.m().insert(
                            (id, token, caller),
                            (CompetitionTokenCompetitor { collected: true, ..ctc }),
                        )
                        &&& final(self).competition_token_prizes.m() == old(
                            self,
                        ).competition_token_prizes.m().insert(
                            (id, token),
                            (CompetitionTokenPrize {
                                collected: (prize.collected + a) as Balance,
                                ..prize
                            }),
                        )
                        &&& *final(self) == (AzTradingCompetition {
                            competition_token_competitors:
                                final(self).competition_token_competitors,
                            competition_token_prizes: final(self).competition_token_prizes,
                            ..*old(self)
                        })
                    },
                    Err(e) => {
                        &&& *final(self) == *old(self)
                        &&& if !old(self).competitions.m().contains_key(id) {
                            is_not_found(e, "Competition"@)
                        } else if comp.competitors_count != comp.competitors_placed_count {
                            is_unprocessable(e, "All competitors haven't been placed yet."@)
                        } else if !old(self).competition_token_competitors.m().contains_key(
                            (id, token, caller),
                        ) {
                            is_not_found(e, "CompetitionTokenCompetitor"@)
                        } else if ctc.collected {
                            is_unprocessable(e, "Prize has already been collected."@)
                        } else if !old(self).competition_token_prizes.m().contains_key(
                            (id, token),
                        ) {
                            is_not_found(e, "CompetitionTokenPrize"@)
                        } else if !old(self).competitors.m().contains_key((id, caller)) {
                            is_not_found(e, "Competitor"@)
                        } else if !old(self).competition_place_details.m().contains_key(id) || idx
                            >= details.len() {
                            is_not_found(e, "CompetitionPlaceDetail"@)
                        } else if prize_share(
                            details[idx as int].payout_numerator,
                            available,
                            details[idx as int].competitors_count,
                        ) == 0 {
                            is_unprocessable(e, "No prize to collect."@)
                        } else {
                            e matches AzTradingCompetitionError::PSP22Error(_)
                        }
                    },
                }
            }),
    {
        let (count, placed) = match self.competitions.get(&id) {
            Some(c) => (c.competitors_count, c.competitors_placed_count),
            None => {
                return Err(AzTradingCompetitionError::NotFound("Competition".to_owned()));
            },
        };
        if count != placed {
            return Err(
                AzTradingCompetitionError::UnprocessableEntity(
                    "All competitors haven't been placed yet.".to_owned(),
                ),
            );
        }
        let ctc: CompetitionTokenCompetitor = match self.competition_token_competitors.get(
            &(id, token, caller),
        ) {
            Some(v) => *v,
            None => {
                return Err(
                    AzTradingCompetitionError::NotFound("CompetitionTokenCompetitor".to_owned()),
                );
            },
        };
        if ctc.collected {
            return Err(
                AzTradingCompetitionError::UnprocessableEntity(
                    "Prize has already been collected.".to_owned(),
                ),
            );
        }
        let prize: CompetitionTokenPrize = match self.competition_token_prizes.get(&(id, token)) {
            Some(v) => *v,
            None => {
                return Err(
                    AzTradingCompetitionError::NotFound("CompetitionTokenPrize".to_owned()),
                );
            },
        };
        let index: u32 = match self.competitors.get(&(id, caller)) {
            Some(c) => c.competition_place_details_index,
            None => {
                return Err(AzTradingCompetitionError::NotFound("Competitor".to_owned()));
            },
        };
        let (numerator, tie_count) = match self.competition_place_details.get(&id) {
            Some(v) => {
                if (index as usize) < v.len() {
                    (v[index as usize].payout_numerator, v[index as usize].competitors_count)
                } else {
                    return Err(
                        AzTradingCompetitionError::NotFound("CompetitionPlaceDetail".to_owned()),
                    );
                }
            },
            None => {
                return Err(
                    AzTradingCompetitionError::NotFound("CompetitionPlaceDetail".to_owned()),
                );
            },
        };
        let prize_available: Balance = prize.amount - prize.collected;
        let p1 = u256_mul(numerator as u128, prize_available);
        let p2 = u256_div(p1.0, p1.1, PERCENTAGE_CALCULATION_DENOMINATOR as u128);
        proof {
            assert(tie_count >= 1);
        }
        let p3 = u256_div(p2.0, p2.1, tie_count as u128);
        let amount_to_send: Balance = if p3.0 != 0 {
            proof {
                assert(wide_val(p3.0, p3.1) > u128::MAX) by (nonlinear_arith)
                    requires
                        p3.0 >= 1,
                        wide_val(p3.0, p3.1) == p3.0 * two_pow_128() + p3.1,
                ;
            }
            prize_available
        } else {
            if p3.1 > prize_available {
                prize_available
            } else {
                p3.1
            }
        };
        if amount_to_send == 0 {
            return Err(
                AzTradingCompetitionError::UnprocessableEntity("No prize to collect.".to_owned()),
            );
        }
        if let Err(e) = collaborators.psp22_transfer(token, caller, amount_to_send) {
            return Err(AzTradingCompetitionError::PSP22Error(e));
        }
        self.competition_token_competitors.insert(
            (id, token, caller),
            CompetitionTokenCompetitor { amount: ctc.amount, collected: true },
        );
        self.competition_token_prizes.insert(
            (id, token),
            CompetitionTokenPrize { amount: prize.amount, collected: prize.collected + amount_to_send },
        );
        Ok(amount_to_send)
    }
}

} // verus!
