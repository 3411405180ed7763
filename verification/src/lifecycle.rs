use vstd::prelude::*;
use crate::account::AccountId;
use crate::errors::AzTradingCompetitionError;
use crate::store::{AzTradingCompetition, is_not_found, is_unprocessable};
use crate::types::{Balance, Timestamp, Competition, CompetitionJudge, CompetitionPlaceDetail};
use crate::{DAY_IN_MS, DEFAULT_ADMIN_FEE_PERCENTAGE_NUMERATOR, MINIMUM_DURATION,
    PERCENTAGE_CALCULATION_DENOMINATOR};

verus! {

/// `end + DAY_IN_MS`, held at the largest timestamp when it would wrap.
pub open spec fn plus_one_day(end: Timestamp) -> Timestamp {
    if end + DAY_IN_MS > u64::MAX {
        u64::MAX
    } else {
        (end + DAY_IN_MS) as u64
    }
}

/// A competition as `competitions_create` first records it.
pub open spec fn is_fresh_competition(
    c: Competition,
    id: u64,
    start: Timestamp,
    end: Timestamp,
    entry_fee_token: AccountId,
    entry_fee_amount: Balance,
    admin_fee_percentage_numerator: u16,
    azero_processing_fee: Balance,
    admin: AccountId,
    creator: AccountId,
) -> bool {
    &&& c.id == id
    &&& c.start == start
    &&& c.end == end
    &&& c.entry_fee_token == entry_fee_token
    &&& c.entry_fee_amount == entry_fee_amount
    &&& c.admin_fee_collected == false
    &&& c.admin_fee_percentage_numerator == admin_fee_percentage_numerator
    &&& c.azero_processing_fee == azero_processing_fee
    &&& c.judge == admin
    &&& c.judge_place_attempt == 1
    &&& c.next_judge is None
    &&& c.payout_places == 0
    &&& c.payout_structure_numerator_sum == 0
    &&& c.token_prices_vec@ == Seq::<(Timestamp, Balance)>::empty()
    &&& c.competitors_count == 0
    &&& c.competitor_final_value_updated_count == 0
    &&& c.competitors_placed_count == 0
    &&& c.creator == creator
}

impl AzTradingCompetition {
    /// Records a new competition with the caller as creator and the admin
    /// as its first judge, whose deadline lies one day past the end.
    pub fn competitions_create(
        &mut self,
        caller: AccountId,
        start: Timestamp,
        end: Timestamp,
        entry_fee_token: AccountId,
        entry_fee_amount: Balance,
        admin_fee_percentage_numerator: Option<u16>,
        azero_processing_fee: Option<Balance>,
    ) -> (r: Result<Competition, AzTradingCompetitionError>)
        requires
            old(self).wf(),
        ensures
            final(self).wf(),
            match r {
                Ok(c) => {
                    let id = old(self).competitions_count;
                    let num = (match admin_fee_percentage_numerator {
                        Option::Some(n) => n,
                        Option::None => DEFAULT_ADMIN_FEE_PERCENTAGE_NUMERATOR,
                    });
                    let fee = (match azero_processing_fee {
                        Option::Some(f) => f,
                        Option::None => old(self).default_azero_processing_fee,
                    });
                    &&& id < u64::MAX
                    &&& start <= end && end - start >= MINIMUM_DURATION
                    &&& entry_fee_amount > 0
                    &&& old(self).token_dia_price_symbols_mapping.m().contains_key(entry_fee_token)
                    &&& (admin_fee_percentage_numerator matches Some(n) ==> caller == old(
                        self,
                    ).admin && n < DEFAULT_ADMIN_FEE_PERCENTAGE_NUMERATOR)
                    &&& is_fresh_competition(
                        c,
                        id,
                        start,
                        end,
                        entry_fee_token,
                        entry_fee_amount,
                        num,
                        fee,
                        old(self).admin,
                        caller,
                    )
                    &&& final(self).competitions.m().contains_key(id)
                    &&& is_fresh_competition(
                        final(self).competitions.m()[id],
                        id,
                        start,
                        end,
                        entry_fee_token,
                        entry_fee_amount,
                        num,
                        fee,
                        old(self).admin,
                        caller,
                    )
                    &&& final(self).competitions.m() == old(self).competitions.m().insert(
                        id,
                        final(self).competitions.m()[id],
                    )
                    &&& final(self).competition_judges.m() == old(
                        self,
                    ).competition_judges.m().insert(
                        (id, old(self).admin),
                        (CompetitionJudge { deadline: plus_one_day(end) }),
                    )
                    &&& final(self).competition_place_details.m().contains_key(id)
                    &&& final(self).competition_place_details.m()[id]@ == Seq::<
                        CompetitionPlaceDetail,
                    >::empty()
                    &&& final(self).competition_place_details.m() == old(
                        self,
                    ).competition_place_details.m().insert(
                        id,
                        final(self).competition_place_details.m()[id],
                    )
                    &&& final(self).competitions_count == id + 1
                    &&& *final(self) == (AzTradingCompetition {
                        competitions: final(self).competitions,
                        competition_judges: final(self).competition_judges,
                        competition_place_details: final(self).competition_place_details,
                        competitions_count: final(self).competitions_count,
                        ..*old(self)
                    })
                },
                Err(e) => {
                    &&& *final(self) == *old(self)
                    &&& if old(self).competitions_count == u64::MAX {
                        is_unprocessable(e, "Max number of competitions reached."@)
                    } else if end < start || end - start < MINIMUM_DURATION {
                        is_unprocessable(
                            e,
                            "Competition must run a minimum duration of 3600000ms."@,
                        )
                    } else if entry_fee_amount == 0 {
                        is_unprocessable(e, "Entry fee amount must be positive"@)
                    } else if !old(self).token_dia_price_symbols_mapping.m().contains_key(
                        entry_fee_token,
                    ) {
                        is_unprocessable(e, "Entry fee token is not permitted."@)
                    } else {
                        match admin_fee_percentage_numerator {
                            Option::Some(n) => {
                                if caller != old(self).admin {
                                    e == AzTradingCompetitionError::Unauthorised
                                } else {
                                    n >= DEFAULT_ADMIN_FEE_PERCENTAGE_NUMERATOR
                                        && is_unprocessable(
                                        e,
                                        "Fee percentage numerator must be less than the default."@,
                                    )
                                }
                            },
                            Option::None => false,
                        }
                    }
                },
            },
    {
        if self.competitions_count == u64::MAX {
            return Err(
                AzTradingCompetitionError::UnprocessableEntity(
                    "Max number of competitions reached.".to_owned(),
                ),
            );
        }
        if end < start || end - start < MINIMUM_DURATION {
            return Err(
                AzTradingCompetitionError::UnprocessableEntity(
                    "Competition must run a minimum duration of 3600000ms.".to_owned(),
                ),
            );
        }
        if entry_fee_amount == 0 {
            return Err(
                AzTradingCompetitionError::UnprocessableEntity(
                    "Entry fee amount must be positive".to_owned(),
                ),
            );
        }
        if !self.token_dia_price_symbols_mapping.contains_key(&entry_fee_token) {
            return Err(
                AzTradingCompetitionError::UnprocessableEntity(
                    "Entry fee token is not permitted.".to_owned(),
                ),
            );
        }
        let mut competition_admin_fee_percentage_numerator: u16 =
            DEFAULT_ADMIN_FEE_PERCENTAGE_NUMERATOR;
        match admin_fee_percentage_numerator {
            Some(n) => {
                if caller.hi == self.admin.hi && caller.lo == self.admin.lo {
                    if n < DEFAULT_ADMIN_FEE_PERCENTAGE_NUMERATOR {
                        competition_admin_fee_percentage_numerator = n;
                    } else {
                        return Err(
                            AzTradingCompetitionError::UnprocessableEntity(
                                "Fee percentage numerator must be less than the default.".to_owned(
                                ),
                            ),
                        );
                    }
                } else {
                    return Err(AzTradingCompetitionError::Unauthorised);
                }
            },
            None => {},
        }
        let processing_fee: Balance = match azero_processing_fee {
            Some(f) => f,
            None => self.default_azero_processing_fee,
        };
        let id = self.competitions_count;
        let competition = Competition {
            id,
            start,
            end,
            entry_fee_token,
            entry_fee_amount,
            admin_fee_collected: false,
            admin_fee_percentage_numerator: competition_admin_fee_percentage_numerator,
            azero_processing_fee: processing_fee,
            judge: self.admin,
            judge_place_attempt: 1,
            next_judge: None,
            payout_places: 0,
            payout_structure_numerator_sum: 0,
            token_prices_vec: Vec::new(),
            competitors_count: 0,
            competitor_final_value_updated_count: 0,
            competitors_placed_count: 0,
            creator: caller,
        };
        let stored = competition.clone();
        self.competitions.insert(id, stored);
        self.competitions_count = id + 1;
        let deadline: Timestamp = if end > u64::MAX - DAY_IN_MS {
            u64::MAX
        } else {
            end + DAY_IN_MS
        };
        self.competition_judges.insert((id, self.admin), CompetitionJudge { deadline });
        let empty_details: Vec<CompetitionPlaceDetail> = Vec::new();
        self.competition_place_details.insert(id, empty_details);
        Ok(competition)
    }
}


/// The batch holds position `pos` strictly before index `upto`.
pub open spec fn batch_has_pos(batch: Seq<(u16, u16)>, upto: int, pos: int) -> bool {
    exists|j: int| 0 <= j < upto && (#[trigger] batch[j]).0 == pos
}

/// How one batch entry moves the payout-places count.
pub open spec fn bump_places(pp: u16, pos: u16) -> u16 {
    if pos >= pp {
        if pos == u16::MAX {
            u16::MAX
        } else {
            (pos + 1) as u16
        }
    } else {
        99u16
    }
}

pub open spec fn stored_numerator(m: Map<(u64, u16), u16>, id: u64, pos: u16) -> u16 {
    if m.contains_key((id, pos)) {
        m[(id, pos)]
    } else {
        0
    }
}

/// A batch entry may name position `pos` only when `pos` is zero, already
/// stored less one, or named earlier in the batch.
pub open spec fn position_admissible(
    m: Map<(u64, u16), u16>,
    id: u64,
    batch: Seq<(u16, u16)>,
    i: int,
) -> bool {
    let pos = batch[i].0;
    pos == 0 || m.contains_key((id, (pos - 1) as u16)) || batch_has_pos(batch, i, pos - 1)
}

/// The outcome of walking a payout-structure batch.
pub enum PayoutScan {
    BadPosition,
    BadNumerator,
    Done { payout_places: u16, sum: int },
}

/// Walks the batch from index `i`, carrying the payout-places count and the
/// running numerator sum, and stops at the first inadmissible entry.
pub open spec fn payout_scan(
    m: Map<(u64, u16), u16>,
    id: u64,
    batch: Seq<(u16, u16)>,
    i: int,
    pp: u16,
    acc: int,
) -> PayoutScan
    decreases batch.len() - i,
{
    if i < 0 || i >= batch.len() {
        PayoutScan::Done { payout_places: pp, sum: acc }
    } else if !position_admissible(m, id, batch, i) {
        PayoutScan::BadPosition
    } else if batch[i].1 == 0 {
        PayoutScan::BadNumerator
    } else {
        payout_scan(
            m,
            id,
            batch,
            i + 1,
            bump_places(pp, batch[i].0),
            acc + batch[i].1 - stored_numerator(m, id, batch[i].0),
        )
    }
}

/// The numerator map after saving the batch, later entries overriding
/// earlier ones.
pub open spec fn apply_batch(
    m: Map<(u64, u16), u16>,
    id: u64,
    batch: Seq<(u16, u16)>,
) -> Map<(u64, u16), u16>
    decreases batch.len(),
{
    if batch.len() == 0 {
        m
    } else {
        apply_batch(m, id, batch.drop_last()).insert(
            (id, batch.last().0),
            batch.last().1,
        )
    }
}

/// Whether `batch[..upto]` holds position `pos`.
fn batch_contains_pos(batch: &Vec<(u16, u16)>, upto: usize, pos: u16) -> (r: bool)
    requires
        upto <= batch@.len(),
    ensures
        r == batch_has_pos(batch@, upto as int, pos as int),
{
    let mut j: usize = 0;
    while j < upto
        invariant
            upto <= batch@.len(),
            0 <= j <= upto,
            forall|k: int| 0 <= k < j ==> (#[trigger] batch@[k]).0 != pos,
        decreases upto - j,
    {
        if batch[j].0 == pos {
            return true;
        }
        j = j + 1;
    }
    false
}

impl AzTradingCompetition {
    /// Sets or revises the payout numerators of a competition that has not
    /// started and has no registrants; the recorded numerator sum never
    /// exceeds the denominator.
    pub fn competition_payout_structure_numerators_update(
        &mut self,
        id: u64,
        payout_structure_numerators: Vec<(u16, u16)>,
        caller: AccountId,
        now: Timestamp,
    ) -> (r: Result<u16, AzTradingCompetitionError>)
        requires
            old(self).wf(),
        ensures
            final(self).wf(),
            ({
                let batch = payout_structure_numerators@;
                let nums = old(self).competition_payout_structure_numerators.m();
                let comp = old(self).competitions.m()[id];
                let scan = payout_scan(
                    nums,
                    id,
                    batch,
                    0,
                    comp.payout_places,
                    comp.payout_structure_numerator_sum as int,
                );
                match r {
                    Ok(sum) => {
                        &&& old(self).competitions.m().contains_key(id)
                        &&& caller == comp.creator
                        &&& now < comp.start
                        &&& comp.competitors_count == 0
                        &&& scan matches PayoutScan::Done { payout_places: pp, sum: acc }
                            && 0 <= acc <= PERCENTAGE_CALCULATION_DENOMINATOR && sum == acc
                            && final(self).competition_payout_structure_numerators.m()
                            == apply_batch(nums, id, batch) && final(self).competitions.m() == old(
                            self,
                        ).competitions.m().insert(
                            id,
                            (Competition {
                                payout_places: pp,
                                payout_structure_numerator_sum: sum,
                                ..comp
                            }),
                        )
                        &&& *final(self) == (AzTradingCompetition {
                            competitions: final(self).competitions,
                            competition_payout_structure_numerators:
                                final(self).competition_payout_structure_numerators,
                            ..*old(self)
                        })
                    },
                    Err(e) => {
                        &&& *final(self) == *old(self)
                        &&& if !old(self).competitions.m().contains_key(id) {
                            is_not_found(e, "Competition"@)
                        } else if caller != comp.creator {
                            e == AzTradingCompetitionError::Unauthorised
                        } else if now >= comp.start {
                            is_unprocessable(e, "Competition has started"@)
                        } else if comp.competitors_count > 0 {
                            is_unprocessable(e, "Unable to change when registrants present."@)
                        } else {
                            match scan {
                                PayoutScan::BadPosition => is_unprocessable(
                                    e,
                                    "Position must come after a present position."@,
                                ),
                                PayoutScan::BadNumerator => is_unprocessable(
                                    e,
                                    "Numerator must be positive."@,
                                ),
                                PayoutScan::Done { payout_places: _, sum: acc } => (acc < 0 || acc
                                    > PERCENTAGE_CALCULATION_DENOMINATOR) && is_unprocessable(
                                    e,
                                    "Numerator is greater than denominator."@,
                                ),
                            }
                        }
                    },
                }
            }),
    {
        let ghost nums = self.competition_payout_structure_numerators.m();
        let ghost batch = payout_structure_numerators@;
        let (creator, start, competitors_count, pp0, sum0) = match self.competitions.get(&id) {
            Some(c) => (
                c.creator,
                c.start,
                c.competitors_count,
                c.payout_places,
                c.payout_structure_numerator_sum,
            ),
            None => {
                return Err(AzTradingCompetitionError::NotFound("Competition".to_owned()));
            },
        };
        if let Err(e) = Self::authorise(creator, caller) {
            return Err(e);
        }
        if let Err(e) = Self::validate_competition_has_not_started(start, now) {
            return Err(e);
        }
        if competitors_count > 0 {
            return Err(
                AzTradingCompetitionError::UnprocessableEntity(
                    "Unable to change when registrants present.".to_owned(),
                ),
            );
        }
        let n = payout_structure_numerators.len();
        let mut i: usize = 0;
        let mut pp: u16 = pp0;
        let mut acc: i128 = sum0 as i128;
        while i < n
            invariant
                self == old(self),
                self.wf(),
                nums == self.competition_payout_structure_numerators.m(),
                batch == payout_structure_numerators@,
                old(self).competitions.m().contains_key(id),
                caller == old(self).competitions.m()[id].creator,
                now < old(self).competitions.m()[id].start,
                old(self).competitions.m()[id].competitors_count == 0,
                pp0 == old(self).competitions.m()[id].payout_places,
                sum0 == old(self).competitions.m()[id].payout_structure_numerator_sum,
                n == batch.len(),
                0 <= i <= n,
                -65535 * (i as int) <= acc as int,
                acc as int <= 10000 + 65535 * (i as int),
                payout_scan(nums, id, batch, 0, pp0, sum0 as int) == payout_scan(
                    nums,
                    id,
                    batch,
                    i as int,
                    pp,
                    acc as int,
                ),
            decreases n - i,
        {
            let pos = payout_structure_numerators[i].0;
            let num = payout_structure_numerators[i].1;
            let prev: u16 = match self.competition_payout_structure_numerators.get(&(id, pos)) {
                Some(v) => *v,
                None => 0,
            };
            if pos > 0 && !self.competition_payout_structure_numerators.contains_key(
                &(id, pos - 1),
            ) && !batch_contains_pos(&payout_structure_numerators, i, pos - 1) {
                proof {
                    assert(!position_admissible(nums, id, batch, i as int));
                }
                return Err(
                    AzTradingCompetitionError::UnprocessableEntity(
                        "Position must come after a present position.".to_owned(),
                    ),
                );
            }
            if num == 0 {
                proof {
                    assert(position_admissible(nums, id, batch, i as int));
                }
                return Err(
                    AzTradingCompetitionError::UnprocessableEntity(
                        "Numerator must be positive.".to_owned(),
                    ),
                );
            }
            let new_pp: u16 = if pos >= pp {
                if pos == u16::MAX {
                    u16::MAX
                } else {
                    pos + 1
                }
            } else {
                99
            };
            let new_acc: i128 = acc + num as i128 - prev as i128;
            proof {
                assert(position_admissible(nums, id, batch, i as int));
                assert(new_pp == bump_places(pp, pos));
                assert(prev == stored_numerator(nums, id, pos));
                assert(payout_scan(nums, id, batch, i as int, pp, acc as int) == payout_scan(
                    nums,
                    id,
                    batch,
                    i + 1,
                    new_pp,
                    new_acc as int,
                ));
            }
            pp = new_pp;
            acc = new_acc;
            i = i + 1;
        }
        if acc < 0 || acc > PERCENTAGE_CALCULATION_DENOMINATOR as i128 {
            return Err(
                AzTradingCompetitionError::UnprocessableEntity(
                    "Numerator is greater than denominator.".to_owned(),
                ),
            );
        }
        let sum: u16 = acc as u16;
        let mut j: usize = 0;
        while j < n
            invariant
                batch == payout_structure_numerators@,
                nums == old(self).competition_payout_structure_numerators.m(),
                old(self).competitions.m().contains_key(id),
                caller == old(self).competitions.m()[id].creator,
                now < old(self).competitions.m()[id].start,
                old(self).competitions.m()[id].competitors_count == 0,
                pp0 == old(self).competitions.m()[id].payout_places,
                sum0 == old(self).competitions.m()[id].payout_structure_numerator_sum,
                payout_scan(nums, id, batch, 0, pp0, sum0 as int) == (PayoutScan::Done {
                    payout_places: pp,
                    sum: sum as int,
                }),
                n == batch.len(),
                0 <= j <= n,
                self.wf(),
                self.competition_payout_structure_numerators.m() == apply_batch(
                    nums,
                    id,
                    batch.take(j as int),
                ),
                *self == (AzTradingCompetition {
                    competition_payout_structure_numerators: self
                        .competition_payout_structure_numerators,
                    ..*old(self)
                }),
            decreases n - j,
        {
            let pos = payout_structure_numerators[j].0;
            let num = payout_structure_numerators[j].1;
            self.competition_payout_structure_numerators.insert((id, pos), num);
            proof {
                assert(batch.take(j + 1).drop_last() =~= batch.take(j as int));
                assert(batch.take(j + 1).last() == batch[j as int]);
            }
            j = j + 1;
        }
        proof {
            assert(batch.take(n as int) =~= batch);
        }
        let mut competition = match self.competitions.take(&id) {
            Some(c) => c,
            None => {
                proof {
                    assert(false);
                }
                return Err(AzTradingCompetitionError::NotFound("Competition".to_owned()));
            },
        };
        competition.payout_places = pp;
        competition.payout_structure_numerator_sum = sum;
        self.competitions.insert(id, competition);
        proof {
            assert(final(self).competitions.m() =~= old(self).competitions.m().insert(
                id,
                (Competition {
                    payout_places: pp,
                    payout_structure_numerator_sum: sum,
                    ..old(self).competitions.m()[id]
                }),
            ));
        }
        Ok(sum)
    }
}

} // verus!
