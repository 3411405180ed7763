use vstd::prelude::*;
use crate::account::AccountId;
use crate::errors::AzTradingCompetitionError;
use crate::store::{AzTradingCompetition, is_not_found, is_unprocessable};
use crate::types::{Timestamp, Competition, CompetitionJudge, Competitor, competition_eqv};
use crate::wide::dec_value;
use crate::DAY_IN_MS;

verus! {

/// A competitor's final value for judge comparisons; an unset or absent
/// value counts as zero.
pub open spec fn final_value_of(
    competitors: Map<(u64, AccountId), Competitor>,
    id: u64,
    addr: AccountId,
) -> int {
    if competitors.contains_key((id, addr)) {
        match competitors[(id, addr)].final_value {
            Some(s) => dec_value(s@),
            None => 0,
        }
    } else {
        0
    }
}

/// `t + DAY_IN_MS`, held at the largest timestamp when it would wrap.
pub open spec fn day_after(t: Timestamp) -> Timestamp {
    if t + DAY_IN_MS > u64::MAX {
        u64::MAX
    } else {
        (t + DAY_IN_MS) as u64
    }
}

/// What one judge-promotion call does to the ledger.
pub open spec fn judge_update_outcome(
    pre: AzTradingCompetition,
    post: AzTradingCompetition,
    r: Result<(), AzTradingCompetitionError>,
    id: u64,
    now: Timestamp,
) -> bool {
                let comp = pre.competitions.m()[id];
                let deadline = pre.competition_judges.m()[(id, comp.judge)].deadline;
                match r {
                    Ok(_) => {
                        &&& pre.competitions.m().contains_key(id)
                        &&& comp.competitors_placed_count != comp.competitors_count
                        &&& comp.next_judge matches Some(nj) && post.competitions.m() == pre.competitions.m().insert(
                            id,
                            (Competition { judge: nj, next_judge: None, ..comp }),
                        )
                        &&& pre.competition_judges.m().contains_key((id, comp.judge))
                        &&& now > deadline
                        &&& post == (AzTradingCompetition {
                            competitions: post.competitions,
                            ..pre
                        })
                    },
                    Err(e) => {
                        &&& post == pre
                        &&& if !pre.competitions.m().contains_key(id) {
                            is_not_found(e, "Competition"@)
                        } else if comp.competitors_placed_count == comp.competitors_count {
                            is_unprocessable(e, "All competitors have been placed."@)
                        } else if comp.next_judge is None {
                            is_unprocessable(e, "Next judge absent."@)
                        } else if !pre.competition_judges.m().contains_key(
                            (id, comp.judge),
                        ) {
                            is_not_found(e, "CompetitionJudge"@)
                        } else {
                            now <= deadline && is_unprocessable(
                                e,
                                "Current judge deadline hasn't passed."@,
                            )
                        }
                    },
                }
            }

impl AzTradingCompetition {
    /// Promotes the pending challenger to judge once the incumbent's
    /// deadline has strictly passed. Callable by anyone.
    pub fn judge_update(&mut self, id: u64, now: Timestamp) -> (r: Result<
        (),
        AzTradingCompetitionError,
    >)
        requires
            old(self).wf(),
        ensures
            final(self).wf(),
            judge_update_outcome(*old(self), *final(self), r, id, now),
    {
        let (judge, next_judge, placed, count) = match self.competitions.get(&id) {
            Some(c) => (c.judge, c.next_judge, c.competitors_placed_count, c.competitors_count),
            None => {
                return Err(AzTradingCompetitionError::NotFound("Competition".to_owned()));
            },
        };
        if placed == count {
            return Err(
                AzTradingCompetitionError::UnprocessableEntity(
                    "All competitors have been placed.".to_owned(),
                ),
            );
        }
        let next_judge_unwrapped = match next_judge {
            Some(nj) => nj,
            None => {
                return Err(
                    AzTradingCompetitionError::UnprocessableEntity(
                        "Next judge absent.".to_owned(),
                    ),
                );
            },
        };
        let current_judge_deadline: Timestamp = match self.competition_judges.get(&(id, judge)) {
            Some(j) => j.deadline,
            None => {
                return Err(AzTradingCompetitionError::NotFound("CompetitionJudge".to_owned()));
            },
        };
        if now <= current_judge_deadline {
            return Err(
                AzTradingCompetitionError::UnprocessableEntity(
                    "Current judge deadline hasn't passed.".to_owned(),
                ),
            );
        }
        let mut competition = match self.competitions.take(&id) {
            Some(c) => c,
            None => {
                proof {
                    assert(false);
                }
                return Err(AzTradingCompetitionError::NotFound("Competition".to_owned()));
            },
        };
        competition.judge = next_judge_unwrapped;
        competition.next_judge = None;
        let ghost stored = competition;
        self.competitions.insert(id, competition);
        proof {
            assert(self.competitions.m() =~= old(self).competitions.m().insert(id, stored));
        }
        Ok(())
    }
}

/// What one challenger-registration call does to the ledger.
pub open spec fn next_judge_outcome(
    pre: AzTradingCompetition,
    post: AzTradingCompetition,
    r: Result<Competition, AzTradingCompetitionError>,
    id: u64,
    caller: AccountId,
    now: Timestamp,
) -> bool {
                let comp = pre.competitions.m()[id];
                let deadline = pre.competition_judges.m()[(id, comp.judge)].deadline;
                let caller_value = final_value_of(pre.competitors.m(), id, caller);
                match r {
                    Ok(c) => {
                        &&& pre.competitions.m().contains_key(id)
                        &&& comp.competitors_placed_count != comp.competitors_count
                        &&& !pre.competition_judges.m().contains_key((id, caller))
                        &&& (comp.next_judge matches Some(nj) ==> caller_value > final_value_of(
                            pre.competitors.m(),
                            id,
                            nj,
                        ))
                        &&& pre.competition_judges.m().contains_key((id, comp.judge))
                        &&& competition_eqv(
                            c,
                            (Competition { next_judge: Some(caller), ..comp }),
                        )
                        &&& post.competitions.m() == pre.competitions.m().insert(
                            id,
                            (Competition { next_judge: Some(caller), ..comp }),
                        )
                        &&& post.competition_judges.m() == (match comp.next_judge {
                            Some(nj) => pre.competition_judges.m().remove((id, nj)),
                            None => pre.competition_judges.m(),
                        }).insert(
                            (id, caller),
                            (CompetitionJudge {
                                deadline: day_after(
                                    if now > deadline {
                                        now
                                    } else {
                                        deadline
                                    },
                                ),
                            }),
                        )
                        &&& post == (AzTradingCompetition {
                            competitions: post.competitions,
                            competition_judges: post.competition_judges,
                            ..pre
                        })
                    },
                    Err(e) => {
                        &&& post == pre
                        &&& if !pre.competitions.m().contains_key(id) {
                            is_not_found(e, "Competition"@)
                        } else if comp.competitors_placed_count == comp.competitors_count {
                            is_unprocessable(e, "All competitors have been placed."@)
                        } else if pre.competition_judges.m().contains_key((id, caller)) {
                            is_unprocessable(e, "You can only be a judge one time."@)
                        } else if comp.next_judge matches Some(nj) && caller_value
                            <= final_value_of(pre.competitors.m(), id, nj) {
                            is_unprocessable(
                                e,
                                "Next judge can only be replaced by callers that performed better in specified competition."@,
                            )
                        } else {
                            !pre.competition_judges.m().contains_key((id, comp.judge))
                                && is_not_found(e, "CompetitionJudge"@)
                        }
                    },
                }
            }

impl AzTradingCompetition {
    /// Makes the caller the pending challenger: the caller must never have
    /// judged this competition, and must strictly outperform any sitting
    /// challenger. The new challenger's deadline lies one day past the
    /// later of now and the incumbent's deadline.
    pub fn next_judge_update(&mut self, id: u64, caller: AccountId, now: Timestamp) -> (r: Result<
        Competition,
        AzTradingCompetitionError,
    >)
        requires
            old(self).wf(),
        ensures
            final(self).wf(),
            next_judge_outcome(*old(self), *final(self), r, id, caller, now),
    {
        let (judge, next_judge, placed, count) = match self.competitions.get(&id) {
            Some(c) => (c.judge, c.next_judge, c.competitors_placed_count, c.competitors_count),
            None => {
                return Err(AzTradingCompetitionError::NotFound("Competition".to_owned()));
            },
        };
        if placed == count {
            return Err(
                AzTradingCompetitionError::UnprocessableEntity(
                    "All competitors have been placed.".to_owned(),
                ),
            );
        }
        if self.competition_judges.contains_key(&(id, caller)) {
            return Err(
                AzTradingCompetitionError::UnprocessableEntity(
                    "You can only be a judge one time.".to_owned(),
                ),
            );
        }
        if let Some(nj) = next_judge {
            let caller_value = self.comparison_value(id, caller);
            let next_judge_value = self.comparison_value(id, nj);
            let worse = !(caller_value.0 > next_judge_value.0 || (caller_value.0
                == next_judge_value.0 && caller_value.1 > next_judge_value.1));
            if worse {
                return Err(
                    AzTradingCompetitionError::UnprocessableEntity(
                        "Next judge can only be replaced by callers that performed better in specified competition.".to_owned(),
                    ),
                );
            }
        }
        let current_judge_deadline: Timestamp = match self.competition_judges.get(&(id, judge)) {
            Some(j) => j.deadline,
            None => {
                return Err(AzTradingCompetitionError::NotFound("CompetitionJudge".to_owned()));
            },
        };
        if let Some(nj) = next_judge {
            self.competition_judges.remove(&(id, nj));
        }
        let mut competition = match self.competitions.take(&id) {
            Some(c) => c,
            None => {
                proof {
                    assert(false);
                }
                return Err(AzTradingCompetitionError::NotFound("Competition".to_owned()));
            },
        };
        competition.next_judge = Some(caller);
        let ghost stored = competition;
        let result = competition.clone();
        self.competitions.insert(id, competition);
        let base: Timestamp = if now > current_judge_deadline {
            now
        } else {
            current_judge_deadline
        };
        let deadline: Timestamp = if base > u64::MAX - DAY_IN_MS {
            u64::MAX
        } else {
            base + DAY_IN_MS
        };
        self.competition_judges.insert((id, caller), CompetitionJudge { deadline });
        proof {
            assert(self.competitions.m() =~= old(self).competitions.m().insert(id, stored));
        }
        Ok(result)
    }

    /// The caller's final value split into 128-bit halves, zero when the
    /// record or the value is absent.
    fn comparison_value(&self, id: u64, addr: AccountId) -> (r: (u128, u128))
        requires
            self.wf(),
        ensures
            r.0 * crate::wide::two_pow_128() + r.1 == final_value_of(self.competitors.m(), id, addr),
    {
        match self.competitors.get(&(id, addr)) {
            Some(c) => {
                match &c.final_value {
                    Some(s) => {
                        match crate::wide::u256_from_dec_str(s.as_str()) {
                            Some(p) => p,
                            None => {
                                // unreachable: a stored final value parses, by well-formedness
                                proof {
                                    assert(false);
                                }
                                vstd::pervasive::unreached()
                            },
                        }
                    },
                    None => (0, 0),
                }
            },
            None => (0, 0),
        }
    }
}

} // verus!
