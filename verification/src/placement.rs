use vstd::prelude::*;
use crate::account::AccountId;
use crate::errors::AzTradingCompetitionError;
use crate::lifecycle::stored_numerator;
use crate::store::{AzTradingCompetition, is_not_found, is_unprocessable};
use crate::types::{Timestamp, Competition, CompetitionPlaceDetail, Competitor, final_value_ok,
    place_detail_ok};
use crate::vecmap::VecMap;
use vstd::pervasive::VecAdditionalExecFns;
use crate::wide::{dec_value, wide_val, u256_from_dec_str};

verus! {

/// The numerator owed to the next unfilled rank: the configured numerator
/// while ranks within `payout_places` are being filled, nothing beyond.
pub open spec fn next_numerator(
    m: Map<(u64, u16), u16>,
    id: u64,
    placed: u32,
    payout_places: u16,
) -> u16 {
    if placed < payout_places {
        stored_numerator(m, id, placed as u16)
    } else {
        0
    }
}

pub open spec fn sat_inc_u32(c: u32) -> u32 {
    if c == u32::MAX {
        c
    } else {
        (c + 1) as u32
    }
}

pub open spec fn sat_add_u16(a: u16, b: u16) -> u16 {
    if a + b > u16::MAX {
        u16::MAX
    } else {
        (a + b) as u16
    }
}

/// The outcome of placing a batch of competitors in the caller's order.
pub enum PlaceScan {
    MissingCompetitor,
    AlreadyPlaced,
    MissingValue,
    TooMany,
    WrongPlace,
    Done {
        groups: Seq<CompetitionPlaceDetail>,
        competitors: Map<(u64, AccountId), Competitor>,
        placed: u32,
    },
}

/// Walks the submitted addresses from index `i`, merging ties into the last
/// group, appending strictly greater values, and refusing a value below the
/// last group's.
pub open spec fn place_scan(
    id: u64,
    attempt: u128,
    nums: Map<(u64, u16), u16>,
    payout_places: u16,
    addrs: Seq<AccountId>,
    i: int,
    groups: Seq<CompetitionPlaceDetail>,
    competitors: Map<(u64, AccountId), Competitor>,
    placed: u32,
) -> PlaceScan
    decreases addrs.len() - i,
{
    if i < 0 || i >= addrs.len() {
        PlaceScan::Done { groups, competitors, placed }
    } else {
        let a = addrs[i];
        if !competitors.contains_key((id, a)) {
            PlaceScan::MissingCompetitor
        } else {
            let c = competitors[(id, a)];
            if c.judge_place_attempt == attempt {
                PlaceScan::AlreadyPlaced
            } else if c.final_value is None {
                PlaceScan::MissingValue
            } else if placed == u32::MAX || groups.len() >= u32::MAX {
                PlaceScan::TooMany
            } else {
                let v = c.final_value->0;
                let owed = next_numerator(nums, id, placed, payout_places);
                if groups.len() == 0 {
                    place_scan(
                        id,
                        attempt,
                        nums,
                        payout_places,
                        addrs,
                        i + 1,
                        seq![
                            (CompetitionPlaceDetail {
                                competitor_value: v,
                                competitors_count: 1,
                                payout_numerator: owed,
                            }),
                        ],
                        competitors.insert(
                            (id, a),
                            (Competitor {
                                final_value: c.final_value,
                                judge_place_attempt: attempt,
                                competition_place_details_index: 0,
                            }),
                        ),
                        (placed + 1) as u32,
                    )
                } else {
                    let last = groups.last();
                    if dec_value(v@) == dec_value(last.competitor_value@) {
                        place_scan(
                            id,
                            attempt,
                            nums,
                            payout_places,
                            addrs,
                            i + 1,
                            groups.update(
                                groups.len() - 1,
                                (CompetitionPlaceDetail {
                                    competitor_value: last.competitor_value,
                                    competitors_count: sat_inc_u32(last.competitors_count),
                                    payout_numerator: sat_add_u16(
                                        last.payout_numerator,
                                        owed,
                                    ),
                                }),
                            ),
                            competitors.insert(
                                (id, a),
                                (Competitor {
                                    final_value: c.final_value,
                                    judge_place_attempt: attempt,
                                    competition_place_details_index: (groups.len() - 1) as u32,
                                }),
                            ),
                            (placed + 1) as u32,
                        )
                    } else if dec_value(v@) > dec_value(last.competitor_value@) {
                        place_scan(
                            id,
                            attempt,
                            nums,
                            payout_places,
                            addrs,
                            i + 1,
                            groups.push(
                                (CompetitionPlaceDetail {
                                    competitor_value: v,
                                    competitors_count: 1,
                                    payout_numerator: owed,
                                }),
                            ),
                            competitors.insert(
                                (id, a),
                                (Competitor {
                                    final_value: c.final_value,
                                    judge_place_attempt: attempt,
                                    competition_place_details_index: groups.len() as u32,
                                }),
                            ),
                            (placed + 1) as u32,
                        )
                    } else {
                        PlaceScan::WrongPlace
                    }
                }
            }
        }
    }
}

/// An exact working copy of the competitor records.
fn clone_competitors(src: &VecMap<(u64, AccountId), Competitor>) -> (r: VecMap<
    (u64, AccountId),
    Competitor,
>)
    ensures
        r.entries@ == src.entries@,
{
    let mut entries: Vec<((u64, AccountId), Competitor)> = Vec::new();
    let n = src.entries.len();
    let mut i: usize = 0;
    while i < n
        invariant
            n == src.entries@.len(),
            0 <= i <= n,
            entries@ == src.entries@.take(i as int),
        decreases n - i,
    {
        let pair = &src.entries[i];
        entries.push((pair.0, pair.1.clone()));
        proof {
            assert(entries@ =~= src.entries@.take(i + 1));
        }
        i = i + 1;
    }
    proof {
        assert(src.entries@.take(n as int) =~= src.entries@);
    }
    VecMap { entries }
}

/// What one placement call does to the ledger.
pub open spec fn place_outcome(
    pre: AzTradingCompetition,
    post: AzTradingCompetition,
    r: Result<(), AzTradingCompetitionError>,
    id: u64,
    addrs: Seq<AccountId>,
    caller: AccountId,
    now: Timestamp,
) -> bool {
                let comp = pre.competitions.m()[id];
                let scan = place_scan(
                    id,
                    comp.judge_place_attempt,
                    pre.competition_payout_structure_numerators.m(),
                    comp.payout_places,
                    addrs,
                    0,
                    pre.competition_place_details.m()[id]@,
                    pre.competitors.m(),
                    comp.competitors_placed_count,
                );
                match r {
                    Ok(_) => {
                        &&& pre.competitions.m().contains_key(id)
                        &&& caller == comp.judge
                        &&& now > comp.end
                        &&& comp.competitors_count == comp.competitor_final_value_updated_count
                        &&& pre.competition_place_details.m().contains_key(id)
                        &&& scan matches PlaceScan::Done { groups, competitors, placed }
                            && post.competition_place_details.m().contains_key(id)
                            && post.competition_place_details.m()[id]@ == groups && post.competitors.m() == competitors && post.competitions.m() == pre.competitions.m().insert(
                            id,
                            (Competition { competitors_placed_count: placed, ..comp }),
                        ) && post.competition_place_details.m() == pre.competition_place_details.m().insert(
                            id,
                            post.competition_place_details.m()[id],
                        )
                        &&& post == (AzTradingCompetition {
                            competition_place_details: post.competition_place_details,
                            competitors: post.competitors,
                            competitions: post.competitions,
                            ..pre
                        })
                    },
                    Err(e) => {
                        &&& post == pre
                        &&& if !pre.competitions.m().contains_key(id) {
                            is_not_found(e, "Competition"@)
                        } else if caller != comp.judge {
                            e == AzTradingCompetitionError::Unauthorised
                        } else if now <= comp.end {
                            is_unprocessable(e, "Competition hasn't ended."@)
                        } else if comp.competitors_count
                            != comp.competitor_final_value_updated_count {
                            is_unprocessable(
                                e,
                                "All competitors have not had their final values updated."@,
                            )
                        } else if !pre.competition_place_details.m().contains_key(id) {
                            is_not_found(e, "CompetitionPlaceDetail"@)
                        } else {
                            match scan {
                                PlaceScan::MissingCompetitor => is_not_found(e, "Competitor"@),
                                PlaceScan::AlreadyPlaced => is_unprocessable(
                                    e,
                                    "Competitor has already been placed."@,
                                ),
                                PlaceScan::MissingValue => is_unprocessable(
                                    e,
                                    "Competitor's final value hasn't been updated."@,
                                ),
                                PlaceScan::TooMany => is_unprocessable(
                                    e,
                                    "Maximum number of placements reached."@,
                                ),
                                PlaceScan::WrongPlace => is_unprocessable(
                                    e,
                                    "Competitor is in the wrong place."@,
                                ),
                                PlaceScan::Done { .. } => false,
                            }
                        }
                    },
                }
            }

impl AzTradingCompetition {
    /// The payout numerator owed to the next unfilled rank.
    pub(crate) fn payout_numerator_for_next_place(&self, competition: &Competition) -> (r: u16)
        requires
            self.wf(),
        ensures
            r == next_numerator(
                self.competition_payout_structure_numerators.m(),
                competition.id,
                competition.competitors_placed_count,
                competition.payout_places,
            ),
    {
        if competition.competitors_placed_count < competition.payout_places as u32 {
            match self.competition_payout_structure_numerators.get(
                &(competition.id, competition.competitors_placed_count as u16),
            ) {
                Some(n) => *n,
                None => 0,
            }
        } else {
            0
        }
    }

    /// Places a batch of competitors, submitted by the judge in
    /// non-decreasing final-value order; ties merge into the last group.
    /// The whole call aborts on the first bad entry, leaving the ledger
    /// untouched.
    pub fn place_competitors(
        &mut self,
        id: u64,
        competitors_addresses: Vec<AccountId>,
        caller: AccountId,
        now: Timestamp,
    ) -> (r: Result<(), AzTradingCompetitionError>)
        requires
            old(self).wf(),
        ensures
            final(self).wf(),
            place_outcome(*old(self), *final(self), r, id, competitors_addresses@, caller, now),
    {
        let ghost addrs = competitors_addresses@;
        let (judge, end, competitors_count, updated_count, attempt, places, placed0) =
            match self.competitions.get(&id) {
            Some(c) => (
                c.judge,
                c.end,
                c.competitors_count,
                c.competitor_final_value_updated_count,
                c.judge_place_attempt,
                c.payout_places,
                c.competitors_placed_count,
            ),
            None => {
                return Err(AzTradingCompetitionError::NotFound("Competition".to_owned()));
            },
        };
        if judge.hi != caller.hi || judge.lo != caller.lo {
            return Err(AzTradingCompetitionError::Unauthorised);
        }
        if now <= end {
            return Err(
                AzTradingCompetitionError::UnprocessableEntity(
                    "Competition hasn't ended.".to_owned(),
                ),
            );
        }
        if competitors_count != updated_count {
            return Err(
                AzTradingCompetitionError::UnprocessableEntity(
                    "All competitors have not had their final values updated.".to_owned(),
                ),
            );
        }
        let mut groups: Vec<CompetitionPlaceDetail> = match self.competition_place_details.get(
            &id,
        ) {
            Some(v) => crate::accessors::clone_place_details(v),
            None => {
                return Err(
                    AzTradingCompetitionError::NotFound("CompetitionPlaceDetail".to_owned()),
                );
            },
        };
        let ghost groups0 = groups@;
        let ghost m0 = self.competitors.m();
        let ghost nums = self.competition_payout_structure_numerators.m();
        let mut work = clone_competitors(&self.competitors);
        let mut placed: u32 = placed0;
        let n = competitors_addresses.len();
        let mut i: usize = 0;
        while i < n
            invariant
                self == old(self),
                self.wf(),
                addrs == competitors_addresses@,
                n == addrs.len(),
                0 <= i <= n,
                old(self).competitions.m().contains_key(id),
                caller == old(self).competitions.m()[id].judge,
                now > old(self).competitions.m()[id].end,
                old(self).competitions.m()[id].competitors_count == old(
                    self,
                ).competitions.m()[id].competitor_final_value_updated_count,
                old(self).competition_place_details.m().contains_key(id),
                attempt == old(self).competitions.m()[id].judge_place_attempt,
                places == old(self).competitions.m()[id].payout_places,
                placed0 == old(self).competitions.m()[id].competitors_placed_count,
                groups0 == old(self).competition_place_details.m()[id]@,
                m0 == old(self).competitors.m(),
                nums == old(self).competition_payout_structure_numerators.m(),
                work.wf(),
                forall|k: (u64, AccountId)|
                    work.m().contains_key(k) ==> final_value_ok(
                        (#[trigger] work.m()[k]).final_value,
                    ),
                crate::store::place_details_ok(groups@),
                place_scan(id, attempt, nums, places, addrs, 0, groups0, m0, placed0)
                    == place_scan(
                    id,
                    attempt,
                    nums,
                    places,
                    addrs,
                    i as int,
                    groups@,
                    work.m(),
                    placed,
                ),
            decreases n - i,
        {
            let a = competitors_addresses[i];
            let ghost groups_pre = groups@;
            let ghost work_pre = work.m();
            let ghost placed_pre = placed;
            let competitor: Competitor = match work.get(&(id, a)) {
                Some(c) => c.clone(),
                None => {
                    return Err(AzTradingCompetitionError::NotFound("Competitor".to_owned()));
                },
            };
            if competitor.judge_place_attempt == attempt {
                return Err(
                    AzTradingCompetitionError::UnprocessableEntity(
                        "Competitor has already been placed.".to_owned(),
                    ),
                );
            }
            let value: String = match &competitor.final_value {
                Some(s) => s.clone(),
                None => {
                    return Err(
                        AzTradingCompetitionError::UnprocessableEntity(
                            "Competitor's final value hasn't been updated.".to_owned(),
                        ),
                    );
                },
            };
            if placed == u32::MAX || groups.len() >= 0xFFFFFFFF {
                return Err(
                    AzTradingCompetitionError::UnprocessableEntity(
                        "Maximum number of placements reached.".to_owned(),
                    ),
                );
            }
            let owed: u16 = if placed < places as u32 {
                match self.competition_payout_structure_numerators.get(&(id, placed as u16)) {
                    Some(x) => *x,
                    None => 0,
                }
            } else {
                0
            };
            proof {
                assert(owed == next_numerator(nums, id, placed, places));
            }
            let index: u32;
            if groups.len() == 0 {
                groups.push(
                    CompetitionPlaceDetail {
                        competitor_value: value,
                        competitors_count: 1,
                        payout_numerator: owed,
                    },
                );
                index = 0;
                proof {
                    assert(groups@ =~= seq![
                        (CompetitionPlaceDetail {
                            competitor_value: competitor.final_value->0,
                            competitors_count: 1,
                            payout_numerator: owed,
                        }),
                    ]);
                }
            } else {
                let last_idx = groups.len() - 1;
                let pa = match u256_from_dec_str(value.as_str()) {
                    Some(p) => p,
                    None => {
                        // unreachable: a stored final value parses, by well-formedness
                        proof {
                            assert(false);
                        }
                        vstd::pervasive::unreached()
                    },
                };
                let pb = match u256_from_dec_str(groups[last_idx].competitor_value.as_str()) {
                    Some(p) => p,
                    None => {
                        // unreachable: a stored group value parses, by well-formedness
                        proof {
                            assert(place_detail_ok(groups@[last_idx as int]));
                            assert(false);
                        }
                        vstd::pervasive::unreached()
                    },
                };
                if pa.0 == pb.0 && pa.1 == pb.1 {
                    proof {
                        assert(dec_value(value@) == dec_value(
                            groups@[last_idx as int].competitor_value@,
                        ));
                    }
                    let merged = CompetitionPlaceDetail {
                        competitor_value: groups[last_idx].competitor_value.clone(),
                        competitors_count: if groups[last_idx].competitors_count == u32::MAX {
                            u32::MAX
                        } else {
                            groups[last_idx].competitors_count + 1
                        },
                        payout_numerator: if groups[last_idx].payout_numerator > u16::MAX - owed {
                            u16::MAX
                        } else {
                            groups[last_idx].payout_numerator + owed
                        },
                    };
                    groups.set(last_idx, merged);
                    index = last_idx as u32;
                } else if pa.0 > pb.0 || (pa.0 == pb.0 && pa.1 > pb.1) {
                    proof {
                        assert(wide_val(pa.0, pa.1) > wide_val(pb.0, pb.1));
                        assert(dec_value(value@) > dec_value(
                            groups@[last_idx as int].competitor_value@,
                        ));
                    }
                    index = last_idx as u32 + 1;
                    groups.push(
                        CompetitionPlaceDetail {
                            competitor_value: value,
                            competitors_count: 1,
                            payout_numerator: owed,
                        },
                    );
                } else {
                    proof {
                        assert(wide_val(pa.0, pa.1) < wide_val(pb.0, pb.1));
                        assert(dec_value(value@) < dec_value(
                            groups@[last_idx as int].competitor_value@,
                        ));
                    }
                    return Err(
                        AzTradingCompetitionError::UnprocessableEntity(
                            "Competitor is in the wrong place.".to_owned(),
                        ),
                    );
                }
            }
            let mut updated = competitor;
            updated.judge_place_attempt = attempt;
            updated.competition_place_details_index = index;
            work.insert((id, a), updated);
            placed = placed + 1;
            proof {
                assert(place_scan(
                    id,
                    attempt,
                    nums,
                    places,
                    addrs,
                    i as int,
                    groups_pre,
                    work_pre,
                    placed_pre,
                ) == place_scan(id, attempt, nums, places, addrs, i + 1, groups@, work.m(), placed));
            }
            i = i + 1;
        }
        let mut competition = match self.competitions.take(&id) {
            Some(c) => c,
            None => {
                proof {
                    assert(false);
                }
                return Err(AzTradingCompetitionError::NotFound("Competition".to_owned()));
            },
        };
        competition.competitors_placed_count = placed;
        let ghost stored = competition;
        self.competitions.insert(id, competition);
        self.competitors = work;
        self.competition_place_details.insert(id, groups);
        proof {
            assert(self.competitions.m() =~= old(self).competitions.m().insert(id, stored));
        }
        Ok(())
    }

    /// Starts a fresh placement attempt: clears the groups and the placed
    /// count, and bumps the attempt counter that stale placements carry.
    pub fn reset(&mut self, id: u64, caller: AccountId) -> (r: Result<
        (),
        AzTradingCompetitionError,
    >)
        requires
            old(self).wf(),
        ensures
            final(self).wf(),
            ({
                let comp = old(self).competitions.m()[id];
                match r {
                    Ok(_) => {
                        &&& old(self).competitions.m().contains_key(id)
                        &&& caller == comp.judge
                        &&& comp.judge_place_attempt < u128::MAX
                        &&& comp.competitors_placed_count > 0
                        &&& comp.competitors_placed_count != comp.competitors_count
                        &&& final(self).competitions.m() == old(self).competitions.m().insert(
                            id,
                            (Competition {
                                competitors_placed_count: 0,
                                judge_place_attempt: (comp.judge_place_attempt + 1) as u128,
                                ..comp
                            }),
                        )
                        &&& final(self).competition_place_details.m().contains_key(id)
                        &&& final(self).competition_place_details.m()[id]@ == Seq::<
                            CompetitionPlaceDetail,
                        >::empty()
                        &&& final(self).competition_place_details.m() == old(
                            self,
                        ).competition_place_details.m().insert(
                            id,
                            final(self).competition_place_details.m()[id],
                        )
                        &&& *final(self) == (AzTradingCompetition {
                            competitions: final(self).competitions,
                            competition_place_details: final(self).competition_place_details,
                            ..*old(self)
                        })
                    },
                    Err(e) => {
                        &&& *final(self) == *old(self)
                        &&& if !old(self).competitions.m().contains_key(id) {
                            is_not_found(e, "Competition"@)
                        } else if caller != comp.judge {
                            e == AzTradingCompetitionError::Unauthorised
                        } else if comp.judge_place_attempt == u128::MAX {
                            is_unprocessable(e, "Maximum place attempts reached."@)
                        } else if comp.competitors_placed_count == 0 {
                            is_unprocessable(e, "Zero competitors have been placed."@)
                        } else {
                            comp.competitors_placed_count == comp.competitors_count
                                && is_unprocessable(e, "All competitors have been placed."@)
                        }
                    },
                }
            }),
    {
        let (judge, attempt, placed_count, competitors_count) = match self.competitions.get(&id) {
            Some(c) => (c.judge, c.judge_place_attempt, c.competitors_placed_count, c.competitors_count),
            None => {
                return Err(AzTradingCompetitionError::NotFound("Competition".to_owned()));
            },
        };
        if let Err(e) = Self::authorise(judge, caller) {
            return Err(e);
        }
        if attempt == u128::MAX {
            return Err(
                AzTradingCompetitionError::UnprocessableEntity(
                    "Maximum place attempts reached.".to_owned(),
                ),
            );
        }
        if placed_count == 0 {
            return Err(
                AzTradingCompetitionError::UnprocessableEntity(
                    "Zero competitors have been placed.".to_owned(),
                ),
            );
        }
        if placed_count == competitors_count {
            return Err(
                AzTradingCompetitionError::UnprocessableEntity(
                    "All competitors have been placed.".to_owned(),
                ),
            );
        }
        let mut competition = match self.competitions.take(&id) {
            Some(c) => c,
            None => {
                proof {
                    assert(false);
                }
                return Err(AzTradingCompetitionError::NotFound("Competition".to_owned()));
            },
        };
        competition.competitors_placed_count = 0;
        competition.judge_place_attempt = competition.judge_place_attempt + 1;
        let ghost stored = competition;
        self.competitions.insert(id, competition);
        let empty_details: Vec<CompetitionPlaceDetail> = Vec::new();
        self.competition_place_details.insert(id, empty_details);
        proof {
            assert(self.competitions.m() =~= old(self).competitions.m().insert(id, stored));
        }
        Ok(())
    }
}

} // verus!
