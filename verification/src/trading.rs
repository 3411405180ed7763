use vstd::prelude::*;
use crate::account::AccountId;
use crate::errors::{AzTradingCompetitionError, RouterError};
use crate::store::{AzTradingCompetition, is_not_found, is_unprocessable, edge_in};
use crate::traits::Collaborators;
use crate::types::{Balance, Timestamp, CompetitionTokenCompetitor};

verus! {

/// Every consecutive pair of the path is an edge of the allowed-asset
/// graph.
pub open spec fn path_ok(m: Map<AccountId, Vec<AccountId>>, path: Seq<AccountId>) -> bool {
    forall|k: int| 1 <= k < path.len() ==> edge_in(m, path[k - 1], #[trigger] path[k])
}

/// Whether `v` holds the account `t`.
fn vec_contains_account(v: &Vec<AccountId>, t: AccountId) -> (r: bool)
    ensures
        r == v@.contains(t),
{
    let n = v.len();
    let mut i: usize = 0;
    while i < n
        invariant
            n == v@.len(),
            0 <= i <= n,
            forall|j: int| 0 <= j < i ==> v@[j] != t,
        decreases n - i,
    {
        if v[i].hi == t.hi && v[i].lo == t.lo {
            proof {
                assert(v@[i as int] == t);
            }
            return true;
        }
        i = i + 1;
    }
    proof {
        if v@.contains(t) {
            let j = choose|j: int| 0 <= j < v@.len() && v@[j] == t;
        }
    }
    false
}

/// The balance map after one swap settles: the input balance less what
/// was sent, then the output balance (read after that write, so a
/// same-token swap nets correctly) plus what came back.
pub open spec fn settled_map(
    m: Map<(u64, AccountId, AccountId), CompetitionTokenCompetitor>,
    id: u64,
    caller: AccountId,
    in_token: AccountId,
    out_token: AccountId,
    amount_in: Balance,
    out_amount: Balance,
) -> Map<(u64, AccountId, AccountId), CompetitionTokenCompetitor> {
    let in_rec = m[(id, in_token, caller)];
    let m1 = m.insert(
        (id, in_token, caller),
        (CompetitionTokenCompetitor { amount: (in_rec.amount - amount_in) as Balance, ..in_rec }),
    );
    let out_rec = m1[(id, out_token, caller)];
    m1.insert(
        (id, out_token, caller),
        (CompetitionTokenCompetitor { amount: (out_rec.amount + out_amount) as Balance, ..out_rec }),
    )
}

/// The output balance a settled swap starts from.
pub open spec fn out_balance_before(
    m: Map<(u64, AccountId, AccountId), CompetitionTokenCompetitor>,
    id: u64,
    caller: AccountId,
    in_token: AccountId,
    out_token: AccountId,
    amount_in: Balance,
) -> int {
    if in_token == out_token {
        m[(id, in_token, caller)].amount - amount_in
    } else {
        m[(id, out_token, caller)].amount as int
    }
}

impl AzTradingCompetition {
    /// Lets the router draw on the competition's reserve of `token`.
    pub fn increase_allowance_for_router<C: Collaborators>(
        &mut self,
        collaborators: &mut C,
        token: AccountId,
        amount: Balance,
    ) -> (r: Result<(), AzTradingCompetitionError>)
        requires
            old(self).wf(),
        ensures
            final(self).wf(),
            *final(self) == *old(self),
            r matches Err(e) ==> e matches AzTradingCompetitionError::PSP22Error(_),
    {
        match collaborators.psp22_increase_allowance(token, self.router, amount) {
            Ok(()) => Ok(()),
            Err(e) => Err(AzTradingCompetitionError::PSP22Error(e)),
        }
    }

    /// Reconciles one swap against the ledger: the input balance shrinks by
    /// what was sent, the output balance grows by what the router reported.
    pub fn settle_swap(
        &mut self,
        id: u64,
        caller: AccountId,
        in_token: AccountId,
        out_token: AccountId,
        amount_in: Balance,
        out_amount: Balance,
    ) -> (r: Result<(), AzTradingCompetitionError>)
        requires
            old(self).wf(),
        ensures
            final(self).wf(),
            ({
                let in_rec = old(self).competition_token_competitors.m()[(id, in_token, caller)];
                let out_rec = old(self).competition_token_competitors.m()[(
                    id,
                    out_token,
                    caller,
                )];
                match r {
                    Ok(_) => {
                        &&& old(self).competition_token_competitors.m().contains_key(
                            (id, in_token, caller),
                        )
                        &&& in_rec.amount >= amount_in
                        &&& old(self).competition_token_competitors.m().contains_key(
                            (id, out_token, caller),
                        )
                        &&& out_balance_before(
                            old(self).competition_token_competitors.m(),
                            id,
                            caller,
                            in_token,
                            out_token,
                            amount_in,
                        ) + out_amount <= u128::MAX
                        &&& final(self).competition_token_competitors.m() == settled_map(
                            old(self).competition_token_competitors.m(),
                            id,
                            caller,
                            in_token,
                            out_token,
                            amount_in,
                            out_amount,
                        )
                        &&& *final(self) == (AzTradingCompetition {
                            competition_token_competitors:
                                final(self).competition_token_competitors,
                            ..*old(self)
                        })
                    },
                    Err(e) => {
                        &&& *final(self) == *old(self)
                        &&& if !old(self).competition_token_competitors.m().contains_key(
                            (id, in_token, caller),
                        ) || in_rec.amount < amount_in {
                            is_not_found(e, "CompetitionTokenCompetitor"@) || is_unprocessable(
                                e,
                                "Insufficient balance."@,
                            )
                        } else if !old(self).competition_token_competitors.m().contains_key(
                            (id, out_token, caller),
                        ) {
                            is_not_found(e, "CompetitionTokenCompetitor"@)
                        } else {
                            is_unprocessable(e, "Balance overflow."@)
                        }
                    },
                }
            }),
    {
        let in_rec: CompetitionTokenCompetitor = match self.competition_token_competitors.get(
            &(id, in_token, caller),
        ) {
            Some(v) => *v,
            None => {
                return Err(
                    AzTradingCompetitionError::NotFound("CompetitionTokenCompetitor".to_owned()),
                );
            },
        };
        if in_rec.amount < amount_in {
            return Err(
                AzTradingCompetitionError::UnprocessableEntity("Insufficient balance.".to_owned()),
            );
        }
        let decremented = CompetitionTokenCompetitor {
            amount: in_rec.amount - amount_in,
            collected: in_rec.collected,
        };
        let same_token = in_token.hi == out_token.hi && in_token.lo == out_token.lo;
        let out_before: CompetitionTokenCompetitor = if same_token {
            decremented
        } else {
            match self.competition_token_competitors.get(&(id, out_token, caller)) {
                Some(v) => *v,
                None => {
                    return Err(
                        AzTradingCompetitionError::NotFound(
                            "CompetitionTokenCompetitor".to_owned(),
                        ),
                    );
                },
            }
        };
        if out_before.amount > u128::MAX - out_amount {
            return Err(
                AzTradingCompetitionError::UnprocessableEntity("Balance overflow.".to_owned()),
            );
        }
        self.competition_token_competitors.insert((id, in_token, caller), decremented);
        self.competition_token_competitors.insert(
            (id, out_token, caller),
            CompetitionTokenCompetitor {
                amount: out_before.amount + out_amount,
                collected: out_before.collected,
            },
        );
        Ok(())
    }
}


impl AzTradingCompetition {
    /// Swaps within the allowed-asset graph during the trading window:
    /// validates the path, the window, the field and the caller's balance,
    /// forwards to the router collaborator, and reconciles the caller's
    /// balances with what the router reported.
    pub fn swap_exact_tokens_for_tokens<C: Collaborators>(
        &mut self,
        collaborators: &mut C,
        id: u64,
        amount_in: u128,
        amount_out_min: u128,
        path: Vec<AccountId>,
        deadline: u64,
        caller: AccountId,
        now: Timestamp,
    ) -> (r: Result<(), AzTradingCompetitionError>)
        requires
            old(self).wf(),
        ensures
            final(self).wf(),
            ({
                let comp = old(self).competitions.m()[id];
                let in_token = path@[0];
                let out_token = path@[path@.len() - 1];
                let in_rec = old(self).competition_token_competitors.m()[(id, in_token, caller)];
                match r {
                    Ok(_) => {
                        &&& old(self).competitions.m().contains_key(id)
                        &&& path@.len() > 0
                        &&& comp.competitors_count >= comp.payout_places
                        &&& comp.start < now <= comp.end
                        &&& old(self).competition_token_competitors.m().contains_key(
                            (id, in_token, caller),
                        )
                        &&& amount_in <= in_rec.amount
                        &&& path_ok(
                            old(self).allowed_pair_token_combinations_mapping.m(),
                            path@,
                        )
                        &&& deadline <= comp.end
                        &&& old(self).competition_token_competitors.m().contains_key(
                            (id, out_token, caller),
                        )
                        &&& exists|out_amount: Balance|
                            out_balance_before(
                                old(self).competition_token_competitors.m(),
                                id,
                                caller,
                                in_token,
                                out_token,
                                amount_in,
                            ) + out_amount <= u128::MAX && final(self).competition_token_competitors.m() == #[trigger] settled_map(
                                old(self).competition_token_competitors.m(),
                                id,
                                caller,
                                in_token,
                                out_token,
                                amount_in,
                                out_amount,
                            )
                        &&& *final(self) == (AzTradingCompetition {
                            competition_token_competitors:
                                final(self).competition_token_competitors,
                            ..*old(self)
                        })
                    },
                    Err(e) => {
                        &&& *final(self) == *old(self)
                        &&& if !old(self).competitions.m().contains_key(id) {
                            is_not_found(e, "Competition"@)
                        } else if path@.len() == 0 {
                            is_unprocessable(e, "Path is empty."@)
                        } else if comp.competitors_count < comp.payout_places {
                            is_unprocessable(e, "Competition is invalid, please deregister."@)
                        } else if now <= comp.start || now > comp.end {
                            is_unprocessable(e, "Competition isn't in progress."@)
                        } else if !old(self).competition_token_competitors.m().contains_key(
                            (id, in_token, caller),
                        ) {
                            is_not_found(e, "CompetitionTokenCompetitor"@)
                        } else if amount_in > in_rec.amount {
                            is_unprocessable(e, "Insufficient balance."@)
                        } else if !path_ok(
                            old(self).allowed_pair_token_combinations_mapping.m(),
                            path@,
                        ) {
                            is_unprocessable(e, "Path is invalid."@)
                        } else if deadline > comp.end {
                            is_unprocessable(e, "Deadline is after competition end."@)
                        } else {
                            ||| e matches AzTradingCompetitionError::RouterError(_)
                            ||| is_not_found(e, "CompetitionTokenCompetitor"@)
                            ||| is_unprocessable(e, "Balance overflow."@)
                        }
                    },
                }
            }),
    {
        let ghost path_view = path@;
        let (start, end, count, places) = match self.competitions.get(&id) {
            Some(c) => (c.start, c.end, c.competitors_count, c.payout_places),
            None => {
                return Err(AzTradingCompetitionError::NotFound("Competition".to_owned()));
            },
        };
        if path.len() == 0 {
            return Err(
                AzTradingCompetitionError::UnprocessableEntity("Path is empty.".to_owned()),
            );
        }
        let in_token = path[0];
        let out_token = path[path.len() - 1];
        if count < places as u32 {
            return Err(
                AzTradingCompetitionError::UnprocessableEntity(
                    "Competition is invalid, please deregister.".to_owned(),
                ),
            );
        }
        if now <= start || now > end {
            return Err(
                AzTradingCompetitionError::UnprocessableEntity(
                    "Competition isn't in progress.".to_owned(),
                ),
            );
        }
        let in_amount_held: Balance = match self.competition_token_competitors.get(
            &(id, in_token, caller),
        ) {
            Some(v) => v.amount,
            None => {
                return Err(
                    AzTradingCompetitionError::NotFound("CompetitionTokenCompetitor".to_owned()),
                );
            },
        };
        if amount_in > in_amount_held {
            return Err(
                AzTradingCompetitionError::UnprocessableEntity("Insufficient balance.".to_owned()),
            );
        }
        let n = path.len();
        let mut k: usize = 1;
        while k < n
            invariant
                self == old(self),
                self.wf(),
                path_view == path@,
                n == path_view.len(),
                1 <= k <= n,
                old(self).competitions.m().contains_key(id),
                start == old(self).competitions.m()[id].start,
                end == old(self).competitions.m()[id].end,
                count == old(self).competitions.m()[id].competitors_count,
                places == old(self).competitions.m()[id].payout_places,
                count >= places,
                start < now <= end,
                in_token == path_view[0],
                out_token == path_view[n - 1],
                old(self).competition_token_competitors.m().contains_key((id, in_token, caller)),
                amount_in <= old(self).competition_token_competitors.m()[(
                    id,
                    in_token,
                    caller,
                )].amount,
                forall|j: int|
                    1 <= j < k ==> edge_in(
                        self.allowed_pair_token_combinations_mapping.m(),
                        path_view[j - 1],
                        #[trigger] path_view[j],
                    ),
            decreases n - k,
        {
            let prev = path[k - 1];
            let tok = path[k];
            let valid: bool = match self.allowed_pair_token_combinations_mapping.get(&prev) {
                Some(to_tokens) => vec_contains_account(to_tokens, tok),
                None => false,
            };
            if !valid {
                proof {
                    assert(!edge_in(
                        self.allowed_pair_token_combinations_mapping.m(),
                        path_view[k - 1],
                        path_view[k as int],
                    ));
                }
                return Err(
                    AzTradingCompetitionError::UnprocessableEntity("Path is invalid.".to_owned()),
                );
            }
            k = k + 1;
        }
        if deadline > end {
            return Err(
                AzTradingCompetitionError::UnprocessableEntity(
                    "Deadline is after competition end.".to_owned(),
                ),
            );
        }
        let result_of_swaps: Vec<Balance> = match collaborators.swap_exact_tokens_for_tokens(
            amount_in,
            amount_out_min,
            path,
            deadline,
        ) {
            Ok(v) => v,
            Err(e) => {
                return Err(AzTradingCompetitionError::RouterError(e));
            },
        };
        if result_of_swaps.len() == 0 {
            return Err(
                AzTradingCompetitionError::RouterError(
                    RouterError::CrossContractCallFailed("empty swap result".to_owned()),
                ),
            );
        }
        let out_amount: Balance = result_of_swaps[result_of_swaps.len() - 1];
        let settled = self.settle_swap(id, caller, in_token, out_token, amount_in, out_amount);
        match settled {
            Ok(()) => Ok(()),
            Err(e) => Err(e),
        }
    }
}

} // verus!
