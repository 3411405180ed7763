use vstd::prelude::*;
use crate::account::AccountId;
use crate::store::{AzTradingCompetition, competition_ok, prize_ok, place_details_ok};
use crate::types::{Balance, Competition, CompetitionJudge, CompetitionPlaceDetail,
    CompetitionTokenCompetitor, CompetitionTokenPrize, Competitor, final_value_ok};

verus! {

/// Direct accessors over the ledger's records: exact map reads and writes,
/// each write keeping the store well formed.
impl AzTradingCompetition {
    pub fn competitions_insert(&mut self, competition: Competition)
        requires
            old(self).wf(),
            competition.payout_structure_numerator_sum
                <= crate::PERCENTAGE_CALCULATION_DENOMINATOR,
            competition.admin_fee_percentage_numerator
                <= crate::DEFAULT_ADMIN_FEE_PERCENTAGE_NUMERATOR,
        ensures
            final(self).wf(),
            final(self).competitions.m() == old(self).competitions.m().insert(
                competition.id,
                competition,
            ),
            *final(self) == (AzTradingCompetition {
                competitions: final(self).competitions,
                ..*old(self)
            }),
    {
        let id = competition.id;
        self.competitions.insert(id, competition);
    }

    pub fn set_competitions_count(&mut self, count: u64)
        requires
            old(self).wf(),
        ensures
            final(self).wf(),
            *final(self) == (AzTradingCompetition { competitions_count: count, ..*old(self) }),
    {
        self.competitions_count = count;
    }

    pub fn competition_judges_get(&self, id: u64, address: AccountId) -> (r: Option<
        CompetitionJudge,
    >)
        requires
            self.wf(),
        ensures
            match r {
                Some(j) => self.competition_judges.m().contains_key((id, address)) && j
                    == self.competition_judges.m()[(id, address)],
                None => !self.competition_judges.m().contains_key((id, address)),
            },
    {
        match self.competition_judges.get(&(id, address)) {
            Some(j) => Some(*j),
            None => None,
        }
    }

    pub fn competition_judges_insert(&mut self, id: u64, address: AccountId, judge: CompetitionJudge)
        requires
            old(self).wf(),
        ensures
            final(self).wf(),
            final(self).competition_judges.m() == old(self).competition_judges.m().insert(
                (id, address),
                judge,
            ),
            *final(self) == (AzTradingCompetition {
                competition_judges: final(self).competition_judges,
                ..*old(self)
            }),
    {
        self.competition_judges.insert((id, address), judge);
    }

    pub fn competition_judges_remove(&mut self, id: u64, address: AccountId)
        requires
            old(self).wf(),
        ensures
            final(self).wf(),
            final(self).competition_judges.m() == old(self).competition_judges.m().remove(
                (id, address),
            ),
            *final(self) == (AzTradingCompetition {
                competition_judges: final(self).competition_judges,
                ..*old(self)
            }),
    {
        self.competition_judges.remove(&(id, address));
    }

    pub fn competition_payout_structure_numerators_get(&self, id: u64, position: u16) -> (r:
        Option<u16>)
        requires
            self.wf(),
        ensures
            match r {
                Some(n) => self.competition_payout_structure_numerators.m().contains_key(
                    (id, position),
                ) && n == self.competition_payout_structure_numerators.m()[(id, position)],
                None => !self.competition_payout_structure_numerators.m().contains_key(
                    (id, position),
                ),
            },
    {
        match self.competition_payout_structure_numerators.get(&(id, position)) {
            Some(n) => Some(*n),
            None => None,
        }
    }

    pub fn competition_place_details_get(&self, id: u64) -> (r: Option<Vec<CompetitionPlaceDetail>>)
        requires
            self.wf(),
        ensures
            match r {
                Some(v) => self.competition_place_details.m().contains_key(id) && v@
                    == self.competition_place_details.m()[id]@,
                None => !self.competition_place_details.m().contains_key(id),
            },
    {
        match self.competition_place_details.get(&id) {
            Some(v) => Some(clone_place_details(v)),
            None => None,
        }
    }

    pub fn competition_place_details_insert(&mut self, id: u64, details: Vec<CompetitionPlaceDetail>)
        requires
            old(self).wf(),
            place_details_ok(details@),
        ensures
            final(self).wf(),
            final(self).competition_place_details.m() == old(
                self,
            ).competition_place_details.m().insert(id, details),
            *final(self) == (AzTradingCompetition {
                competition_place_details: final(self).competition_place_details,
                ..*old(self)
            }),
    {
        self.competition_place_details.insert(id, details);
    }

    pub fn competition_token_prices_get(&self, id: u64, token: AccountId) -> (r: Option<Balance>)
        requires
            self.wf(),
        ensures
            match r {
                Some(p) => self.competition_token_prices.m().contains_key((id, token)) && p
                    == self.competition_token_prices.m()[(id, token)],
                None => !self.competition_token_prices.m().contains_key((id, token)),
            },
    {
        match self.competition_token_prices.get(&(id, token)) {
            Some(p) => Some(*p),
            None => None,
        }
    }

    pub fn competition_token_prices_insert(&mut self, id: u64, token: AccountId, price: Balance)
        requires
            old(self).wf(),
        ensures
            final(self).wf(),
            final(self).competition_token_prices.m() == old(self).competition_token_prices.m().insert(
                (id, token),
                price,
            ),
            *final(self) == (AzTradingCompetition {
                competition_token_prices: final(self).competition_token_prices,
                ..*old(self)
            }),
    {
        self.competition_token_prices.insert((id, token), price);
    }

    pub fn competition_token_prizes_insert(
        &mut self,
        id: u64,
        token: AccountId,
        prize: CompetitionTokenPrize,
    )
        requires
            old(self).wf(),
            prize.collected <= prize.amount,
        ensures
            final(self).wf(),
            final(self).competition_token_prizes.m() == old(self).competition_token_prizes.m().insert(
                (id, token),
                prize,
            ),
            *final(self) == (AzTradingCompetition {
                competition_token_prizes: final(self).competition_token_prizes,
                ..*old(self)
            }),
    {
        self.competition_token_prizes.insert((id, token), prize);
    }

    pub fn competition_token_competitors_insert(
        &mut self,
        id: u64,
        token: AccountId,
        competitor_address: AccountId,
        record: CompetitionTokenCompetitor,
    )
        requires
            old(self).wf(),
        ensures
            final(self).wf(),
            final(self).competition_token_competitors.m() == old(
                self,
            ).competition_token_competitors.m().insert((id, token, competitor_address), record),
            *final(self) == (AzTradingCompetition {
                competition_token_competitors: final(self).competition_token_competitors,
                ..*old(self)
            }),
    {
        self.competition_token_competitors.insert((id, token, competitor_address), record);
    }

    pub fn competition_token_competitors_remove(
        &mut self,
        id: u64,
        token: AccountId,
        competitor_address: AccountId,
    )
        requires
            old(self).wf(),
        ensures
            final(self).wf(),
            final(self).competition_token_competitors.m() == old(
                self,
            ).competition_token_competitors.m().remove((id, token, competitor_address)),
            *final(self) == (AzTradingCompetition {
                competition_token_competitors: final(self).competition_token_competitors,
                ..*old(self)
            }),
    {
        self.competition_token_competitors.remove(&(id, token, competitor_address));
    }

    pub fn competitors_insert(&mut self, id: u64, competitor_address: AccountId, competitor: Competitor)
        requires
            old(self).wf(),
            final_value_ok(competitor.final_value),
        ensures
            final(self).wf(),
            final(self).competitors.m() == old(self).competitors.m().insert(
                (id, competitor_address),
                competitor,
            ),
            *final(self) == (AzTradingCompetition {
                competitors: final(self).competitors,
                ..*old(self)
            }),
    {
        self.competitors.insert((id, competitor_address), competitor);
    }

    pub fn competitors_remove(&mut self, id: u64, competitor_address: AccountId)
        requires
            old(self).wf(),
        ensures
            final(self).wf(),
            final(self).competitors.m() == old(self).competitors.m().remove(
                (id, competitor_address),
            ),
            *final(self) == (AzTradingCompetition {
                competitors: final(self).competitors,
                ..*old(self)
            }),
    {
        self.competitors.remove(&(id, competitor_address));
    }
}

pub(crate) fn clone_place_details(v: &Vec<CompetitionPlaceDetail>) -> (r: Vec<
    CompetitionPlaceDetail,
>)
    ensures
        r@ == v@,
{
    let mut r: Vec<CompetitionPlaceDetail> = Vec::new();
    let n = v.len();
    let mut i: usize = 0;
    while i < n
        invariant
            n == v@.len(),
            0 <= i <= n,
            r@ == v@.take(i as int),
        decreases n - i,
    {
        r.push(v[i].clone());
        proof {
            assert(r@ =~= v@.take(i + 1));
        }
        i = i + 1;
    }
    proof {
        assert(v@.take(n as int) =~= v@);
    }
    r
}

} // verus!
