use vstd::prelude::*;
use crate::account::AccountId;
use crate::errors::AzTradingCompetitionError;
use crate::types::{Balance, Timestamp, Competition, CompetitionJudge, CompetitionPlaceDetail,
    CompetitionTokenCompetitor, CompetitionTokenPrize, Competitor, Config, competition_eqv,
    final_value_ok, place_detail_ok};
use crate::vecmap::VecMap;
use crate::{DEFAULT_ADMIN_FEE_PERCENTAGE_NUMERATOR, MINIMUM_DURATION,
    PERCENTAGE_CALCULATION_DENOMINATOR};

verus! {

pub open spec fn is_not_found(e: AzTradingCompetitionError, name: Seq<char>) -> bool {
    match e {
        AzTradingCompetitionError::NotFound(s) => s@ == name,
        _ => false,
    }
}

pub open spec fn is_unprocessable(e: AzTradingCompetitionError, msg: Seq<char>) -> bool {
    match e {
        AzTradingCompetitionError::UnprocessableEntity(s) => s@ == msg,
        _ => false,
    }
}

/// The token each price symbol stands for; a later entry overrides an
/// earlier one with the same symbol.
pub open spec fn tokens_by_symbol(s: Seq<(AccountId, String)>) -> Map<Seq<char>, AccountId>
    decreases s.len(),
{
    if s.len() == 0 {
        Map::empty()
    } else {
        tokens_by_symbol(s.drop_last()).insert(s.last().1@, s.last().0)
    }
}

/// The price symbol of each token; a later entry overrides an earlier one.
pub open spec fn symbols_by_token(s: Seq<(AccountId, String)>) -> Map<AccountId, String>
    decreases s.len(),
{
    if s.len() == 0 {
        Map::empty()
    } else {
        symbols_by_token(s.drop_last()).insert(s.last().0, s.last().1)
    }
}

pub open spec fn token_has_symbol(s: Seq<(AccountId, String)>, t: AccountId) -> bool {
    exists|i: int| 0 <= i < s.len() && s[i].0 == t
}

/// The adjacency map holds an edge from `s` to `t`.
pub open spec fn edge_in(m: Map<AccountId, Vec<AccountId>>, s: AccountId, t: AccountId) -> bool {
    m.contains_key(s) && m[s]@.contains(t)
}

/// The configured pair list holds `(a, b)` in either direction.
pub open spec fn pair_listed(
    pairs: Seq<(AccountId, AccountId)>,
    a: AccountId,
    b: AccountId,
) -> bool {
    exists|i: int| 0 <= i < pairs.len() && ((#[trigger] pairs[i]) == (a, b) || pairs[i] == (b, a))
}

/// The adjacency map holds edge `(a, b)` exactly when the configured pair
/// list holds it in either direction.
pub open spec fn adjacency_matches(
    m: Map<AccountId, Vec<AccountId>>,
    pairs: Seq<(AccountId, AccountId)>,
) -> bool {
    forall|a: AccountId, b: AccountId| #![trigger edge_in(m, a, b)] #![trigger pair_listed(pairs, a, b)]
        edge_in(m, a, b) <==> pair_listed(pairs, a, b)
}

pub open spec fn competition_ok(id: u64, c: Competition) -> bool {
    &&& c.id == id
    &&& c.payout_structure_numerator_sum <= PERCENTAGE_CALCULATION_DENOMINATOR
    &&& c.admin_fee_percentage_numerator <= DEFAULT_ADMIN_FEE_PERCENTAGE_NUMERATOR
}

pub open spec fn prize_ok(p: CompetitionTokenPrize) -> bool {
    p.collected <= p.amount
}

pub open spec fn place_details_ok(s: Seq<CompetitionPlaceDetail>) -> bool {
    forall|i: int| 0 <= i < s.len() ==> place_detail_ok(#[trigger] s[i])
}

/// The trading-competition ledger: every record the settlement and ranking
/// core reads or writes, keyed as in the host contract's storage.
pub struct AzTradingCompetition {
    pub admin: AccountId,
    pub allowed_pair_token_combinations_mapping: VecMap<AccountId, Vec<AccountId>>,
    pub allowed_pair_token_combinations_vec: Vec<(AccountId, AccountId)>,
    pub competition_judges: VecMap<(u64, AccountId), CompetitionJudge>,
    pub competition_payout_structure_numerators: VecMap<(u64, u16), u16>,
    pub competition_place_details: VecMap<u64, Vec<CompetitionPlaceDetail>>,
    pub competition_token_prices: VecMap<(u64, AccountId), Balance>,
    pub competition_token_prizes: VecMap<(u64, AccountId), CompetitionTokenPrize>,
    pub competition_token_competitors: VecMap<
        (u64, AccountId, AccountId),
        CompetitionTokenCompetitor,
    >,
    pub competitors: VecMap<(u64, AccountId), Competitor>,
    pub competitions: VecMap<u64, Competition>,
    pub competitions_count: u64,
    pub default_azero_processing_fee: Balance,
    pub dia: AccountId,
    pub dia_price_symbol_tokens_mapping: VecMap<String, AccountId>,
    pub router: AccountId,
    pub token_dia_price_symbols_mapping: VecMap<AccountId, String>,
    pub token_dia_price_symbols_vec: Vec<(AccountId, String)>,
}

impl AzTradingCompetition {
    /// Every record the store holds is internally consistent: unique keys,
    /// competitions stored under their own id with a payout-numerator sum
    /// within the denominator, prize pools never over-collected, final
    /// values and placement groups parsable.
    pub open spec fn wf(self) -> bool {
        &&& self.allowed_pair_token_combinations_mapping.wf()
        &&& self.competition_judges.wf()
        &&& self.competition_payout_structure_numerators.wf()
        &&& self.competition_place_details.wf()
        &&& self.competition_token_prices.wf()
        &&& self.competition_token_prizes.wf()
        &&& self.competition_token_competitors.wf()
        &&& self.competitors.wf()
        &&& self.competitions.wf()
        &&& self.dia_price_symbol_tokens_mapping.wf()
        &&& self.token_dia_price_symbols_mapping.wf()
        &&& forall|id: u64|
            self.competitions.m().contains_key(id) ==> competition_ok(
                id,
                #[trigger] self.competitions.m()[id],
            )
        &&& forall|k: (u64, AccountId)|
            self.competitors.m().contains_key(k) ==> final_value_ok(
                (#[trigger] self.competitors.m()[k]).final_value,
            )
        &&& forall|k: (u64, AccountId)|
            self.competition_token_prizes.m().contains_key(k) ==> prize_ok(
                #[trigger] self.competition_token_prizes.m()[k],
            )
        &&& forall|id: u64|
            self.competition_place_details.m().contains_key(id) ==> place_details_ok(
                (#[trigger] self.competition_place_details.m()[id])@,
            )
    }

    // === QUERIES ===
    pub fn competitions_show(&self, id: u64) -> (r: Result<Competition, AzTradingCompetitionError>)
        requires
            self.wf(),
        ensures
            match r {
                Ok(c) => self.competitions.m().contains_key(id) && competition_eqv(
                    c,
                    self.competitions.m()[id],
                ),
                Err(e) => !self.competitions.m().contains_key(id) && is_not_found(
                    e,
                    "Competition"@,
                ),
            },
    {
        match self.competitions.get(&id) {
            Some(c) => Ok(c.clone()),
            None => Err(AzTradingCompetitionError::NotFound("Competition".to_owned())),
        }
    }

    pub fn competition_place_details_show(&self, id: u64, index: u32) -> (r: Result<
        CompetitionPlaceDetail,
        AzTradingCompetitionError,
    >)
        requires
            self.wf(),
        ensures
            match r {
                Ok(d) => self.competition_place_details.m().contains_key(id) && index
                    < self.competition_place_details.m()[id]@.len() && d
                    == self.competition_place_details.m()[id]@[index as int],
                Err(e) => is_not_found(e, "CompetitionPlaceDetail"@) && (
                !self.competition_place_details.m().contains_key(id)
                    || index >= self.competition_place_details.m()[id]@.len()),
            },
    {
        match self.competition_place_details.get(&id) {
            Some(v) => {
                if (index as usize) < v.len() {
                    Ok(v[index as usize].clone())
                } else {
                    Err(
                        AzTradingCompetitionError::NotFound("CompetitionPlaceDetail".to_owned()),
                    )
                }
            },
            None => Err(AzTradingCompetitionError::NotFound("CompetitionPlaceDetail".to_owned())),
        }
    }

    pub fn competition_token_competitors_show(
        &self,
        id: u64,
        token: AccountId,
        competitor_address: AccountId,
    ) -> (r: Result<CompetitionTokenCompetitor, AzTradingCompetitionError>)
        requires
            self.wf(),
        ensures
            match r {
                Ok(v) => self.competition_token_competitors.m().contains_key(
                    (id, token, competitor_address),
                ) && v == self.competition_token_competitors.m()[(id, token, competitor_address)],
                Err(e) => !self.competition_token_competitors.m().contains_key(
                    (id, token, competitor_address),
                ) && is_not_found(e, "CompetitionTokenCompetitor"@),
            },
    {
        match self.competition_token_competitors.get(&(id, token, competitor_address)) {
            Some(v) => Ok(*v),
            None => Err(
                AzTradingCompetitionError::NotFound("CompetitionTokenCompetitor".to_owned()),
            ),
        }
    }

    pub fn competition_token_prizes_show(&self, id: u64, token: AccountId) -> (r: Result<
        CompetitionTokenPrize,
        AzTradingCompetitionError,
    >)
        requires
            self.wf(),
        ensures
            match r {
                Ok(v) => self.competition_token_prizes.m().contains_key((id, token)) && v
                    == self.competition_token_prizes.m()[(id, token)],
                Err(e) => !self.competition_token_prizes.m().contains_key((id, token))
                    && is_not_found(e, "CompetitionTokenPrize"@),
            },
    {
        match self.competition_token_prizes.get(&(id, token)) {
            Some(v) => Ok(*v),
            None => Err(AzTradingCompetitionError::NotFound("CompetitionTokenPrize".to_owned())),
        }
    }

    pub fn competitors_show(&self, id: u64, competitor_address: AccountId) -> (r: Result<
        Competitor,
        AzTradingCompetitionError,
    >)
        requires
            self.wf(),
        ensures
            match r {
                Ok(c) => self.competitors.m().contains_key((id, competitor_address)) && c
                    == self.competitors.m()[(id, competitor_address)],
                Err(e) => !self.competitors.m().contains_key((id, competitor_address))
                    && is_not_found(e, "Competitor"@),
            },
    {
        match self.competitors.get(&(id, competitor_address)) {
            Some(c) => Ok(c.clone()),
            None => Err(AzTradingCompetitionError::NotFound("Competitor".to_owned())),
        }
    }

    pub fn config(&self) -> (r: Config)
        ensures
            r.admin == self.admin,
            r.allowed_pair_token_combinations_vec@ == self.allowed_pair_token_combinations_vec@,
            r.competitions_count == self.competitions_count,
            r.default_admin_fee_percentage_numerator == DEFAULT_ADMIN_FEE_PERCENTAGE_NUMERATOR,
            r.default_azero_processing_fee == self.default_azero_processing_fee,
            r.dia == self.dia,
            r.minimum_duration == MINIMUM_DURATION,
            r.percentage_calculation_denominator == PERCENTAGE_CALCULATION_DENOMINATOR,
            r.router == self.router,
            r.token_dia_price_symbols_vec@ == self.token_dia_price_symbols_vec@,
    {
        Config {
            admin: self.admin,
            allowed_pair_token_combinations_vec: clone_pairs(
                &self.allowed_pair_token_combinations_vec,
            ),
            competitions_count: self.competitions_count,
            default_admin_fee_percentage_numerator: DEFAULT_ADMIN_FEE_PERCENTAGE_NUMERATOR,
            default_azero_processing_fee: self.default_azero_processing_fee,
            dia: self.dia,
            minimum_duration: MINIMUM_DURATION,
            percentage_calculation_denominator: PERCENTAGE_CALCULATION_DENOMINATOR,
            router: self.router,
            token_dia_price_symbols_vec: clone_symbol_pairs(&self.token_dia_price_symbols_vec),
        }
    }

    /// A future escape hatch: after a long quiet period, stranded funds
    /// are to be swept back to their owners token by token. Not active
    /// yet: the call changes nothing and reports success.
    pub fn emergency_rescue(&mut self, id: u64, token: AccountId) -> (r: Result<
        (),
        AzTradingCompetitionError,
    >)
        requires
            old(self).wf(),
        ensures
            final(self).wf(),
            *final(self) == *old(self),
            r is Ok,
    {
        let _ = id;
        let _ = token;
        Ok(())
    }

    // === VALIDATORS ===
    pub(crate) fn authorise(allowed: AccountId, received: AccountId) -> (r: Result<
        (),
        AzTradingCompetitionError,
    >)
        ensures
            allowed == received ==> r is Ok,
            allowed != received ==> r == Err::<(), _>(AzTradingCompetitionError::Unauthorised),
    {
        if allowed.hi != received.hi || allowed.lo != received.lo {
            return Err(AzTradingCompetitionError::Unauthorised);
        }
        Ok(())
    }

    pub(crate) fn validate_all_competitors_have_not_been_placed(competition: &Competition) -> (r:
        Result<(), AzTradingCompetitionError>)
        ensures
            match r {
                Ok(_) => competition.competitors_placed_count != competition.competitors_count,
                Err(e) => competition.competitors_placed_count == competition.competitors_count
                    && is_unprocessable(e, "All competitors have been placed."@),
            },
    {
        if competition.competitors_placed_count == competition.competitors_count {
            return Err(
                AzTradingCompetitionError::UnprocessableEntity(
                    "All competitors have been placed.".to_owned(),
                ),
            );
        }
        Ok(())
    }

    pub(crate) fn validate_competition_has_ended(competition: &Competition, now: Timestamp) -> (r:
        Result<(), AzTradingCompetitionError>)
        ensures
            match r {
                Ok(_) => now > competition.end,
                Err(e) => now <= competition.end && is_unprocessable(
                    e,
                    "Competition hasn't ended."@,
                ),
            },
    {
        if now <= competition.end {
            return Err(
                AzTradingCompetitionError::UnprocessableEntity(
                    "Competition hasn't ended.".to_owned(),
                ),
            );
        }
        Ok(())
    }

    pub(crate) fn validate_competition_has_not_started(start: Timestamp, now: Timestamp) -> (r:
        Result<(), AzTradingCompetitionError>)
        ensures
            match r {
                Ok(_) => now < start,
                Err(e) => now >= start && is_unprocessable(e, "Competition has started"@),
            },
    {
        if now >= start {
            return Err(
                AzTradingCompetitionError::UnprocessableEntity(
                    "Competition has started".to_owned(),
                ),
            );
        }
        Ok(())
    }

    pub(crate) fn validate_competition_has_started(start: Timestamp, now: Timestamp) -> (r: Result<
        (),
        AzTradingCompetitionError,
    >)
        ensures
            match r {
                Ok(_) => now >= start,
                Err(e) => now < start && is_unprocessable(e, "Competition hasn't started"@),
            },
    {
        if now < start {
            return Err(
                AzTradingCompetitionError::UnprocessableEntity(
                    "Competition hasn't started".to_owned(),
                ),
            );
        }
        Ok(())
    }

    /// The trading window is strictly after the start and at or before the
    /// end.
    pub(crate) fn validate_competition_is_in_progress(competition: &Competition, now: Timestamp)
        -> (r: Result<(), AzTradingCompetitionError>)
        ensures
            match r {
                Ok(_) => competition.start < now <= competition.end,
                Err(e) => (now <= competition.start || now > competition.end) && is_unprocessable(
                    e,
                    "Competition isn't in progress."@,
                ),
            },
    {
        if now <= competition.start || now > competition.end {
            return Err(
                AzTradingCompetitionError::UnprocessableEntity(
                    "Competition isn't in progress.".to_owned(),
                ),
            );
        }
        Ok(())
    }
}

pub(crate) fn clone_pairs(v: &Vec<(AccountId, AccountId)>) -> (r: Vec<(AccountId, AccountId)>)
    ensures
        r@ == v@,
{
    let mut r: Vec<(AccountId, AccountId)> = Vec::new();
    let n = v.len();
    let mut i: usize = 0;
    while i < n
        invariant
            n == v@.len(),
            0 <= i <= n,
            r@ == v@.take(i as int),
        decreases n - i,
    {
        r.push(v[i]);
        proof {
            assert(r@ =~= v@.take(i + 1));
        }
        i = i + 1;
    }
    proof {
        assert(v@.take(n as int) =~= v@);
    }
    r
}

pub(crate) fn clone_symbol_pairs(v: &Vec<(AccountId, String)>) -> (r: Vec<(AccountId, String)>)
    ensures
        r@ == v@,
{
    let mut r: Vec<(AccountId, String)> = Vec::new();
    let n = v.len();
    let mut i: usize = 0;
    while i < n
        invariant
            n == v@.len(),
            0 <= i <= n,
            r@ == v@.take(i as int),
        decreases n - i,
    {
        let pair = &v[i];
        r.push((pair.0, pair.1.clone()));
        proof {
            assert(r@ =~= v@.take(i + 1));
        }
        i = i + 1;
    }
    proof {
        assert(v@.take(n as int) =~= v@);
    }
    r
}


} // verus!
