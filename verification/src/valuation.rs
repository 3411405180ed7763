use vstd::prelude::*;
use crate::account::AccountId;
use crate::errors::AzTradingCompetitionError;
use crate::placement::sat_inc_u32;
use crate::store::{AzTradingCompetition, is_not_found, is_unprocessable};
use crate::traits::Collaborators;
use crate::types::{Balance, Timestamp, Competition, CompetitionTokenCompetitor,
    CompetitionTokenPrize, Competitor};
use crate::vecmap::VecMap;
use crate::wide::{dec_str, two_pow_256, wide_val, u256_checked_add, u256_mul, u256_to_dec_string,
    mul_frac, lemma_dec_str_value};
use crate::{FINAL_VALUE_UPDATE_FEE_PERCENTAGE_NUMERATOR, PERCENTAGE_CALCULATION_DENOMINATOR};

verus! {

/// The price symbol at one oracle slot.
pub open spec fn symbol_at(i: int) -> Seq<char> {
    if i == 0 {
        "AZERO/USD"@
    } else if i == 1 {
        "ETH/USD"@
    } else if i == 2 {
        "USDC/USD"@
    } else {
        "USDT/USD"@
    }
}

/// The oracle symbols, in their fixed order.
pub(crate) fn valid_dia_price_symbols() -> (r: Vec<String>)
    ensures
        r@.len() == 4,
        forall|i: int| 0 <= i < 4 ==> (#[trigger] r@[i])@ == symbol_at(i),
{
    let mut v: Vec<String> = Vec::new();
    v.push("AZERO/USD".to_owned());
    v.push("ETH/USD".to_owned());
    v.push("USDC/USD".to_owned());
    v.push("USDT/USD".to_owned());
    v
}

/// How many oracle slots a snapshot walk covers: at most the four known
/// symbols, fewer when the oracle answered with fewer entries.
pub open spec fn price_slots(prices: Seq<Option<(Timestamp, Balance)>>) -> int {
    if prices.len() < 4 {
        prices.len() as int
    } else {
        4
    }
}

/// The outcome of storing a price snapshot.
pub enum PricesScan {
    Unavailable,
    UnknownToken,
    Done { stored: Map<(u64, AccountId), Balance>, listed: Seq<(Timestamp, Balance)> },
}

/// Walks the oracle's answers in slot order: any missing price aborts the
/// snapshot, and each present price is recorded against its symbol's token.
pub open spec fn prices_scan(
    toks: Map<Seq<char>, AccountId>,
    id: u64,
    prices: Seq<Option<(Timestamp, Balance)>>,
    i: int,
    m: Map<(u64, AccountId), Balance>,
    listed: Seq<(Timestamp, Balance)>,
) -> PricesScan
    decreases price_slots(prices) - i,
{
    if i < 0 || i >= price_slots(prices) {
        PricesScan::Done { stored: m, listed }
    } else {
        match prices[i] {
            None => PricesScan::Unavailable,
            Some(pd) => {
                if !toks.contains_key(symbol_at(i)) {
                    PricesScan::UnknownToken
                } else {
                    prices_scan(
                        toks,
                        id,
                        prices,
                        i + 1,
                        m.insert((id, toks[symbol_at(i)]), pd.1),
                        listed.push(pd),
                    )
                }
            },
        }
    }
}

/// What one price-snapshot call does to the ledger, given the oracle's
/// answer `prices`.
pub open spec fn token_prices_outcome(
    pre: AzTradingCompetition,
    post: AzTradingCompetition,
    r: Result<(), AzTradingCompetitionError>,
    id: u64,
    now: Timestamp,
    prices: Seq<Option<(Timestamp, Balance)>>,
) -> bool {
    let comp = pre.competitions.m()[id];
    let scan = prices_scan(
        pre.dia_price_symbol_tokens_mapping.m(),
        id,
        prices,
        0,
        pre.competition_token_prices.m(),
        Seq::empty(),
    );
    match r {
        Ok(_) => {
            &&& pre.competitions.m().contains_key(id)
            &&& now > comp.end
            &&& comp.token_prices_vec@.len() == 0
            &&& scan matches PricesScan::Done { stored, listed } && post.competition_token_prices.m()
                == stored && post.competitions.m().contains_key(id) && ({
                let c2 = post.competitions.m()[id];
                c2 == (Competition { token_prices_vec: c2.token_prices_vec, ..comp })
                    && c2.token_prices_vec@ == listed && post.competitions.m()
                    == pre.competitions.m().insert(id, c2)
            })
            &&& post == (AzTradingCompetition {
                competition_token_prices: post.competition_token_prices,
                competitions: post.competitions,
                ..pre
            })
        },
        Err(e) => {
            &&& post == pre
            &&& if !pre.competitions.m().contains_key(id) {
                is_not_found(e, "Competition"@)
            } else if now <= comp.end {
                is_unprocessable(e, "Competition hasn't ended."@)
            } else if comp.token_prices_vec@.len() > 0 {
                is_unprocessable(e, "Token prices for competition already set."@)
            } else {
                match scan {
                    PricesScan::Unavailable => is_unprocessable(
                        e,
                        "Price details from DIA unavailable."@,
                    ),
                    PricesScan::UnknownToken => is_not_found(e, "Token"@),
                    PricesScan::Done { .. } => false,
                }
            }
        },
    }
}

impl AzTradingCompetition {
    /// Asks the oracle collaborator for the latest price of every known
    /// symbol; one optional answer per symbol, in the fixed order.
    pub fn get_latest_prices_from_dia<C: Collaborators>(&self, collaborators: &mut C) -> Vec<
        Option<(Timestamp, Balance)>,
    > {
        let symbols = valid_dia_price_symbols();
        collaborators.get_latest_prices(symbols)
    }

    /// Stores one oracle answer as the competition's one-time price
    /// snapshot: all or nothing, only after the end, only once.
    pub fn competition_token_prices_store(
        &mut self,
        id: u64,
        prices: Vec<Option<(Timestamp, Balance)>>,
        now: Timestamp,
    ) -> (r: Result<(), AzTradingCompetitionError>)
        requires
            old(self).wf(),
        ensures
            final(self).wf(),
            token_prices_outcome(*old(self), *final(self), r, id, now, prices@),
    {
        let ghost pvs = prices@;
        let ghost toks = self.dia_price_symbol_tokens_mapping.m();
        let ghost m0 = self.competition_token_prices.m();
        let (end, listed_len) = match self.competitions.get(&id) {
            Some(c) => (c.end, c.token_prices_vec.len()),
            None => {
                return Err(AzTradingCompetitionError::NotFound("Competition".to_owned()));
            },
        };
        if now <= end {
            return Err(
                AzTradingCompetitionError::UnprocessableEntity(
                    "Competition hasn't ended.".to_owned(),
                ),
            );
        }
        if listed_len > 0 {
            return Err(
                AzTradingCompetitionError::UnprocessableEntity(
                    "Token prices for competition already set.".to_owned(),
                ),
            );
        }
        let symbols = valid_dia_price_symbols();
        let slots: usize = if prices.len() < 4 {
            prices.len()
        } else {
            4
        };
        let mut listed: Vec<(Timestamp, Balance)> = Vec::new();
        let mut stored: Vec<(AccountId, Balance)> = Vec::new();
        let mut i: usize = 0;
        while i < slots
            invariant
                self == old(self),
                self.wf(),
                pvs == prices@,
                toks == self.dia_price_symbol_tokens_mapping.m(),
                m0 == self.competition_token_prices.m(),
                old(self).competitions.m().contains_key(id),
                now > old(self).competitions.m()[id].end,
                old(self).competitions.m()[id].token_prices_vec@.len() == 0,
                slots == price_slots(pvs),
                0 <= i <= slots,
                symbols@.len() == 4,
                forall|j: int| 0 <= j < 4 ==> (#[trigger] symbols@[j])@ == symbol_at(j),
                stored@.len() == i,
                snapshot_prefix_ok(pvs, toks, stored@, i as int),
                listed@.len() == i,
                forall|j: int| 0 <= j < i ==> (#[trigger] listed@[j]) == pvs[j]->0,
                prices_scan(toks, id, pvs, 0, m0, Seq::empty()) == prices_scan(
                    toks,
                    id,
                    pvs,
                    i as int,
                    store_fold(m0, id, stored@),
                    listed@,
                ),
            decreases slots - i,
        {
            let ghost stored_pre = stored@;
            let ghost listed_pre = listed@;
            let pd: (Timestamp, Balance) = match prices[i] {
                Some(p) => p,
                None => {
                    return Err(
                        AzTradingCompetitionError::UnprocessableEntity(
                            "Price details from DIA unavailable.".to_owned(),
                        ),
                    );
                },
            };
            let token: AccountId = match self.dia_price_symbol_tokens_mapping.get(&symbols[i]) {
                Some(t) => *t,
                None => {
                    return Err(AzTradingCompetitionError::NotFound("Token".to_owned()));
                },
            };
            listed.push(pd);
            stored.push((token, pd.1));
            proof {
                assert(stored@.drop_last() =~= stored_pre);
                assert(stored@.last() == (token, pd.1));
                assert(store_fold(m0, id, stored@) == store_fold(m0, id, stored_pre).insert(
                    (id, token),
                    pd.1,
                ));
                assert(pvs[i as int] matches Some(x) && x == pd);
                assert(toks.contains_key(symbol_at(i as int)) && toks[symbol_at(i as int)]
                    == token);
                lemma_snapshot_prefix_push(pvs, toks, stored_pre, i as int, token, pd.1);
                assert(stored@ == stored_pre.push((token, pd.1)));
                assert(snapshot_prefix_ok(pvs, toks, stored@, i + 1));
                assert(prices_scan(toks, id, pvs, i as int, store_fold(m0, id, stored_pre), listed_pre)
                    == prices_scan(toks, id, pvs, i + 1, store_fold(m0, id, stored@), listed@));
            }
            i = i + 1;
        }
        let mut competition = match self.competitions.take(&id) {
            Some(c) => c,
            None => {
                proof {
                    assert(false);
                }
                return Err(AzTradingCompetitionError::NotFound("Competition".to_owned()));
            },
        };
        competition.token_prices_vec = listed;
        let ghost stored_comp = competition;
        self.competitions.insert(id, competition);
        let ghost comps_after = self.competitions;
        let n = stored.len();
        let mut j: usize = 0;
        while j < n
            invariant
                n == stored@.len(),
                0 <= j <= n,
                self.wf(),
                self.competition_token_prices.m() == store_fold(m0, id, stored@.take(j as int)),
                *self == (AzTradingCompetition {
                    competition_token_prices: self.competition_token_prices,
                    competitions: self.competitions,
                    ..*old(self)
                }),
                self.competitions == comps_after,
                comps_after.m() == old(self).competitions.m().remove(id).insert(id, stored_comp),
            decreases n - j,
        {
            let entry = stored[j];
            self.competition_token_prices.insert((id, entry.0), entry.1);
            proof {
                assert(stored@.take(j + 1).drop_last() =~= stored@.take(j as int));
            }
            j = j + 1;
        }
        proof {
            assert(stored@.take(n as int) =~= stored@);
            assert(self.competitions.m() =~= old(self).competitions.m().insert(id, stored_comp));
        }
        Ok(())
    }

    /// Takes a fresh snapshot from the oracle collaborator and stores it.
    pub fn competition_token_prices_update<C: Collaborators>(
        &mut self,
        collaborators: &mut C,
        id: u64,
        now: Timestamp,
    ) -> (r: Result<(), AzTradingCompetitionError>)
        requires
            old(self).wf(),
        ensures
            final(self).wf(),
            exists|ps: Seq<Option<(Timestamp, Balance)>>|
                #[trigger] token_prices_outcome(*old(self), *final(self), r, id, now, ps),
    {
        let ghost empty = Seq::<Option<(Timestamp, Balance)>>::empty();
        match self.competitions.get(&id) {
            Some(c) => {
                if now <= c.end {
                    let err: Result<(), AzTradingCompetitionError> = Err(
                        AzTradingCompetitionError::UnprocessableEntity(
                            "Competition hasn't ended.".to_owned(),
                        ),
                    );
                    proof {
                        assert(token_prices_outcome(*old(self), *self, err, id, now, empty));
                    }
                    return err;
                }
                if c.token_prices_vec.len() > 0 {
                    let err: Result<(), AzTradingCompetitionError> = Err(
                        AzTradingCompetitionError::UnprocessableEntity(
                            "Token prices for competition already set.".to_owned(),
                        ),
                    );
                    proof {
                        assert(token_prices_outcome(*old(self), *self, err, id, now, empty));
                    }
                    return err;
                }
            },
            None => {
                let err: Result<(), AzTradingCompetitionError> = Err(
                    AzTradingCompetitionError::NotFound("Competition".to_owned()),
                );
                proof {
                    assert(token_prices_outcome(*old(self), *self, err, id, now, empty));
                }
                return err;
            },
        }
        let prices = self.get_latest_prices_from_dia(collaborators);
        let ghost ps = prices@;
        let r = self.competition_token_prices_store(id, prices, now);
        proof {
            assert(token_prices_outcome(*old(self), *self, r, id, now, ps));
        }
        r
    }
}

/// Each recorded pair up to `upto` matches its oracle slot: the slot's
/// price was present and the pair names the slot symbol's token.
pub open spec fn snapshot_prefix_ok(
    pvs: Seq<Option<(Timestamp, Balance)>>,
    toks: Map<Seq<char>, AccountId>,
    stored: Seq<(AccountId, Balance)>,
    upto: int,
) -> bool {
    forall|j: int|
        0 <= j < upto ==> (#[trigger] pvs[j] matches Some(pd) && toks.contains_key(symbol_at(j))
            && stored[j] == (toks[symbol_at(j)], pd.1))
}

pub proof fn lemma_snapshot_prefix_push(
    pvs: Seq<Option<(Timestamp, Balance)>>,
    toks: Map<Seq<char>, AccountId>,
    stored: Seq<(AccountId, Balance)>,
    i: int,
    token: AccountId,
    price: Balance,
)
    requires
        snapshot_prefix_ok(pvs, toks, stored, i),
        stored.len() == i,
        0 <= i,
        pvs[i] is Some,
        (pvs[i]->0).1 == price,
        toks.contains_key(symbol_at(i)),
        toks[symbol_at(i)] == token,
    ensures
        snapshot_prefix_ok(pvs, toks, stored.push((token, price)), i + 1),
{
    let s2 = stored.push((token, price));
    assert forall|j: int| 0 <= j < i + 1 implies (#[trigger] pvs[j] matches Some(pd)
        && toks.contains_key(symbol_at(j)) && s2[j] == (toks[symbol_at(j)], pd.1)) by {
        if j < i {
            assert(s2[j] == stored[j]);
            assert(pvs[j] matches Some(pd) && toks.contains_key(symbol_at(j)) && stored[j] == (
            toks[symbol_at(j)], pd.1));
        } else {
            assert(s2[j] == (token, price));
        }
    }
}

/// The price map after recording each `(token, price)` pair in order.
pub open spec fn store_fold(
    m: Map<(u64, AccountId), Balance>,
    id: u64,
    entries: Seq<(AccountId, Balance)>,
) -> Map<(u64, AccountId), Balance>
    decreases entries.len(),
{
    if entries.len() == 0 {
        m
    } else {
        store_fold(m, id, entries.drop_last()).insert(
            (id, entries.last().0),
            entries.last().1,
        )
    }
}


/// The outcome of one final-value computation over the four oracle slots.
pub enum ValueScan {
    UnknownToken,
    MissingPrice,
    MissingBalance,
    ValueOverflow,
    PoolOverflow,
    Done { value: int, prizes: Map<(u64, AccountId), CompetitionTokenPrize> },
}

/// Walks the four price slots: sums price times held amount over the
/// competitor's balances and accumulates every non-zero balance into the
/// competition's prize pool for that token.
pub open spec fn value_scan(
    toks: Map<Seq<char>, AccountId>,
    prices: Map<(u64, AccountId), Balance>,
    balances: Map<(u64, AccountId, AccountId), CompetitionTokenCompetitor>,
    id: u64,
    addr: AccountId,
    i: int,
    acc: int,
    prizes: Map<(u64, AccountId), CompetitionTokenPrize>,
) -> ValueScan
    decreases 4 - i,
{
    if i < 0 || i >= 4 {
        ValueScan::Done { value: acc, prizes }
    } else if !toks.contains_key(symbol_at(i)) {
        ValueScan::UnknownToken
    } else {
        let token = toks[symbol_at(i)];
        if !prices.contains_key((id, token)) {
            ValueScan::MissingPrice
        } else if !balances.contains_key((id, token, addr)) {
            ValueScan::MissingBalance
        } else {
            let amount = balances[(id, token, addr)].amount;
            let price = prices[(id, token)];
            if amount > 0 {
                if acc + price * amount >= two_pow_256() {
                    ValueScan::ValueOverflow
                } else {
                    let pool = if prizes.contains_key((id, token)) {
                        prizes[(id, token)]
                    } else {
                        CompetitionTokenPrize { amount: 0, collected: 0 }
                    };
                    if pool.amount + amount > u128::MAX {
                        ValueScan::PoolOverflow
                    } else {
                        value_scan(
                            toks,
                            prices,
                            balances,
                            id,
                            addr,
                            i + 1,
                            acc + price * amount,
                            prizes.insert(
                                (id, token),
                                (CompetitionTokenPrize {
                                    amount: (pool.amount + amount) as Balance,
                                    ..pool
                                }),
                            ),
                        )
                    }
                }
            } else {
                value_scan(toks, prices, balances, id, addr, i + 1, acc, prizes)
            }
        }
    }
}

/// An exact working copy of the prize pools.
fn clone_prizes(src: &VecMap<(u64, AccountId), CompetitionTokenPrize>) -> (r: VecMap<
    (u64, AccountId),
    CompetitionTokenPrize,
>)
    ensures
        r.entries@ == src.entries@,
{
    let mut entries: Vec<((u64, AccountId), CompetitionTokenPrize)> = Vec::new();
    let n = src.entries.len();
    let mut i: usize = 0;
    while i < n
        invariant
            n == src.entries@.len(),
            0 <= i <= n,
            entries@ == src.entries@.take(i as int),
        decreases n - i,
    {
        entries.push(src.entries[i]);
        proof {
            assert(entries@ =~= src.entries@.take(i + 1));
        }
        i = i + 1;
    }
    proof {
        assert(src.entries@.take(n as int) =~= src.entries@);
    }
    VecMap { entries }
}

impl AzTradingCompetition {
    /// Computes one competitor's USD-equivalent final value from the price
    /// snapshot, records it as a decimal string, feeds the competitor's
    /// non-zero balances into the prize pools, and pays the caller a fixed
    /// share of the processing fee.
    pub fn competitor_final_value_update<C: Collaborators>(
        &mut self,
        collaborators: &mut C,
        id: u64,
        competitor_address: AccountId,
        caller: AccountId,
        now: Timestamp,
    ) -> (r: Result<String, AzTradingCompetitionError>)
        requires
            old(self).wf(),
        ensures
            final(self).wf(),
            ({
                let comp = old(self).competitions.m()[id];
                let competitor = old(self).competitors.m()[(id, competitor_address)];
                let scan = value_scan(
                    old(self).dia_price_symbol_tokens_mapping.m(),
                    old(self).competition_token_prices.m(),
                    old(self).competition_token_competitors.m(),
                    id,
                    competitor_address,
                    0,
                    0,
                    old(self).competition_token_prizes.m(),
                );
                match r {
                    Ok(s) => {
                        &&& old(self).competitions.m().contains_key(id)
                        &&& now > comp.end
                        &&& old(self).competitors.m().contains_key((id, competitor_address))
                        &&& competitor.final_value is None
                        &&& comp.token_prices_vec@.len() > 0
                        &&& scan matches ValueScan::Done { value, prizes } && s@ == dec_str(
                            value as nat,
                        ) && 0 <= value < two_pow_256() && final(self).competition_token_prizes.m() == prizes && final(self).competitors.m()
                            == old(self).competitors.m().insert(
                            (id, competitor_address),
                            (Competitor { final_value: Some(s), ..competitor }),
                        ) && final(self).competitions.m() == old(self).competitions.m().insert(
                            id,
                            (Competition {
                                competitor_final_value_updated_count: sat_inc_u32(
                                    comp.competitor_final_value_updated_count,
                                ),
                                ..comp
                            }),
                        )
                        &&& *final(self) == (AzTradingCompetition {
                            competition_token_prizes: final(self).competition_token_prizes,
                            competitors: final(self).competitors,
                            competitions: final(self).competitions,
                            ..*old(self)
                        })
                    },
                    Err(e) => {
                        &&& *final(self) == *old(self)
                        &&& if !old(self).competitions.m().contains_key(id) {
                            is_not_found(e, "Competition"@)
                        } else if now <= comp.end {
                            is_unprocessable(e, "Competition hasn't ended."@)
                        } else if !old(self).competitors.m().contains_key(
                            (id, competitor_address),
                        ) {
                            is_not_found(e, "Competitor"@)
                        } else if competitor.final_value is Some {
                            is_unprocessable(e, "Competitor already processed."@)
                        } else if comp.token_prices_vec@.len() == 0 {
                            is_unprocessable(e, "Token prices haven't been set."@)
                        } else {
                            match scan {
                                ValueScan::UnknownToken => is_not_found(e, "Token"@),
                                ValueScan::MissingPrice => is_not_found(
                                    e,
                                    "CompetitionTokenPrice"@,
                                ),
                                ValueScan::MissingBalance => is_not_found(
                                    e,
                                    "CompetitionTokenCompetitor"@,
                                ),
                                ValueScan::ValueOverflow => is_unprocessable(
                                    e,
                                    "Final value is too large."@,
                                ),
                                ValueScan::PoolOverflow => is_unprocessable(
                                    e,
                                    "Prize pool overflow."@,
                                ),
                                ValueScan::Done { .. } => e
                                    matches AzTradingCompetitionError::InkEnvError(_),
                            }
                        }
                    },
                }
            }),
    {
        let ghost toks = self.dia_price_symbol_tokens_mapping.m();
        let ghost pm = self.competition_token_prices.m();
        let ghost bm = self.competition_token_competitors.m();
        let ghost pz0 = self.competition_token_prizes.m();
        let (end, prices_len, processing_fee) = match self.competitions.get(&id) {
            Some(c) => (c.end, c.token_prices_vec.len(), c.azero_processing_fee),
            None => {
                return Err(AzTradingCompetitionError::NotFound("Competition".to_owned()));
            },
        };
        if now <= end {
            return Err(
                AzTradingCompetitionError::UnprocessableEntity(
                    "Competition hasn't ended.".to_owned(),
                ),
            );
        }
        let competitor: Competitor = match self.competitors.get(&(id, competitor_address)) {
            Some(c) => c.clone(),
            None => {
                return Err(AzTradingCompetitionError::NotFound("Competitor".to_owned()));
            },
        };
        if competitor.final_value.is_some() {
            return Err(
                AzTradingCompetitionError::UnprocessableEntity(
                    "Competitor already processed.".to_owned(),
                ),
            );
        }
        if prices_len == 0 {
            return Err(
                AzTradingCompetitionError::UnprocessableEntity(
                    "Token prices haven't been set.".to_owned(),
                ),
            );
        }
        let symbols = valid_dia_price_symbols();
        let mut work = clone_prizes(&self.competition_token_prizes);
        let mut acc: (u128, u128) = (0, 0);
        let mut i: usize = 0;
        while i < 4
            invariant
                self == old(self),
                self.wf(),
                toks == self.dia_price_symbol_tokens_mapping.m(),
                pm == self.competition_token_prices.m(),
                bm == self.competition_token_competitors.m(),
                pz0 == self.competition_token_prizes.m(),
                old(self).competitions.m().contains_key(id),
                now > old(self).competitions.m()[id].end,
                old(self).competitions.m()[id].token_prices_vec@.len() > 0,
                old(self).competitors.m().contains_key((id, competitor_address)),
                old(self).competitors.m()[(id, competitor_address)].final_value is None,
                0 <= i <= 4,
                symbols@.len() == 4,
                forall|j: int| 0 <= j < 4 ==> (#[trigger] symbols@[j])@ == symbol_at(j),
                work.wf(),
                forall|k: (u64, AccountId)|
                    work.m().contains_key(k) ==> crate::store::prize_ok(#[trigger] work.m()[k]),
                0 <= wide_val(acc.0, acc.1) < two_pow_256(),
                value_scan(toks, pm, bm, id, competitor_address, 0, 0, pz0) == value_scan(
                    toks,
                    pm,
                    bm,
                    id,
                    competitor_address,
                    i as int,
                    wide_val(acc.0, acc.1),
                    work.m(),
                ),
            decreases 4 - i,
        {
            let token: AccountId = match self.dia_price_symbol_tokens_mapping.get(&symbols[i]) {
                Some(t) => *t,
                None => {
                    return Err(AzTradingCompetitionError::NotFound("Token".to_owned()));
                },
            };
            let price: Balance = match self.competition_token_prices.get(&(id, token)) {
                Some(p) => *p,
                None => {
                    return Err(
                        AzTradingCompetitionError::NotFound("CompetitionTokenPrice".to_owned()),
                    );
                },
            };
            let amount: Balance = match self.competition_token_competitors.get(
                &(id, token, competitor_address),
            ) {
                Some(v) => v.amount,
                None => {
                    return Err(
                        AzTradingCompetitionError::NotFound(
                            "CompetitionTokenCompetitor".to_owned(),
                        ),
                    );
                },
            };
            if amount > 0 {
                let prod = u256_mul(price, amount);
                let sum = match u256_checked_add(acc.0, acc.1, prod.0, prod.1) {
                    Some(s) => s,
                    None => {
                        return Err(
                            AzTradingCompetitionError::UnprocessableEntity(
                                "Final value is too large.".to_owned(),
                            ),
                        );
                    },
                };
                let pool: CompetitionTokenPrize = match work.get(&(id, token)) {
                    Some(p) => *p,
                    None => CompetitionTokenPrize { amount: 0, collected: 0 },
                };
                if pool.amount > u128::MAX - amount {
                    return Err(
                        AzTradingCompetitionError::UnprocessableEntity(
                            "Prize pool overflow.".to_owned(),
                        ),
                    );
                }
                work.insert(
                    (id, token),
                    CompetitionTokenPrize {
                        amount: pool.amount + amount,
                        collected: pool.collected,
                    },
                );
                acc = sum;
            }
            i = i + 1;
        }
        let fee: Balance = mul_frac(
            processing_fee,
            FINAL_VALUE_UPDATE_FEE_PERCENTAGE_NUMERATOR as u128,
            PERCENTAGE_CALCULATION_DENOMINATOR as u128,
        );
        if fee > 0 {
            if let Err(_msg) = collaborators.native_transfer(caller, fee) {
                return Err(
                    AzTradingCompetitionError::InkEnvError("requested transfer failed".to_owned()),
                );
            }
        }
        let value_string = u256_to_dec_string(acc.0, acc.1);
        proof {
            lemma_dec_str_value(wide_val(acc.0, acc.1) as nat);
        }
        let stored_string = value_string.clone();
        self.competition_token_prizes = work;
        self.competitors.insert(
            (id, competitor_address),
            Competitor {
                final_value: Some(stored_string),
                judge_place_attempt: competitor.judge_place_attempt,
                competition_place_details_index: competitor.competition_place_details_index,
            },
        );
        let mut competition = match self.competitions.take(&id) {
            Some(c) => c,
            None => {
                proof {
                    assert(false);
                }
                return Err(AzTradingCompetitionError::NotFound("Competition".to_owned()));
            },
        };
        if competition.competitor_final_value_updated_count < u32::MAX {
            competition.competitor_final_value_updated_count =
                competition.competitor_final_value_updated_count + 1;
        }
        let ghost stored_comp = competition;
        self.competitions.insert(id, competition);
        proof {
            assert(self.competitions.m() =~= old(self).competitions.m().insert(id, stored_comp));
        }
        Ok(value_string)
    }
}

} // verus!
