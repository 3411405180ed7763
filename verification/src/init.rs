use vstd::prelude::*;
use crate::account::AccountId;
use crate::errors::AzTradingCompetitionError;
use crate::store::{AzTradingCompetition, is_unprocessable, tokens_by_symbol, symbols_by_token,
    token_has_symbol, adjacency_matches, edge_in, pair_listed};
use crate::types::{Balance, Competition, CompetitionJudge, CompetitionPlaceDetail,
    CompetitionTokenCompetitor, CompetitionTokenPrize, Competitor};
use crate::vecmap::VecMap;

verus! {

/// The price symbols the oracle collaborator understands.
pub open spec fn valid_symbol(s: Seq<char>) -> bool {
    ||| s == "AZERO/USD"@
    ||| s == "ETH/USD"@
    ||| s == "USDC/USD"@
    ||| s == "USDT/USD"@
}

pub(crate) fn is_valid_dia_price_symbol(s: &String) -> (r: bool)
    ensures
        r == valid_symbol(s@),
{
    let azero: String = "AZERO/USD".to_owned();
    let eth: String = "ETH/USD".to_owned();
    let usdc: String = "USDC/USD".to_owned();
    let usdt: String = "USDT/USD".to_owned();
    String::eq(s, &azero) || String::eq(s, &eth) || String::eq(s, &usdc) || String::eq(s, &usdt)
}

pub proof fn lemma_symbols_by_token_contains(s: Seq<(AccountId, String)>, t: AccountId)
    ensures
        symbols_by_token(s).contains_key(t) <==> token_has_symbol(s, t),
    decreases s.len(),
{
    if s.len() > 0 {
        lemma_symbols_by_token_contains(s.drop_last(), t);
        if s.last().0 == t {
            assert(s[s.len() - 1].0 == t);
        } else {
            if token_has_symbol(s.drop_last(), t) {
                let i = choose|i: int| 0 <= i < s.len() - 1 && s.drop_last()[i].0 == t;
                assert(s[i].0 == t);
            }
            if token_has_symbol(s, t) {
                let i = choose|i: int| 0 <= i < s.len() && s[i].0 == t;
                assert(s.drop_last()[i].0 == t);
            }
        }
    }
}

proof fn lemma_push_contains(s: Seq<AccountId>, e: AccountId, x: AccountId)
    ensures
        s.push(e).contains(x) <==> (s.contains(x) || x == e),
{
    if s.push(e).contains(x) {
        let i = choose|i: int| 0 <= i < s.push(e).len() && s.push(e)[i] == x;
        if i < s.len() {
            assert(s[i] == x);
        }
    }
    if s.contains(x) {
        let i = choose|i: int| 0 <= i < s.len() && s[i] == x;
        assert(s.push(e)[i] == x);
    }
    assert(s.push(e)[s.len() as int] == e);
}

/// Some configured symbol is not one the oracle understands.
pub open spec fn has_invalid_symbol(s: Seq<(AccountId, String)>) -> bool {
    exists|i: int| 0 <= i < s.len() && !valid_symbol((#[trigger] s[i]).1@)
}

/// Some allowed pair names a token without a configured price symbol.
pub open spec fn has_unknown_pair_token(
    symbols: Seq<(AccountId, String)>,
    pairs: Seq<(AccountId, AccountId)>,
) -> bool {
    exists|i: int|
        0 <= i < pairs.len() && (!token_has_symbol(symbols, (#[trigger] pairs[i]).0)
            || !token_has_symbol(symbols, pairs[i].1))
}

impl AzTradingCompetition {
    /// Builds the ledger from its configuration surface. Fails fast when a
    /// configured price symbol is unknown or an allowed pair names a token
    /// without a price symbol.
    pub fn new(
        caller: AccountId,
        allowed_pair_token_combinations_vec: Vec<(AccountId, AccountId)>,
        default_azero_processing_fee: Balance,
        dia: AccountId,
        router: AccountId,
        token_dia_price_symbols_vec: Vec<(AccountId, String)>,
    ) -> (r: Result<AzTradingCompetition, AzTradingCompetitionError>)
        ensures
            match r {
                Ok(x) => {
                    &&& x.wf()
                    &&& x.admin == caller
                    &&& x.allowed_pair_token_combinations_vec@
                        == allowed_pair_token_combinations_vec@
                    &&& x.competitions_count == 0
                    &&& x.default_azero_processing_fee == default_azero_processing_fee
                    &&& x.dia == dia
                    &&& x.router == router
                    &&& x.token_dia_price_symbols_vec@ == token_dia_price_symbols_vec@
                    &&& x.competitions.m() == Map::<u64, Competition>::empty()
                    &&& x.competition_judges.m() == Map::<
                        (u64, AccountId),
                        CompetitionJudge,
                    >::empty()
                    &&& x.competition_payout_structure_numerators.m() == Map::<
                        (u64, u16),
                        u16,
                    >::empty()
                    &&& x.competition_place_details.m() == Map::<
                        u64,
                        Vec<CompetitionPlaceDetail>,
                    >::empty()
                    &&& x.competition_token_prices.m() == Map::<(u64, AccountId), Balance>::empty()
                    &&& x.competition_token_prizes.m() == Map::<
                        (u64, AccountId),
                        CompetitionTokenPrize,
                    >::empty()
                    &&& x.competition_token_competitors.m() == Map::<
                        (u64, AccountId, AccountId),
                        CompetitionTokenCompetitor,
                    >::empty()
                    &&& x.competitors.m() == Map::<(u64, AccountId), Competitor>::empty()
                    &&& x.token_dia_price_symbols_mapping.m() == symbols_by_token(
                        token_dia_price_symbols_vec@,
                    )
                    &&& x.dia_price_symbol_tokens_mapping.m() == tokens_by_symbol(
                        token_dia_price_symbols_vec@,
                    )
                    &&& adjacency_matches(
                        x.allowed_pair_token_combinations_mapping.m(),
                        allowed_pair_token_combinations_vec@,
                    )
                    &&& forall|i: int|
                        0 <= i < token_dia_price_symbols_vec@.len() ==> valid_symbol(
                            (#[trigger] token_dia_price_symbols_vec@[i]).1@,
                        )
                    &&& forall|i: int|
                        0 <= i < allowed_pair_token_combinations_vec@.len() ==> token_has_symbol(
                            token_dia_price_symbols_vec@,
                            (#[trigger] allowed_pair_token_combinations_vec@[i]).0,
                        ) && token_has_symbol(
                            token_dia_price_symbols_vec@,
                            allowed_pair_token_combinations_vec@[i].1,
                        )
                },
                Err(e) => {
                    ||| (is_unprocessable(e, "Invalid DIA price symbol."@) && has_invalid_symbol(
                        token_dia_price_symbols_vec@,
                    ))
                    ||| (is_unprocessable(e, "Invalid pair token combinations."@)
                        && has_unknown_pair_token(
                        token_dia_price_symbols_vec@,
                        allowed_pair_token_combinations_vec@,
                    ))
                },
            },
    {
        let ghost symbols = token_dia_price_symbols_vec@;
        let ghost pairs = allowed_pair_token_combinations_vec@;
        let mut x = AzTradingCompetition {
            admin: caller,
            allowed_pair_token_combinations_mapping: VecMap::new(),
            allowed_pair_token_combinations_vec,
            competition_judges: VecMap::new(),
            competition_payout_structure_numerators: VecMap::new(),
            competition_place_details: VecMap::new(),
            competition_token_prices: VecMap::new(),
            competition_token_prizes: VecMap::new(),
            competition_token_competitors: VecMap::new(),
            competitors: VecMap::new(),
            competitions: VecMap::new(),
            competitions_count: 0,
            default_azero_processing_fee,
            dia,
            dia_price_symbol_tokens_mapping: VecMap::new(),
            router,
            token_dia_price_symbols_mapping: VecMap::new(),
            token_dia_price_symbols_vec,
        };
        let n = x.token_dia_price_symbols_vec.len();
        let mut i: usize = 0;
        while i < n
            invariant
                symbols == token_dia_price_symbols_vec@,
                pairs == allowed_pair_token_combinations_vec@,
                x.wf(),
                n == symbols.len(),
                0 <= i <= n,
                x.token_dia_price_symbols_vec@ == symbols,
                x.token_dia_price_symbols_mapping.m() == symbols_by_token(symbols.take(i as int)),
                x.dia_price_symbol_tokens_mapping.m() == tokens_by_symbol(symbols.take(i as int)),
                forall|j: int| 0 <= j < i ==> valid_symbol((#[trigger] symbols[j]).1@),
                x.allowed_pair_token_combinations_mapping.m() == Map::<
                    AccountId,
                    Vec<AccountId>,
                >::empty(),
                x == (AzTradingCompetition {
                    token_dia_price_symbols_mapping: x.token_dia_price_symbols_mapping,
                    dia_price_symbol_tokens_mapping: x.dia_price_symbol_tokens_mapping,
                    ..x
                }),
                x.admin == caller && x.competitions_count == 0 && x.dia == dia && x.router
                    == router && x.default_azero_processing_fee == default_azero_processing_fee,
                x.allowed_pair_token_combinations_vec@ == pairs,
                x.competitions.m() == Map::<u64, Competition>::empty(),
                x.competition_judges.m() == Map::<(u64, AccountId), CompetitionJudge>::empty(),
                x.competition_payout_structure_numerators.m() == Map::<(u64, u16), u16>::empty(),
                x.competition_place_details.m() == Map::<
                    u64,
                    Vec<CompetitionPlaceDetail>,
                >::empty(),
                x.competition_token_prices.m() == Map::<(u64, AccountId), Balance>::empty(),
                x.competition_token_prizes.m() == Map::<
                    (u64, AccountId),
                    CompetitionTokenPrize,
                >::empty(),
                x.competition_token_competitors.m() == Map::<
                    (u64, AccountId, AccountId),
                    CompetitionTokenCompetitor,
                >::empty(),
                x.competitors.m() == Map::<(u64, AccountId), Competitor>::empty(),
            decreases n - i,
        {
            let token = x.token_dia_price_symbols_vec[i].0;
            let symbol_ok = is_valid_dia_price_symbol(&x.token_dia_price_symbols_vec[i].1);
            if !symbol_ok {
                proof {
                    assert(has_invalid_symbol(symbols)) by {
                        assert(0 <= (i as int) && (i as int) < symbols.len() && !valid_symbol(
                            (symbols[i as int]).1@,
                        ));
                    }
                }
                return Err(
                    AzTradingCompetitionError::UnprocessableEntity(
                        "Invalid DIA price symbol.".to_owned(),
                    ),
                );
            }
            let symbol = x.token_dia_price_symbols_vec[i].1.clone();
            let symbol_for_key = x.token_dia_price_symbols_vec[i].1.clone();
            x.token_dia_price_symbols_mapping.insert(token, symbol);
            x.dia_price_symbol_tokens_mapping.insert(symbol_for_key, token);
            proof {
                assert(symbols.take(i + 1).drop_last() =~= symbols.take(i as int));
                assert(symbols.take(i + 1).last() == symbols[i as int]);
            }
            i = i + 1;
        }
        proof {
            assert(symbols.take(n as int) =~= symbols);
        }
        let np = x.allowed_pair_token_combinations_vec.len();
        let mut p: usize = 0;
        while p < np
            invariant
                symbols == token_dia_price_symbols_vec@,
                pairs == allowed_pair_token_combinations_vec@,
                x.wf(),
                np == pairs.len(),
                0 <= p <= np,
                x.token_dia_price_symbols_vec@ == symbols,
                x.allowed_pair_token_combinations_vec@ == pairs,
                x.token_dia_price_symbols_mapping.m() == symbols_by_token(symbols),
                x.dia_price_symbol_tokens_mapping.m() == tokens_by_symbol(symbols),
                forall|j: int| 0 <= j < symbols.len() ==> valid_symbol((#[trigger] symbols[j]).1@),
                forall|j: int|
                    0 <= j < p ==> token_has_symbol(symbols, (#[trigger] pairs[j]).0)
                        && token_has_symbol(symbols, pairs[j].1),
                adjacency_matches(x.allowed_pair_token_combinations_mapping.m(), pairs.take(p as int)),
                x.admin == caller && x.competitions_count == 0 && x.dia == dia && x.router
                    == router && x.default_azero_processing_fee == default_azero_processing_fee,
                x.competitions.m() == Map::<u64, Competition>::empty(),
                x.competition_judges.m() == Map::<(u64, AccountId), CompetitionJudge>::empty(),
                x.competition_payout_structure_numerators.m() == Map::<(u64, u16), u16>::empty(),
                x.competition_place_details.m() == Map::<
                    u64,
                    Vec<CompetitionPlaceDetail>,
                >::empty(),
                x.competition_token_prices.m() == Map::<(u64, AccountId), Balance>::empty(),
                x.competition_token_prizes.m() == Map::<
                    (u64, AccountId),
                    CompetitionTokenPrize,
                >::empty(),
                x.competition_token_competitors.m() == Map::<
                    (u64, AccountId, AccountId),
                    CompetitionTokenCompetitor,
                >::empty(),
                x.competitors.m() == Map::<(u64, AccountId), Competitor>::empty(),
            decreases np - p,
        {
            let a = x.allowed_pair_token_combinations_vec[p].0;
            let b = x.allowed_pair_token_combinations_vec[p].1;
            let a_known = x.token_dia_price_symbols_mapping.contains_key(&a);
            let b_known = x.token_dia_price_symbols_mapping.contains_key(&b);
            proof {
                lemma_symbols_by_token_contains(symbols, a);
                lemma_symbols_by_token_contains(symbols, b);
            }
            if !a_known || !b_known {
                proof {
                    assert(has_unknown_pair_token(symbols, pairs)) by {
                        assert(0 <= (p as int) && (p as int) < pairs.len() && (!token_has_symbol(
                            symbols,
                            (pairs[p as int]).0,
                        ) || !token_has_symbol(symbols, (pairs[p as int]).1)));
                    }
                }
                return Err(
                    AzTradingCompetitionError::UnprocessableEntity(
                        "Invalid pair token combinations.".to_owned(),
                    ),
                );
            }
            let ghost m0 = x.allowed_pair_token_combinations_mapping.m();
            add_edge(&mut x.allowed_pair_token_combinations_mapping, a, b);
            let ghost m1 = x.allowed_pair_token_combinations_mapping.m();
            add_edge(&mut x.allowed_pair_token_combinations_mapping, b, a);
            let ghost m2 = x.allowed_pair_token_combinations_mapping.m();
            proof {
                lemma_adjacency_step(m0, m1, m2, pairs, p as int, a, b);
            }
            p = p + 1;
        }
        proof {
            assert(pairs.take(np as int) =~= pairs);
        }
        Ok(x)
    }
}

/// One token's adjacency list in `m`, or empty when it has none.
pub open spec fn adj_list(m: Map<AccountId, Vec<AccountId>>, k: AccountId) -> Seq<AccountId> {
    if m.contains_key(k) {
        m[k]@
    } else {
        Seq::<AccountId>::empty()
    }
}

/// `m2` is `m` with `to` appended to the adjacency list of `from`.
pub open spec fn edge_added(
    m: Map<AccountId, Vec<AccountId>>,
    m2: Map<AccountId, Vec<AccountId>>,
    from: AccountId,
    to: AccountId,
) -> bool {
    &&& m2.contains_key(from)
    &&& m2[from]@ == adj_list(m, from).push(to)
    &&& forall|k: AccountId|
        k != from ==> #[trigger] m2.contains_key(k) == m.contains_key(k) && (m.contains_key(k)
            ==> m2[k] == m[k])
}

proof fn lemma_edge_added_in(
    m: Map<AccountId, Vec<AccountId>>,
    m2: Map<AccountId, Vec<AccountId>>,
    from: AccountId,
    to: AccountId,
    s: AccountId,
    t: AccountId,
)
    requires
        edge_added(m, m2, from, to),
    ensures
        edge_in(m2, s, t) <==> (edge_in(m, s, t) || (s == from && t == to)),
{
    if s == from {
        lemma_push_contains(adj_list(m, from), to, t);
        assert(m2[s]@ == adj_list(m, from).push(to));
        if m.contains_key(from) {
            assert(adj_list(m, from) == m[from]@);
        } else {
            assert(adj_list(m, from) =~= Seq::<AccountId>::empty());
            assert(!Seq::<AccountId>::empty().contains(t)) by {
                if Seq::<AccountId>::empty().contains(t) {
                    let i = choose|i: int|
                        0 <= i < Seq::<AccountId>::empty().len() && Seq::<AccountId>::empty()[i]
                            == t;
                }
            }
        }
    } else {
        assert(m2.contains_key(s) == m.contains_key(s));
        if m.contains_key(s) {
            assert(m2[s] == m[s]);
        }
    }
}

proof fn lemma_adjacency_step(
    m0: Map<AccountId, Vec<AccountId>>,
    m1: Map<AccountId, Vec<AccountId>>,
    m2: Map<AccountId, Vec<AccountId>>,
    pairs: Seq<(AccountId, AccountId)>,
    p: int,
    a: AccountId,
    b: AccountId,
)
    requires
        0 <= p < pairs.len(),
        pairs[p] == (a, b),
        adjacency_matches(m0, pairs.take(p)),
        edge_added(m0, m1, a, b),
        edge_added(m1, m2, b, a),
    ensures
        adjacency_matches(m2, pairs.take(p + 1)),
{
    let taken = pairs.take(p + 1);
    assert forall|s: AccountId, t: AccountId| #![trigger edge_in(m2, s, t)] #![trigger pair_listed(taken, s, t)]
        edge_in(m2, s, t) == pair_listed(taken, s, t) by {
        lemma_edge_added_in(m1, m2, b, a, s, t);
        lemma_edge_added_in(m0, m1, a, b, s, t);
        if edge_in(m2, s, t) {
            if edge_in(m0, s, t) {
                assert(pair_listed(pairs.take(p), s, t));
                let j = choose|j: int|
                    0 <= j < pairs.take(p).len() && ((#[trigger] pairs.take(p)[j]) == (s, t)
                        || pairs.take(p)[j] == (t, s));
                assert(taken[j] == pairs.take(p)[j]);
                assert(0 <= j < taken.len() && (taken[j] == (s, t) || taken[j] == (t, s)));
                assert(pair_listed(taken, s, t));
            } else {
                assert((s == a && t == b) || (s == b && t == a));
                assert(taken[p] == (a, b));
                assert(0 <= p < taken.len() && (taken[p] == (s, t) || taken[p] == (t, s)));
                assert(pair_listed(taken, s, t));
            }
        }
        if pair_listed(taken, s, t) {
            let j = choose|j: int|
                0 <= j < taken.len() && ((#[trigger] taken[j]) == (s, t) || taken[j] == (t, s));
            if j < p {
                assert(pairs.take(p)[j] == taken[j]);
                assert(0 <= j < pairs.take(p).len() && (pairs.take(p)[j] == (s, t)
                    || pairs.take(p)[j] == (t, s)));
                assert(pair_listed(pairs.take(p), s, t));
                assert(edge_in(m0, s, t));
            } else {
                assert(taken[p] == (a, b));
                assert((s == a && t == b) || (s == b && t == a));
            }
            assert(edge_in(m2, s, t));
        }
    }
    assert(adjacency_matches(m2, taken));
}

/// Adds `to` to the adjacency list of `from`.
fn add_edge(m: &mut VecMap<AccountId, Vec<AccountId>>, from: AccountId, to: AccountId)
    requires
        old(m).wf(),
    ensures
        final(m).wf(),
        edge_added(old(m).m(), final(m).m(), from, to),
{
    let existing = m.take(&from);
    match existing {
        Some(mut v) => {
            v.push(to);
            m.insert(from, v);
        },
        None => {
            let mut v: Vec<AccountId> = Vec::new();
            v.push(to);
            m.insert(from, v);
        },
    }
}

} // verus!
