use vstd::prelude::*;
use crate::account::AccountId;
use crate::errors::AzTradingCompetitionError;
use crate::judging::{judge_update_outcome, next_judge_outcome, final_value_of};
use crate::placement::{place_scan, PlaceScan, place_outcome, next_numerator, sat_inc_u32,
    sat_add_u16};
use crate::registration::{register_outcome, deregister_outcome, remove_balances, seed_balances};
use crate::store::{AzTradingCompetition, token_has_symbol};
use crate::types::{Balance, Timestamp, Competition, CompetitionPlaceDetail, Competitor};
use crate::wide::dec_value;
use crate::PERCENTAGE_CALCULATION_DENOMINATOR;

verus! {

/// Law: every stored competition keeps its payout-numerator sum within the
/// denominator.
pub proof fn lemma_numerator_sum_within_denominator(s: AzTradingCompetition, id: u64)
    requires
        s.wf(),
        s.competitions.m().contains_key(id),
    ensures
        s.competitions.m()[id].payout_structure_numerator_sum
            <= PERCENTAGE_CALCULATION_DENOMINATOR,
{
}

/// Law: registration never succeeds while the payout-numerator sum is
/// short of the denominator.
pub proof fn lemma_registration_needs_complete_structure(
    pre: AzTradingCompetition,
    post: AzTradingCompetition,
    r: Result<(), AzTradingCompetitionError>,
    id: u64,
    caller: AccountId,
    now: Timestamp,
    transferred_value: Balance,
)
    requires
        register_outcome(pre, post, r, id, caller, now, transferred_value),
        r is Ok,
    ensures
        pre.competitions.m().contains_key(id),
        pre.competitions.m()[id].payout_structure_numerator_sum
            == PERCENTAGE_CALCULATION_DENOMINATOR,
{
}

/// Law: no prize pool is ever collected beyond what it holds, whatever
/// sequence of claims led to the state.
pub proof fn lemma_pool_never_overcollected(s: AzTradingCompetition, id: u64, token: AccountId)
    requires
        s.wf(),
        s.competition_token_prizes.m().contains_key((id, token)),
    ensures
        s.competition_token_prizes.m()[(id, token)].collected <= s.competition_token_prizes.m()[(
            id,
            token,
        )].amount,
{
}

/// Law: a placement batch whose walk hits an entry below the last group's
/// value is always rejected.
pub proof fn lemma_out_of_order_placement_rejected(
    pre: AzTradingCompetition,
    post: AzTradingCompetition,
    r: Result<(), AzTradingCompetitionError>,
    id: u64,
    addrs: Seq<AccountId>,
    caller: AccountId,
    now: Timestamp,
)
    requires
        place_outcome(pre, post, r, id, addrs, caller, now),
        place_scan(
            id,
            pre.competitions.m()[id].judge_place_attempt,
            pre.competition_payout_structure_numerators.m(),
            pre.competitions.m()[id].payout_places,
            addrs,
            0,
            pre.competition_place_details.m()[id]@,
            pre.competitors.m(),
            pre.competitions.m()[id].competitors_placed_count,
        ) == PlaceScan::WrongPlace,
    ensures
        r is Err,
        post == pre,
{
}

/// Law: a rejected placement call leaves the ledger untouched; in
/// particular the group list's length is unchanged.
pub proof fn lemma_rejected_placement_changes_nothing(
    pre: AzTradingCompetition,
    post: AzTradingCompetition,
    r: Result<(), AzTradingCompetitionError>,
    id: u64,
    addrs: Seq<AccountId>,
    caller: AccountId,
    now: Timestamp,
)
    requires
        place_outcome(pre, post, r, id, addrs, caller, now),
        r is Err,
    ensures
        post == pre,
        post.competition_place_details.m() == pre.competition_place_details.m(),
{
}

/// Law: a challenger who strictly outperforms the sitting challenger
/// always replaces them.
pub proof fn lemma_better_challenger_replaces(
    pre: AzTradingCompetition,
    post: AzTradingCompetition,
    r: Result<Competition, AzTradingCompetitionError>,
    id: u64,
    caller: AccountId,
    now: Timestamp,
    nj: AccountId,
)
    requires
        next_judge_outcome(pre, post, r, id, caller, now),
        pre.competitions.m().contains_key(id),
        pre.competitions.m()[id].competitors_placed_count
            != pre.competitions.m()[id].competitors_count,
        !pre.competition_judges.m().contains_key((id, caller)),
        pre.competition_judges.m().contains_key((id, pre.competitions.m()[id].judge)),
        pre.competitions.m()[id].next_judge == Some(nj),
        final_value_of(pre.competitors.m(), id, caller) > final_value_of(
            pre.competitors.m(),
            id,
            nj,
        ),
    ensures
        r is Ok,
        post.competitions.m().contains_key(id),
        post.competitions.m()[id].next_judge == Some(caller),
{
}

/// Law: a challenger whose final value is equal to or below the sitting
/// challenger's is always rejected, and nothing changes.
pub proof fn lemma_worse_challenger_rejected(
    pre: AzTradingCompetition,
    post: AzTradingCompetition,
    r: Result<Competition, AzTradingCompetitionError>,
    id: u64,
    caller: AccountId,
    now: Timestamp,
    nj: AccountId,
)
    requires
        next_judge_outcome(pre, post, r, id, caller, now),
        pre.competitions.m().contains_key(id),
        pre.competitions.m()[id].competitors_placed_count
            != pre.competitions.m()[id].competitors_count,
        !pre.competition_judges.m().contains_key((id, caller)),
        pre.competitions.m()[id].next_judge == Some(nj),
        final_value_of(pre.competitors.m(), id, caller) <= final_value_of(
            pre.competitors.m(),
            id,
            nj,
        ),
    ensures
        r is Err,
        post == pre,
{
}

/// Law: the judge handover never succeeds before the incumbent's deadline
/// has strictly passed.
pub proof fn lemma_no_handover_before_deadline(
    pre: AzTradingCompetition,
    post: AzTradingCompetition,
    r: Result<(), AzTradingCompetitionError>,
    id: u64,
    now: Timestamp,
)
    requires
        judge_update_outcome(pre, post, r, id, now),
        pre.competitions.m().contains_key(id),
        pre.competition_judges.m().contains_key((id, pre.competitions.m()[id].judge)),
        now <= pre.competition_judges.m()[(id, pre.competitions.m()[id].judge)].deadline,
    ensures
        r is Err,
        post == pre,
{
}

/// Law: one prize claim never exceeds what the pool still holds, so a tie
/// of any size, the largest included, drains the pool at most to zero.
pub proof fn lemma_prize_share_within_available(numerator: u16, available: Balance, tie: u32)
    requires
        tie >= 1,
    ensures
        0 <= crate::settlement::prize_share(numerator, available, tie) <= available,
{
    let q = numerator * available / (PERCENTAGE_CALCULATION_DENOMINATOR as int) / (tie as int);
    assert(numerator * available >= 0) by (nonlinear_arith)
        requires
            numerator >= 0,
            available >= 0,
    ;
    assert(q >= 0) by {
        vstd::arithmetic::div_mod::lemma_div_is_ordered(0, numerator * available, PERCENTAGE_CALCULATION_DENOMINATOR as int);
        vstd::arithmetic::div_mod::lemma_div_is_ordered(0, numerator * available / (PERCENTAGE_CALCULATION_DENOMINATOR as int), tie as int);
    }
}

pub proof fn lemma_remove_balances_clears(
    m: Map<(u64, AccountId, AccountId), crate::types::CompetitionTokenCompetitor>,
    id: u64,
    tokens: Seq<(AccountId, String)>,
    caller: AccountId,
    t: AccountId,
)
    requires
        token_has_symbol(tokens, t),
    ensures
        !remove_balances(m, id, tokens, caller).contains_key((id, t, caller)),
    decreases tokens.len(),
{
    if tokens.len() > 0 {
        if tokens.last().0 == t {
        } else {
            let i = choose|i: int| 0 <= i < tokens.len() && tokens[i].0 == t;
            assert(tokens.drop_last()[i].0 == t);
            lemma_remove_balances_clears(m, id, tokens.drop_last(), caller, t);
        }
    }
}

/// Law: a successful deregistration removes the caller's balance record
/// for every configured token.
pub proof fn lemma_deregister_clears_balances(
    pre: AzTradingCompetition,
    post: AzTradingCompetition,
    r: Result<(), AzTradingCompetitionError>,
    id: u64,
    caller: AccountId,
    now: Timestamp,
    t: AccountId,
)
    requires
        deregister_outcome(pre, post, r, id, caller, now),
        r is Ok,
        token_has_symbol(pre.token_dia_price_symbols_vec@, t),
    ensures
        !post.competition_token_competitors.m().contains_key((id, t, caller)),
{
    lemma_remove_balances_clears(
        pre.competition_token_competitors.m(),
        id,
        pre.token_dia_price_symbols_vec@,
        caller,
        t,
    );
}

proof fn lemma_seed_balances_untouched(
    m: Map<(u64, AccountId, AccountId), crate::types::CompetitionTokenCompetitor>,
    id: u64,
    tokens: Seq<(AccountId, String)>,
    caller: AccountId,
    entry_fee_token: AccountId,
    net: Balance,
    k: (u64, AccountId, AccountId),
)
    requires
        forall|i: int| 0 <= i < tokens.len() ==> k != (id, (#[trigger] tokens[i]).0, caller),
    ensures
        seed_balances(m, id, tokens, caller, entry_fee_token, net).contains_key(k)
            == m.contains_key(k),
        m.contains_key(k) ==> seed_balances(m, id, tokens, caller, entry_fee_token, net)[k]
            == m[k],
    decreases tokens.len(),
{
    if tokens.len() > 0 {
        assert(k != (id, tokens[tokens.len() - 1].0, caller));
        assert(forall|i: int|
            0 <= i < tokens.drop_last().len() ==> k != (
                id,
                (#[trigger] tokens.drop_last()[i]).0,
                caller,
            ));
        lemma_seed_balances_untouched(m, id, tokens.drop_last(), caller, entry_fee_token, net, k);
    }
}

proof fn lemma_remove_balances_untouched(
    m: Map<(u64, AccountId, AccountId), crate::types::CompetitionTokenCompetitor>,
    id: u64,
    tokens: Seq<(AccountId, String)>,
    caller: AccountId,
    k: (u64, AccountId, AccountId),
)
    requires
        forall|i: int| 0 <= i < tokens.len() ==> k != (id, (#[trigger] tokens[i]).0, caller),
    ensures
        remove_balances(m, id, tokens, caller).contains_key(k) == m.contains_key(k),
        m.contains_key(k) ==> remove_balances(m, id, tokens, caller)[k] == m[k],
    decreases tokens.len(),
{
    if tokens.len() > 0 {
        assert(k != (id, tokens[tokens.len() - 1].0, caller));
        assert(forall|i: int|
            0 <= i < tokens.drop_last().len() ==> k != (
                id,
                (#[trigger] tokens.drop_last()[i]).0,
                caller,
            ));
        lemma_remove_balances_untouched(m, id, tokens.drop_last(), caller, k);
    }
}

pub proof fn lemma_seed_then_remove_restores(
    m: Map<(u64, AccountId, AccountId), crate::types::CompetitionTokenCompetitor>,
    id: u64,
    tokens: Seq<(AccountId, String)>,
    caller: AccountId,
    entry_fee_token: AccountId,
    net: Balance,
)
    requires
        forall|i: int|
            0 <= i < tokens.len() ==> !m.contains_key((id, (#[trigger] tokens[i]).0, caller)),
    ensures
        remove_balances(seed_balances(m, id, tokens, caller, entry_fee_token, net), id, tokens, caller)
            == m,
{
    let seeded = seed_balances(m, id, tokens, caller, entry_fee_token, net);
    let cleared = remove_balances(seeded, id, tokens, caller);
    assert forall|k: (u64, AccountId, AccountId)|
        #![trigger cleared.contains_key(k)]
        #![trigger m.contains_key(k)]
        cleared.contains_key(k) == m.contains_key(k) && (m.contains_key(k) ==> cleared[k]
            == m[k]) by {
        if exists|i: int| 0 <= i < tokens.len() && k == (id, (#[trigger] tokens[i]).0, caller) {
            let i = choose|i: int|
                0 <= i < tokens.len() && k == (id, (#[trigger] tokens[i]).0, caller);
            assert(token_has_symbol(tokens, tokens[i].0));
            lemma_remove_balances_clears(seeded, id, tokens, caller, tokens[i].0);
            assert(!cleared.contains_key(k));
            assert(!m.contains_key(k));
        } else {
            assert(forall|i: int|
                0 <= i < tokens.len() ==> k != (id, (#[trigger] tokens[i]).0, caller));
            lemma_remove_balances_untouched(seeded, id, tokens, caller, k);
            lemma_seed_balances_untouched(m, id, tokens, caller, entry_fee_token, net, k);
        }
    }
    assert(cleared =~= m);
}

/// Law: a fresh participant who registers and then deregisters before the
/// start leaves the per-token balance ledger exactly as it was.
pub proof fn lemma_register_deregister_round_trip(
    pre: AzTradingCompetition,
    mid: AzTradingCompetition,
    post: AzTradingCompetition,
    r1: Result<(), AzTradingCompetitionError>,
    r2: Result<(), AzTradingCompetitionError>,
    id: u64,
    caller: AccountId,
    now1: Timestamp,
    now2: Timestamp,
    transferred_value: Balance,
)
    requires
        register_outcome(pre, mid, r1, id, caller, now1, transferred_value),
        r1 is Ok,
        deregister_outcome(mid, post, r2, id, caller, now2),
        r2 is Ok,
        forall|i: int|
            0 <= i < pre.token_dia_price_symbols_vec@.len()
                ==> !pre.competition_token_competitors.m().contains_key(
                (id, (#[trigger] pre.token_dia_price_symbols_vec@[i]).0, caller),
            ),
    ensures
        post.competition_token_competitors.m() == pre.competition_token_competitors.m(),
{
    let comp = pre.competitions.m()[id];
    let fee = comp.entry_fee_amount * comp.admin_fee_percentage_numerator / (
    crate::DEFAULT_ADMIN_FEE_PERCENTAGE_NUMERATOR as int);
    assert(mid.token_dia_price_symbols_vec == pre.token_dia_price_symbols_vec);
    lemma_seed_then_remove_restores(
        pre.competition_token_competitors.m(),
        id,
        pre.token_dia_price_symbols_vec@,
        caller,
        comp.entry_fee_token,
        (comp.entry_fee_amount - fee) as Balance,
    );
}

/// One competitor of a tied batch: registered, not yet placed in this
/// attempt, with a final value denoting `dv`.
pub open spec fn tied_competitor(
    competitors: Map<(u64, AccountId), Competitor>,
    id: u64,
    a: AccountId,
    attempt: u128,
    dv: int,
) -> bool {
    &&& competitors.contains_key((id, a))
    &&& competitors[(id, a)].judge_place_attempt != attempt
    &&& (competitors[(id, a)].final_value matches Some(s) && dec_value(s@) == dv)
}

/// A whole batch of pairwise-distinct competitors tied at `dv`.
pub open spec fn tied_batch(
    competitors: Map<(u64, AccountId), Competitor>,
    id: u64,
    attempt: u128,
    addrs: Seq<AccountId>,
    i: int,
    dv: int,
) -> bool {
    &&& forall|t: int|
        i <= t < addrs.len() ==> tied_competitor(competitors, id, #[trigger] addrs[t], attempt, dv)
    &&& forall|t1: int, t2: int|
        i <= t1 < t2 < addrs.len() ==> #[trigger] addrs[t1] != #[trigger] addrs[t2]
}

/// The numerators owed to the next `k` ranks, summed.
pub open spec fn owed_sum(
    nums: Map<(u64, u16), u16>,
    id: u64,
    places: u16,
    placed: int,
    k: nat,
) -> int
    decreases k,
{
    if k == 0 {
        0
    } else {
        next_numerator(nums, id, placed as u32, places) + owed_sum(
            nums,
            id,
            places,
            placed + 1,
            (k - 1) as nat,
        )
    }
}

pub proof fn lemma_owed_sum_nonneg(
    nums: Map<(u64, u16), u16>,
    id: u64,
    places: u16,
    placed: int,
    k: nat,
)
    ensures
        0 <= owed_sum(nums, id, places, placed, k),
    decreases k,
{
    if k > 0 {
        lemma_owed_sum_nonneg(nums, id, places, placed + 1, (k - 1) as nat);
    }
}

/// Law: a batch of tied competitors submitted against a last group of the
/// same value all merge into that group, its member count growing by the
/// batch size and its numerator by exactly the sum of the ranks' configured
/// numerators.
pub proof fn lemma_tied_batch_merges(
    id: u64,
    attempt: u128,
    nums: Map<(u64, u16), u16>,
    places: u16,
    addrs: Seq<AccountId>,
    i: int,
    groups: Seq<CompetitionPlaceDetail>,
    competitors: Map<(u64, AccountId), Competitor>,
    placed: u32,
    dv: int,
)
    requires
        0 <= i <= addrs.len(),
        tied_batch(competitors, id, attempt, addrs, i, dv),
        groups.len() >= 1,
        groups.len() < u32::MAX,
        placed + (addrs.len() - i) <= u32::MAX,
        dec_value(groups.last().competitor_value@) == dv,
        groups.last().competitors_count + (addrs.len() - i) <= u32::MAX,
        groups.last().payout_numerator + owed_sum(
            nums,
            id,
            places,
            placed as int,
            (addrs.len() - i) as nat,
        ) <= u16::MAX,
    ensures
        place_scan(id, attempt, nums, places, addrs, i, groups, competitors, placed)
            matches PlaceScan::Done { groups: g2, placed: p2, .. } && p2 == placed + (
        addrs.len() - i) && g2 == groups.update(
            groups.len() - 1,
            (CompetitionPlaceDetail {
                competitor_value: groups.last().competitor_value,
                competitors_count: (groups.last().competitors_count + (addrs.len() - i)) as u32,
                payout_numerator: (groups.last().payout_numerator + owed_sum(
                    nums,
                    id,
                    places,
                    placed as int,
                    (addrs.len() - i) as nat,
                )) as u16,
            }),
        ),
    decreases addrs.len() - i,
{
    let k = (addrs.len() - i) as nat;
    lemma_owed_sum_nonneg(nums, id, places, placed as int, k);
    if i == addrs.len() {
        assert(groups.update(
            groups.len() - 1,
            (CompetitionPlaceDetail {
                competitor_value: groups.last().competitor_value,
                competitors_count: (groups.last().competitors_count + 0) as u32,
                payout_numerator: (groups.last().payout_numerator + 0) as u16,
            }),
        ) =~= groups);
    } else {
        let a = addrs[i];
        assert(tied_competitor(competitors, id, a, attempt, dv));
        let c = competitors[(id, a)];
        let owed = next_numerator(nums, id, placed, places);
        lemma_owed_sum_nonneg(nums, id, places, placed as int + 1, (k - 1) as nat);
        assert(owed_sum(nums, id, places, placed as int, k) == owed + owed_sum(
            nums,
            id,
            places,
            placed as int + 1,
            (k - 1) as nat,
        ));
        let last = groups.last();
        assert(sat_inc_u32(last.competitors_count) == last.competitors_count + 1);
        assert(sat_add_u16(last.payout_numerator, owed) == last.payout_numerator + owed);
        let merged = CompetitionPlaceDetail {
            competitor_value: last.competitor_value,
            competitors_count: sat_inc_u32(last.competitors_count),
            payout_numerator: sat_add_u16(last.payout_numerator, owed),
        };
        let groups2 = groups.update(groups.len() - 1, merged);
        let competitors2 = competitors.insert(
            (id, a),
            (Competitor {
                final_value: c.final_value,
                judge_place_attempt: attempt,
                competition_place_details_index: (groups.len() - 1) as u32,
            }),
        );
        assert(groups2.last() == merged);
        assert forall|t: int|
            i + 1 <= t < addrs.len() implies tied_competitor(
            competitors2,
            id,
            #[trigger] addrs[t],
            attempt,
            dv,
        ) by {
            assert(addrs[t] != a);
            assert(tied_competitor(competitors, id, addrs[t], attempt, dv));
        }
        lemma_tied_batch_merges(
            id,
            attempt,
            nums,
            places,
            addrs,
            i + 1,
            groups2,
            competitors2,
            (placed + 1) as u32,
            dv,
        );
        assert(groups2.update(
            groups2.len() - 1,
            (CompetitionPlaceDetail {
                competitor_value: groups2.last().competitor_value,
                competitors_count: (groups2.last().competitors_count + (addrs.len() - i - 1)) as u32,
                payout_numerator: (groups2.last().payout_numerator + owed_sum(
                    nums,
                    id,
                    places,
                    placed as int + 1,
                    (k - 1) as nat,
                )) as u16,
            }),
        ) =~= groups.update(
            groups.len() - 1,
            (CompetitionPlaceDetail {
                competitor_value: groups.last().competitor_value,
                competitors_count: (groups.last().competitors_count + (addrs.len() - i)) as u32,
                payout_numerator: (groups.last().payout_numerator + owed_sum(
                    nums,
                    id,
                    places,
                    placed as int,
                    k,
                )) as u16,
            }),
        ));
    }
}

/// Law (at the call): whenever a placement call succeeds on a batch of
/// competitors all tied at the last group's value, no new group appears:
/// that group's member count grows by exactly the batch size and its
/// numerator by exactly the sum of the next ranks' configured numerators.
pub proof fn lemma_tied_batch_call_merges(
    pre: AzTradingCompetition,
    post: AzTradingCompetition,
    r: Result<(), AzTradingCompetitionError>,
    id: u64,
    addrs: Seq<AccountId>,
    caller: AccountId,
    now: Timestamp,
    dv: int,
)
    requires
        place_outcome(pre, post, r, id, addrs, caller, now),
        r is Ok,
        tied_batch(
            pre.competitors.m(),
            id,
            pre.competitions.m()[id].judge_place_attempt,
            addrs,
            0,
            dv,
        ),
        pre.competition_place_details.m()[id]@.len() >= 1,
        pre.competition_place_details.m()[id]@.len() < u32::MAX,
        pre.competitions.m()[id].competitors_placed_count + addrs.len() <= u32::MAX,
        dec_value(pre.competition_place_details.m()[id]@.last().competitor_value@) == dv,
        pre.competition_place_details.m()[id]@.last().competitors_count + addrs.len()
            <= u32::MAX,
        pre.competition_place_details.m()[id]@.last().payout_numerator + owed_sum(
            pre.competition_payout_structure_numerators.m(),
            id,
            pre.competitions.m()[id].payout_places,
            pre.competitions.m()[id].competitors_placed_count as int,
            addrs.len() as nat,
        ) <= u16::MAX,
    ensures
        ({
            let comp = pre.competitions.m()[id];
            let groups0 = pre.competition_place_details.m()[id]@;
            let total = owed_sum(
                pre.competition_payout_structure_numerators.m(),
                id,
                comp.payout_places,
                comp.competitors_placed_count as int,
                addrs.len() as nat,
            );
            &&& post.competition_place_details.m()[id]@ == groups0.update(
                groups0.len() - 1,
                (CompetitionPlaceDetail {
                    competitor_value: groups0.last().competitor_value,
                    competitors_count: (groups0.last().competitors_count + addrs.len()) as u32,
                    payout_numerator: (groups0.last().payout_numerator + total) as u16,
                }),
            )
            &&& post.competition_place_details.m()[id]@.len() == groups0.len()
            &&& post.competitions.m()[id].competitors_placed_count
                == comp.competitors_placed_count + addrs.len()
        }),
{
    let comp = pre.competitions.m()[id];
    lemma_tied_batch_merges(
        id,
        comp.judge_place_attempt,
        pre.competition_payout_structure_numerators.m(),
        comp.payout_places,
        addrs,
        0,
        pre.competition_place_details.m()[id]@,
        pre.competitors.m(),
        comp.competitors_placed_count,
        dv,
    );
}

/// Law (at the call): whenever a placement call succeeds on a tied batch
/// submitted against an empty group list, exactly one group results,
/// counting every member and summing every rank's numerator.
pub proof fn lemma_tied_batch_call_forms_single_group(
    pre: AzTradingCompetition,
    post: AzTradingCompetition,
    r: Result<(), AzTradingCompetitionError>,
    id: u64,
    addrs: Seq<AccountId>,
    caller: AccountId,
    now: Timestamp,
    dv: int,
)
    requires
        place_outcome(pre, post, r, id, addrs, caller, now),
        r is Ok,
        addrs.len() >= 1,
        tied_batch(
            pre.competitors.m(),
            id,
            pre.competitions.m()[id].judge_place_attempt,
            addrs,
            0,
            dv,
        ),
        pre.competition_place_details.m()[id]@.len() == 0,
        pre.competitions.m()[id].competitors_placed_count + addrs.len() <= u32::MAX,
        addrs.len() <= u32::MAX,
        owed_sum(
            pre.competition_payout_structure_numerators.m(),
            id,
            pre.competitions.m()[id].payout_places,
            pre.competitions.m()[id].competitors_placed_count as int,
            addrs.len() as nat,
        ) <= u16::MAX,
    ensures
        ({
            let comp = pre.competitions.m()[id];
            let groups = post.competition_place_details.m()[id]@;
            &&& groups.len() == 1
            &&& groups[0].competitors_count == addrs.len()
            &&& groups[0].payout_numerator == owed_sum(
                pre.competition_payout_structure_numerators.m(),
                id,
                comp.payout_places,
                comp.competitors_placed_count as int,
                addrs.len() as nat,
            )
            &&& dec_value(groups[0].competitor_value@) == dv
            &&& post.competitions.m()[id].competitors_placed_count
                == comp.competitors_placed_count + addrs.len()
        }),
{
    let comp = pre.competitions.m()[id];
    assert(pre.competition_place_details.m()[id]@ =~= Seq::<CompetitionPlaceDetail>::empty());
    lemma_tied_batch_forms_single_group(
        id,
        comp.judge_place_attempt,
        pre.competition_payout_structure_numerators.m(),
        comp.payout_places,
        addrs,
        pre.competitors.m(),
        comp.competitors_placed_count,
        dv,
    );
}

/// Law: a batch of tied competitors placed onto an empty group list forms
/// exactly one group, counting every member and summing every rank's
/// numerator.
pub proof fn lemma_tied_batch_forms_single_group(
    id: u64,
    attempt: u128,
    nums: Map<(u64, u16), u16>,
    places: u16,
    addrs: Seq<AccountId>,
    competitors: Map<(u64, AccountId), Competitor>,
    placed: u32,
    dv: int,
)
    requires
        addrs.len() >= 1,
        tied_batch(competitors, id, attempt, addrs, 0, dv),
        placed + addrs.len() <= u32::MAX,
        addrs.len() <= u32::MAX,
        owed_sum(nums, id, places, placed as int, addrs.len() as nat) <= u16::MAX,
    ensures
        place_scan(
            id,
            attempt,
            nums,
            places,
            addrs,
            0,
            Seq::<CompetitionPlaceDetail>::empty(),
            competitors,
            placed,
        ) matches PlaceScan::Done { groups: g2, placed: p2, .. } && p2 == placed + addrs.len()
            && g2.len() == 1 && g2[0].competitors_count == addrs.len()
            && g2[0].payout_numerator == owed_sum(
            nums,
            id,
            places,
            placed as int,
            addrs.len() as nat,
        ) && dec_value(g2[0].competitor_value@) == dv,
{
    let a = addrs[0];
    assert(tied_competitor(competitors, id, a, attempt, dv));
    let c = competitors[(id, a)];
    let owed = next_numerator(nums, id, placed, places);
    let v = c.final_value->0;
    let first = CompetitionPlaceDetail {
        competitor_value: v,
        competitors_count: 1,
        payout_numerator: owed,
    };
    let groups1 = seq![first];
    let competitors1 = competitors.insert(
        (id, a),
        (Competitor {
            final_value: c.final_value,
            judge_place_attempt: attempt,
            competition_place_details_index: 0,
        }),
    );
    lemma_owed_sum_nonneg(nums, id, places, placed as int + 1, (addrs.len() - 1) as nat);
    assert forall|t: int|
        1 <= t < addrs.len() implies tied_competitor(
        competitors1,
        id,
        #[trigger] addrs[t],
        attempt,
        dv,
    ) by {
        assert(addrs[t] != a);
        assert(tied_competitor(competitors, id, addrs[t], attempt, dv));
    }
    assert(groups1.last() == first);
    assert(dec_value(first.competitor_value@) == dv);
    lemma_tied_batch_merges(
        id,
        attempt,
        nums,
        places,
        addrs,
        1,
        groups1,
        competitors1,
        (placed + 1) as u32,
        dv,
    );
    assert(owed_sum(nums, id, places, placed as int, addrs.len() as nat) == owed + owed_sum(
        nums,
        id,
        places,
        placed as int + 1,
        (addrs.len() - 1) as nat,
    ));
}

} // verus!
