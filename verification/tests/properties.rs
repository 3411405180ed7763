use az_trading_competition::account::AccountId;
use az_trading_competition::errors::{AzTradingCompetitionError, PSP22Error, RouterError};
use az_trading_competition::store::AzTradingCompetition;
use az_trading_competition::traits::Collaborators;
use az_trading_competition::types::{Balance, CompetitionPlaceDetail, CompetitionTokenCompetitor,
    CompetitionTokenPrize, Competitor, Timestamp};
use az_trading_competition::{DEFAULT_ADMIN_FEE_PERCENTAGE_NUMERATOR, MINIMUM_DURATION,
    PERCENTAGE_CALCULATION_DENOMINATOR};

const FEE: Balance = 1_000_000_000_000;
const ENTRY: Balance = 555_555;
const START: Timestamp = 654_654;

struct Host {
    psp22_ok: bool,
    native_ok: bool,
    native_sent: Vec<(AccountId, Balance)>,
    psp22_pulls: Vec<(AccountId, AccountId, Balance)>,
    psp22_sends: Vec<(AccountId, AccountId, Balance)>,
    swap_out: Option<Vec<Balance>>,
    prices: Vec<Option<(Timestamp, Balance)>>,
}

fn host() -> Host {
    Host {
        psp22_ok: true,
        native_ok: true,
        native_sent: vec![],
        psp22_pulls: vec![],
        psp22_sends: vec![],
        swap_out: None,
        prices: vec![],
    }
}

impl Collaborators for Host {
    fn psp22_transfer(
        &mut self,
        token: AccountId,
        to: AccountId,
        amount: Balance,
    ) -> Result<(), PSP22Error> {
        if !self.psp22_ok {
            return Err(PSP22Error::InsufficientBalance);
        }
        self.psp22_sends.push((token, to, amount));
        Ok(())
    }

    fn psp22_transfer_from(
        &mut self,
        token: AccountId,
        from: AccountId,
        amount: Balance,
    ) -> Result<(), PSP22Error> {
        if !self.psp22_ok {
            return Err(PSP22Error::InsufficientBalance);
        }
        self.psp22_pulls.push((token, from, amount));
        Ok(())
    }

    fn psp22_increase_allowance(
        &mut self,
        _token: AccountId,
        _spender: AccountId,
        _amount: Balance,
    ) -> Result<(), PSP22Error> {
        Ok(())
    }

    fn native_transfer(&mut self, to: AccountId, amount: Balance) -> Result<(), String> {
        if !self.native_ok {
            return Err("insufficient free balance".to_string());
        }
        self.native_sent.push((to, amount));
        Ok(())
    }

    fn swap_exact_tokens_for_tokens(
        &mut self,
        _amount_in: Balance,
        _amount_out_min: Balance,
        _path: Vec<AccountId>,
        _deadline: u64,
    ) -> Result<Vec<Balance>, RouterError> {
        match &self.swap_out {
            Some(v) => Ok(v.clone()),
            None => Err(RouterError::InsufficientOutputAmount),
        }
    }

    fn get_latest_prices(
        &mut self,
        _price_symbols: Vec<String>,
    ) -> Vec<Option<(Timestamp, Balance)>> {
        self.prices.clone()
    }
}

fn azero() -> AccountId {
    AccountId::from_bytes(*b"aaaaaaaaaaaaaaaaaaaaaaaaaaaaaaaa")
}

fn eth() -> AccountId {
    AccountId::from_bytes(*b"bbbbbbbbbbbbbbbbbbbbbbbbbbbbbbbb")
}

fn usdc() -> AccountId {
    AccountId::from_bytes(*b"xxxxxxxxxxxxxxxxxxxxxxxxxxxxxxxx")
}

fn usdt() -> AccountId {
    AccountId::from_bytes(*b"tttttttttttttttttttttttttttttttt")
}

fn user(n: u8) -> AccountId {
    AccountId::from_bytes([n; 32])
}

fn setup() -> AzTradingCompetition {
    let mut az = AzTradingCompetition::new(
        user(1),
        vec![(azero(), usdc()), (azero(), eth()), (usdc(), usdt())],
        FEE,
        user(9),
        user(10),
        vec![
            (azero(), "AZERO/USD".to_string()),
            (eth(), "ETH/USD".to_string()),
            (usdc(), "USDC/USD".to_string()),
            (usdt(), "USDT/USD".to_string()),
        ],
    )
    .unwrap();
    az.competitions_create(user(1), START, START + MINIMUM_DURATION, usdc(), ENTRY, None, None)
        .unwrap();
    az
}

fn unprocessable(msg: &str) -> AzTradingCompetitionError {
    AzTradingCompetitionError::UnprocessableEntity(msg.to_string())
}

fn not_found(name: &str) -> AzTradingCompetitionError {
    AzTradingCompetitionError::NotFound(name.to_string())
}

#[test]
fn collect_competition_admin_fee_pays_one_share_per_competitor() {
    let mut az = setup();
    let mut h = host();
    let mut competition = az.competitions_show(0).unwrap();
    competition.payout_places = 1;
    competition.competitors_count = 2;
    az.competitions_insert(competition);
    let fee = az.collect_competition_admin_fee(&mut h, 0, user(1), START).unwrap();
    let share = ENTRY * DEFAULT_ADMIN_FEE_PERCENTAGE_NUMERATOR as u128
        / PERCENTAGE_CALCULATION_DENOMINATOR as u128;
    // 555555 * 1000 / 10000 = 55555, once per competitor
    assert_eq!(fee, 2 * share);
    assert_eq!(fee, 111_110);
    assert_eq!(h.psp22_sends, vec![(usdc(), user(1), fee)]);
    assert!(az.competitions_show(0).unwrap().admin_fee_collected);
    // a second collection is refused
    let result = az.collect_competition_admin_fee(&mut h, 0, user(1), START);
    assert_eq!(result, Err(unprocessable("Admin fee has already been colleted.")));
}

// Registering, then deregistering before the start, returns the entry fee
// exactly once and removes every balance record.
#[test]
fn register_then_deregister_returns_entry_fee_once() {
    let mut az = setup();
    let mut h = host();
    az.competition_payout_structure_numerators_update(
        0,
        vec![(0, PERCENTAGE_CALCULATION_DENOMINATOR)],
        user(1),
        0,
    )
    .unwrap();
    az.register(&mut h, 0, user(2), START - 1, FEE).unwrap();
    // the entry fee was pulled exactly once
    assert_eq!(h.psp22_pulls, vec![(usdc(), user(2), ENTRY)]);
    // the entry-fee balance is seeded net of the admin-fee reservation
    let reserved = ENTRY * DEFAULT_ADMIN_FEE_PERCENTAGE_NUMERATOR as u128
        / DEFAULT_ADMIN_FEE_PERCENTAGE_NUMERATOR as u128;
    assert_eq!(
        az.competition_token_competitors_show(0, usdc(), user(2)).unwrap().amount,
        ENTRY - reserved
    );
    assert_eq!(az.competition_token_competitors_show(0, azero(), user(2)).unwrap().amount, 0);
    assert_eq!(az.competitions_show(0).unwrap().competitors_count, 1);
    // a second registration is refused
    let result = az.register(&mut h, 0, user(2), START - 1, FEE);
    assert_eq!(result, Err(unprocessable("Already registered")));
    // deregistering before the start refunds the fee exactly once
    az.deregister(&mut h, 0, user(2), START - 1).unwrap();
    assert_eq!(h.psp22_sends, vec![(usdc(), user(2), ENTRY)]);
    assert_eq!(h.native_sent, vec![(user(2), FEE)]);
    for token in [azero(), eth(), usdc(), usdt()] {
        assert_eq!(
            az.competition_token_competitors_show(0, token, user(2)),
            Err(not_found("CompetitionTokenCompetitor"))
        );
    }
    assert_eq!(az.competitions_show(0).unwrap().competitors_count, 0);
}

// Entry fee 555555 of asset X, duration exactly the minimum; registering
// before the start with the right processing fee succeeds once and fails on
// retry or with the wrong fee.
#[test]
fn registration_scenario_with_exact_processing_fee() {
    let mut az = setup();
    let mut h = host();
    az.competition_payout_structure_numerators_update(
        0,
        vec![(0, PERCENTAGE_CALCULATION_DENOMINATOR)],
        user(1),
        0,
    )
    .unwrap();
    let with_wrong_fee = az.register(&mut h, 0, user(3), START - 1, FEE - 1);
    assert_eq!(
        with_wrong_fee,
        Err(unprocessable("Please include AZERO processing fee."))
    );
    az.register(&mut h, 0, user(3), START - 1, FEE).unwrap();
    let retry = az.register(&mut h, 0, user(3), START - 1, FEE);
    assert_eq!(retry, Err(unprocessable("Already registered")));
}

// Two participants with identical final value land in one group whose count
// is two and whose numerator sums the two positions' numerators.
#[test]
fn tied_pair_shares_one_group() {
    let mut az = setup();
    az.competition_payout_structure_numerators_update(
        0,
        vec![(0, 6000), (1, 4000)],
        user(1),
        0,
    )
    .unwrap();
    let end = START + MINIMUM_DURATION;
    let mut competition = az.competitions_show(0).unwrap();
    competition.competitors_count = 2;
    competition.competitor_final_value_updated_count = 2;
    az.competitions_insert(competition);
    for n in [5u8, 6u8] {
        az.competitors_insert(
            0,
            user(n),
            Competitor {
                final_value: Some("100".to_string()),
                judge_place_attempt: 0,
                competition_place_details_index: 0,
            },
        );
    }
    az.place_competitors(0, vec![user(5), user(6)], user(1), end + 1).unwrap();
    let details = az.competition_place_details_get(0).unwrap();
    assert_eq!(details.len(), 1);
    assert_eq!(details[0].competitor_value, "100".to_string());
    assert_eq!(details[0].competitors_count, 2);
    assert_eq!(details[0].payout_numerator, 6000 + 4000);
    assert_eq!(az.competitions_show(0).unwrap().competitors_placed_count, 2);
}

// A tie of maximal size never lets `collected` pass `amount`, and later
// claims share the rounding leftovers first-come-first-served.
#[test]
fn maximal_tie_never_overdraws_the_pool() {
    let mut az = setup();
    let mut h = host();
    let pool: Balance = 1_000_000_000_000 * 1_000_000_000_000_000_000;
    let tie: u32 = 4_294_967_295;
    let mut competition = az.competitions_show(0).unwrap();
    competition.competitors_count = 3;
    competition.competitors_placed_count = 3;
    az.competitions_insert(competition);
    az.competition_token_prizes_insert(
        0,
        usdc(),
        CompetitionTokenPrize { amount: pool, collected: 0 },
    );
    az.competition_place_details_insert(
        0,
        vec![CompetitionPlaceDetail {
            competitor_value: "1".to_string(),
            competitors_count: tie,
            payout_numerator: PERCENTAGE_CALCULATION_DENOMINATOR,
        }],
    );
    let mut expected_collected: Balance = 0;
    for n in [5u8, 6u8, 7u8] {
        az.competitors_insert(
            0,
            user(n),
            Competitor {
                final_value: Some("1".to_string()),
                judge_place_attempt: 1,
                competition_place_details_index: 0,
            },
        );
        az.competition_token_competitors_insert(
            0,
            usdc(),
            user(n),
            CompetitionTokenCompetitor { amount: 0, collected: false },
        );
        let got = az.collect_prize(&mut h, 0, usdc(), user(n)).unwrap();
        let available = pool - expected_collected;
        assert_eq!(got, available / tie as u128);
        expected_collected += got;
        let prize = az.competition_token_prizes_show(0, usdc()).unwrap();
        assert_eq!(prize.collected, expected_collected);
        assert!(prize.collected <= prize.amount);
    }
    // the first claimant of the worst case gets the documented crumb
    assert_eq!(h.psp22_sends[0].2, pool / tie as u128);
}

// Judge rotation: a strictly better challenger replaces the sitting one,
// an equal one is refused, and the handover waits for the deadline.
#[test]
fn judge_rotation_scenario() {
    let mut az = setup();
    let mut competition = az.competitions_show(0).unwrap();
    competition.competitors_count = 3;
    az.competitions_insert(competition);
    for (n, value) in [(5u8, "10"), (6u8, "20")] {
        az.competitors_insert(
            0,
            user(n),
            Competitor {
                final_value: Some(value.to_string()),
                judge_place_attempt: 0,
                competition_place_details_index: 0,
            },
        );
    }
    az.next_judge_update(0, user(5), 0).unwrap();
    // an equal-or-worse challenger is always refused
    az.competitors_insert(
        0,
        user(7),
        Competitor {
            final_value: Some("10".to_string()),
            judge_place_attempt: 0,
            competition_place_details_index: 0,
        },
    );
    let refused = az.next_judge_update(0, user(7), 0);
    assert_eq!(
        refused,
        Err(unprocessable(
            "Next judge can only be replaced by callers that performed better in specified competition."
        ))
    );
    // a strictly better challenger always replaces the sitting one
    az.next_judge_update(0, user(6), 0).unwrap();
    assert_eq!(az.competitions_show(0).unwrap().next_judge, Some(user(6)));
    assert!(az.competition_judges_get(0, user(5)).is_none());
    // the handover never lands before the incumbent's deadline
    let deadline = az.competition_judges_get(0, user(1)).unwrap().deadline;
    let early = az.judge_update(0, deadline);
    assert_eq!(early, Err(unprocessable("Current judge deadline hasn't passed.")));
    az.judge_update(0, deadline + 1).unwrap();
    assert_eq!(az.competitions_show(0).unwrap().judge, user(6));
    assert_eq!(az.competitions_show(0).unwrap().next_judge, None);
}

// A swap within the allowed-path graph settles balances from the router's
// reported output.
#[test]
fn swap_settles_balances_from_router_output() {
    let mut az = setup();
    let mut h = host();
    h.swap_out = Some(vec![555, 700]);
    let mut competition = az.competitions_show(0).unwrap();
    competition.competitors_count = 1;
    az.competitions_insert(competition);
    az.competition_token_competitors_insert(
        0,
        azero(),
        user(2),
        CompetitionTokenCompetitor { amount: 1000, collected: false },
    );
    az.competition_token_competitors_insert(
        0,
        usdc(),
        user(2),
        CompetitionTokenCompetitor { amount: 3, collected: false },
    );
    // the window opens strictly after the start
    let at_start = az.swap_exact_tokens_for_tokens(
        &mut h,
        0,
        555,
        500,
        vec![azero(), usdc()],
        START + 10,
        user(2),
        START,
    );
    assert_eq!(at_start, Err(unprocessable("Competition isn't in progress.")));
    az.swap_exact_tokens_for_tokens(
        &mut h,
        0,
        555,
        500,
        vec![azero(), usdc()],
        START + 10,
        user(2),
        START + 5,
    )
    .unwrap();
    assert_eq!(az.competition_token_competitors_show(0, azero(), user(2)).unwrap().amount, 445);
    assert_eq!(az.competition_token_competitors_show(0, usdc(), user(2)).unwrap().amount, 703);
    // a router refusal propagates untouched and moves nothing
    h.swap_out = None;
    let refused = az.swap_exact_tokens_for_tokens(
        &mut h,
        0,
        100,
        90,
        vec![azero(), usdc()],
        START + 10,
        user(2),
        START + 5,
    );
    assert_eq!(
        refused,
        Err(AzTradingCompetitionError::RouterError(RouterError::InsufficientOutputAmount))
    );
    assert_eq!(az.competition_token_competitors_show(0, azero(), user(2)).unwrap().amount, 445);
}

// A custody refusal surfaces as its own error kind and leaves the ledger
// untouched.
#[test]
fn custody_refusal_propagates() {
    let mut az = setup();
    let mut h = host();
    h.psp22_ok = false;
    az.competition_payout_structure_numerators_update(
        0,
        vec![(0, PERCENTAGE_CALCULATION_DENOMINATOR)],
        user(1),
        0,
    )
    .unwrap();
    let result = az.register(&mut h, 0, user(2), START - 1, FEE);
    assert_eq!(
        result,
        Err(AzTradingCompetitionError::PSP22Error(PSP22Error::InsufficientBalance))
    );
    assert_eq!(
        az.competition_token_competitors_show(0, usdc(), user(2)),
        Err(not_found("CompetitionTokenCompetitor"))
    );
}

// A failing incentive payment is fatal for the call and leaves the ledger
// untouched.
#[test]
fn failed_incentive_payment_aborts_final_value_update() {
    let mut az = setup();
    let mut h = host();
    h.native_ok = false;
    let end = START + MINIMUM_DURATION;
    let mut competition = az.competitions_show(0).unwrap();
    competition.token_prices_vec = vec![(1, 7), (2, 11), (3, 13), (4, 17)];
    az.competitions_insert(competition);
    az.competitors_insert(
        0,
        user(2),
        Competitor { final_value: None, judge_place_attempt: 0, competition_place_details_index: 0 },
    );
    for (token, price) in [(azero(), 7u128), (eth(), 11), (usdc(), 13), (usdt(), 17)] {
        az.competition_token_prices_insert(0, token, price);
        az.competition_token_competitors_insert(
            0,
            token,
            user(2),
            CompetitionTokenCompetitor { amount: 2, collected: false },
        );
    }
    let result = az.competitor_final_value_update(&mut h, 0, user(2), user(3), end + 1);
    assert!(matches!(result, Err(AzTradingCompetitionError::InkEnvError(_))));
    assert_eq!(az.competitors_show(0, user(2)).unwrap().final_value, None);
    // with a working payment the value is the exact sum of price times amount
    h.native_ok = true;
    let value = az
        .competitor_final_value_update(&mut h, 0, user(2), user(3), end + 1)
        .unwrap();
    assert_eq!(value, ((7u128 + 11 + 13 + 17) * 2).to_string());
    assert_eq!(h.native_sent, vec![(user(3), FEE * 1000 / 10_000)]);
}

// A one-time snapshot stores one price per symbol and refuses a partial
// oracle answer.
#[test]
fn price_snapshot_is_all_or_nothing() {
    let mut az = setup();
    let mut h = host();
    let end = START + MINIMUM_DURATION;
    h.prices = vec![Some((1, 7)), None, Some((3, 13)), Some((4, 17))];
    let partial = az.competition_token_prices_update(&mut h, 0, end + 1);
    assert_eq!(partial, Err(unprocessable("Price details from DIA unavailable.")));
    assert_eq!(az.competitions_show(0).unwrap().token_prices_vec.len(), 0);
    h.prices = vec![Some((1, 7)), Some((2, 11)), Some((3, 13)), Some((4, 17))];
    az.competition_token_prices_update(&mut h, 0, end + 1).unwrap();
    assert_eq!(
        az.competitions_show(0).unwrap().token_prices_vec,
        vec![(1, 7), (2, 11), (3, 13), (4, 17)]
    );
    assert_eq!(az.competition_token_prices_get(0, azero()), Some(7));
    assert_eq!(az.competition_token_prices_get(0, eth()), Some(11));
    assert_eq!(az.competition_token_prices_get(0, usdc()), Some(13));
    assert_eq!(az.competition_token_prices_get(0, usdt()), Some(17));
    // a second snapshot is refused
    let again = az.competition_token_prices_update(&mut h, 0, end + 1);
    assert_eq!(again, Err(unprocessable("Token prices for competition already set.")));
}

// The recorded numerator sum never passes the denominator, and registration
// is blocked until it reaches it.
#[test]
fn numerator_sum_gates_registration() {
    let mut az = setup();
    let mut h = host();
    let over = az.competition_payout_structure_numerators_update(
        0,
        vec![(0, PERCENTAGE_CALCULATION_DENOMINATOR), (1, 1)],
        user(1),
        0,
    );
    assert_eq!(over, Err(unprocessable("Numerator is greater than denominator.")));
    let partial_sum = az
        .competition_payout_structure_numerators_update(0, vec![(0, 9_999)], user(1), 0)
        .unwrap();
    assert_eq!(partial_sum, 9_999);
    let blocked = az.register(&mut h, 0, user(2), START - 1, FEE);
    assert_eq!(blocked, Err(unprocessable("Payout structure is not set yet.")));
    let full_sum = az
        .competition_payout_structure_numerators_update(0, vec![(1, 1)], user(1), 0)
        .unwrap();
    assert_eq!(full_sum, PERCENTAGE_CALCULATION_DENOMINATOR);
    az.register(&mut h, 0, user(2), START - 1, FEE).unwrap();
}

// A batch that goes out of non-decreasing order is rejected whole: no
// group appears, no count moves, not even for the valid prefix.
#[test]
fn rejected_batch_leaves_groups_untouched() {
    let mut az = setup();
    az.competition_payout_structure_numerators_update(
        0,
        vec![(0, PERCENTAGE_CALCULATION_DENOMINATOR)],
        user(1),
        0,
    )
    .unwrap();
    let end = START + MINIMUM_DURATION;
    let mut competition = az.competitions_show(0).unwrap();
    competition.competitors_count = 3;
    competition.competitor_final_value_updated_count = 3;
    az.competitions_insert(competition);
    for (n, value) in [(5u8, "5"), (6u8, "7"), (7u8, "3")] {
        az.competitors_insert(
            0,
            user(n),
            Competitor {
                final_value: Some(value.to_string()),
                judge_place_attempt: 0,
                competition_place_details_index: 0,
            },
        );
    }
    az.place_competitors(0, vec![user(5)], user(1), end + 1).unwrap();
    let before = az.competition_place_details_get(0).unwrap();
    // "7" would merge in order, but the batch then drops to "3"
    let rejected = az.place_competitors(0, vec![user(6), user(7)], user(1), end + 1);
    assert_eq!(rejected, Err(unprocessable("Competitor is in the wrong place.")));
    let after = az.competition_place_details_get(0).unwrap();
    assert_eq!(after, before);
    assert_eq!(az.competitions_show(0).unwrap().competitors_placed_count, 1);
    // even the in-order prefix of the rejected batch stays unplaced
    assert_eq!(az.competitors_show(0, user(6)).unwrap().judge_place_attempt, 0);
}

#[test]
fn emergency_rescue_changes_nothing_yet() {
    let mut az = setup();
    assert_eq!(az.emergency_rescue(0, usdc()), Ok(()));
    assert_eq!(az.competitions_show(0).unwrap().competitors_count, 0);
}
