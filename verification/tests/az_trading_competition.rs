use az_trading_competition::account::AccountId;
use az_trading_competition::errors::{AzTradingCompetitionError, PSP22Error, RouterError};
use az_trading_competition::store::AzTradingCompetition;
use az_trading_competition::traits::Collaborators;
use az_trading_competition::types::{Balance, CompetitionJudge, CompetitionPlaceDetail,
    CompetitionTokenCompetitor, CompetitionTokenPrize, Competitor, Timestamp};
use az_trading_competition::{DAY_IN_MS, DEFAULT_ADMIN_FEE_PERCENTAGE_NUMERATOR, MINIMUM_DURATION,
    PERCENTAGE_CALCULATION_DENOMINATOR};

// === CONSTANTS ===
const MOCK_DEFAULT_AZERO_PROCESSING_FEE: Balance = 1_000_000_000_000;
const MOCK_ENTRY_FEE_AMOUNT: Balance = 555_555;
const MOCK_START: Timestamp = 654_654;
const MOCK_END: Timestamp = 754_654;

// === HELPERS ===
struct MockHost {
    psp22_ok: bool,
    native_balance: Balance,
    native_sent: Vec<(AccountId, Balance)>,
    psp22_pulls: Vec<(AccountId, AccountId, Balance)>,
    psp22_sends: Vec<(AccountId, AccountId, Balance)>,
    swap_out: Option<Vec<Balance>>,
    prices: Vec<Option<(Timestamp, Balance)>>,
}

fn mock_host() -> MockHost {
    MockHost {
        psp22_ok: true,
        native_balance: u128::MAX,
        native_sent: vec![],
        psp22_pulls: vec![],
        psp22_sends: vec![],
        swap_out: None,
        prices: vec![],
    }
}

impl Collaborators for MockHost {
    fn psp22_transfer(
        &mut self,
        token: AccountId,
        to: AccountId,
        amount: Balance,
    ) -> Result<(), PSP22Error> {
        if !self.psp22_ok {
            return Err(PSP22Error::InsufficientBalance);
        }
        self.psp22_sends.push((token, to, amount));
        Ok(())
    }

    fn psp22_transfer_from(
        &mut self,
        token: AccountId,
        from: AccountId,
        amount: Balance,
    ) -> Result<(), PSP22Error> {
        if !self.psp22_ok {
            return Err(PSP22Error::InsufficientBalance);
        }
        self.psp22_pulls.push((token, from, amount));
        Ok(())
    }

    fn psp22_increase_allowance(
        &mut self,
        _token: AccountId,
        _spender: AccountId,
        _amount: Balance,
    ) -> Result<(), PSP22Error> {
        if !self.psp22_ok {
            return Err(PSP22Error::InsufficientAllowance);
        }
        Ok(())
    }

    fn native_transfer(&mut self, to: AccountId, amount: Balance) -> Result<(), String> {
        if amount > self.native_balance {
            return Err("insufficient free balance".to_string());
        }
        self.native_balance -= amount;
        self.native_sent.push((to, amount));
        Ok(())
    }

    fn swap_exact_tokens_for_tokens(
        &mut self,
        _amount_in: Balance,
        _amount_out_min: Balance,
        _path: Vec<AccountId>,
        _deadline: u64,
    ) -> Result<Vec<Balance>, RouterError> {
        match &self.swap_out {
            Some(v) => Ok(v.clone()),
            None => Err(RouterError::InsufficientOutputAmount),
        }
    }

    fn get_latest_prices(
        &mut self,
        _price_symbols: Vec<String>,
    ) -> Vec<Option<(Timestamp, Balance)>> {
        self.prices.clone()
    }
}

fn acc(byte: u8) -> AccountId {
    AccountId::from_bytes([byte; 32])
}

fn bob() -> AccountId {
    acc(1)
}

fn charlie() -> AccountId {
    acc(2)
}

fn django() -> AccountId {
    acc(3)
}

fn frank() -> AccountId {
    acc(4)
}

fn mock_token_to_dia_price_symbol_combos() -> Vec<(AccountId, String)> {
    vec![
        (AccountId::from_bytes(*b"aaaaaaaaaaaaaaaaaaaaaaaaaaaaaaaa"), "AZERO/USD".to_string()),
        (AccountId::from_bytes(*b"bbbbbbbbbbbbbbbbbbbbbbbbbbbbbbbb"), "ETH/USD".to_string()),
        (AccountId::from_bytes(*b"xxxxxxxxxxxxxxxxxxxxxxxxxxxxxxxx"), "USDC/USD".to_string()),
        (AccountId::from_bytes(*b"tttttttttttttttttttttttttttttttt"), "USDT/USD".to_string()),
    ]
}

fn mock_allowed_pair_token_combinations() -> Vec<(AccountId, AccountId)> {
    vec![
        // WAZERO/USDC
        (
            AccountId::from_bytes(*b"aaaaaaaaaaaaaaaaaaaaaaaaaaaaaaaa"),
            AccountId::from_bytes(*b"xxxxxxxxxxxxxxxxxxxxxxxxxxxxxxxx"),
        ),
        // WAZERO/ETH
        (
            AccountId::from_bytes(*b"aaaaaaaaaaaaaaaaaaaaaaaaaaaaaaaa"),
            AccountId::from_bytes(*b"bbbbbbbbbbbbbbbbbbbbbbbbbbbbbbbb"),
        ),
        // USDC/USDT
        (
            AccountId::from_bytes(*b"xxxxxxxxxxxxxxxxxxxxxxxxxxxxxxxx"),
            AccountId::from_bytes(*b"tttttttttttttttttttttttttttttttt"),
        ),
    ]
}

fn mock_entry_fee_token() -> AccountId {
    AccountId::from_bytes(*b"xxxxxxxxxxxxxxxxxxxxxxxxxxxxxxxx")
}

fn mock_router_address() -> AccountId {
    django()
}

fn mock_dia_address() -> AccountId {
    frank()
}

fn init() -> AzTradingCompetition {
    AzTradingCompetition::new(
        bob(),
        mock_allowed_pair_token_combinations(),
        MOCK_DEFAULT_AZERO_PROCESSING_FEE,
        mock_dia_address(),
        mock_router_address(),
        mock_token_to_dia_price_symbol_combos(),
    )
    .expect("REASON")
}

fn create_default_competition(az: &mut AzTradingCompetition) {
    az.competitions_create(
        bob(),
        MOCK_START,
        MOCK_START + MINIMUM_DURATION,
        mock_entry_fee_token(),
        MOCK_ENTRY_FEE_AMOUNT,
        None,
        None,
    )
    .unwrap();
}

fn unprocessable(msg: &str) -> AzTradingCompetitionError {
    AzTradingCompetitionError::UnprocessableEntity(msg.to_string())
}

fn not_found(name: &str) -> AzTradingCompetitionError {
    AzTradingCompetitionError::NotFound(name.to_string())
}

// === TEST QUERIES ===
#[test]
fn test_config() {
    let az_trading_competition = init();
    let config = az_trading_competition.config();
    // * it returns the config
    assert_eq!(config.admin, az_trading_competition.admin);
    assert_eq!(
        config.allowed_pair_token_combinations_vec,
        mock_allowed_pair_token_combinations()
    );
    assert_eq!(
        config.default_admin_fee_percentage_numerator,
        DEFAULT_ADMIN_FEE_PERCENTAGE_NUMERATOR
    );
    assert_eq!(
        config.default_azero_processing_fee,
        MOCK_DEFAULT_AZERO_PROCESSING_FEE
    );
    assert_eq!(config.dia, mock_dia_address());
    assert_eq!(config.minimum_duration, MINIMUM_DURATION);
    assert_eq!(
        config.percentage_calculation_denominator,
        PERCENTAGE_CALCULATION_DENOMINATOR
    );
    assert_eq!(config.router, az_trading_competition.router);
    assert_eq!(
        config.token_dia_price_symbols_vec,
        mock_token_to_dia_price_symbol_combos()
    );
}

#[test]
fn test_competition_place_details_show() {
    let mut az_trading_competition = init();
    // when CompetitionPlaceDetail does not exist
    let result = az_trading_competition.competition_place_details_show(0, 0);
    assert_eq!(result, Err(not_found("CompetitionPlaceDetail")));
    // when CompetitionPlaceDetail exists
    let competition_place_detail = CompetitionPlaceDetail {
        competitor_value: "0".to_string(),
        competitors_count: 1,
        payout_numerator: 1,
    };
    az_trading_competition
        .competition_place_details_insert(0, vec![competition_place_detail.clone()]);
    // = when called with the correct index
    // = * it returns the CompetitionPlaceDetail
    let result = az_trading_competition
        .competition_place_details_show(0, 0)
        .unwrap();
    assert_eq!(result, competition_place_detail);
    // = when called with the incorrect index
    // = * it raises an error
    let result = az_trading_competition.competition_place_details_show(0, 1);
    assert_eq!(result, Err(not_found("CompetitionPlaceDetail")));
}

// === TEST HANDLES ===
#[test]
fn test_collect_competition_admin_fee() {
    let mut az_trading_competition = init();
    let mut host = mock_host();
    // when called by non-admin
    let result = az_trading_competition.collect_competition_admin_fee(&mut host, 0, charlie(), 0);
    assert_eq!(result, Err(AzTradingCompetitionError::Unauthorised));
    // when called by admin
    // = when competition does not exist
    // = * it raises an error
    let result = az_trading_competition.collect_competition_admin_fee(&mut host, 0, bob(), 0);
    assert_eq!(result, Err(not_found("Competition")));
    // = when competition exists
    create_default_competition(&mut az_trading_competition);
    // == when competition hasn't started
    // == * it raises an error
    let result = az_trading_competition.collect_competition_admin_fee(
        &mut host,
        0,
        bob(),
        MOCK_START - 1,
    );
    assert_eq!(result, Err(unprocessable("Competition hasn't started")));
    // == when competition has started
    // === when competition has not met minimum competitor requirements
    let mut competition = az_trading_competition.competitions_show(0).unwrap();
    competition.payout_places = 1;
    az_trading_competition.competitions_insert(competition);
    // === * it raises an error
    let result = az_trading_competition.collect_competition_admin_fee(
        &mut host,
        0,
        bob(),
        MOCK_START,
    );
    assert_eq!(
        result,
        Err(unprocessable(
            "Competition hasn't met minimum competitor requirements."
        ))
    );
    // === when competition has met minimum competitor requirements
    let mut competition = az_trading_competition.competitions_show(0).unwrap();
    competition.competitors_count = (competition.payout_places + 1).into();
    az_trading_competition.competitions_insert(competition);
    // ==== when competition admin fee has already been collected
    let mut competition = az_trading_competition.competitions_show(0).unwrap();
    competition.admin_fee_collected = true;
    az_trading_competition.competitions_insert(competition);
    // ==== * it raises an error
    let result = az_trading_competition.collect_competition_admin_fee(
        &mut host,
        0,
        bob(),
        MOCK_START,
    );
    assert_eq!(
        result,
        Err(unprocessable("Admin fee has already been colleted."))
    );
}

#[test]
fn test_collect_prize() {
    let mut az_trading_competition = init();
    let mut host = mock_host();
    let token = mock_token_to_dia_price_symbol_combos()[0].0;
    // = when competition does not exist
    // = * it raises an error
    let result = az_trading_competition.collect_prize(&mut host, 0, token, bob());
    assert_eq!(result, Err(not_found("Competition")));
    // = when competition exists
    create_default_competition(&mut az_trading_competition);
    // == when all competitors haven't been placed yet
    let mut competition = az_trading_competition.competitions_show(0).unwrap();
    competition.competitors_count = 1;
    az_trading_competition.competitions_insert(competition);
    // == * it raises an error
    let result = az_trading_competition.collect_prize(&mut host, 0, token, bob());
    assert_eq!(
        result,
        Err(unprocessable("All competitors haven't been placed yet."))
    );
    // == when all competitors have been placed
    let mut competition = az_trading_competition.competitions_show(0).unwrap();
    competition.competitors_placed_count = competition.competitors_count;
    az_trading_competition.competitions_insert(competition);
    // === when competition token competitor is not present
    // === * it raises an error
    let result = az_trading_competition.collect_prize(&mut host, 0, token, bob());
    assert_eq!(result, Err(not_found("CompetitionTokenCompetitor")));
    // === when competition token competitor is present
    // ==== when prize has been collected already
    az_trading_competition.competition_token_competitors_insert(
        0,
        token,
        bob(),
        CompetitionTokenCompetitor { amount: 0, collected: true },
    );
    // ==== * it raises an error
    let result = az_trading_competition.collect_prize(&mut host, 0, token, bob());
    assert_eq!(result, Err(unprocessable("Prize has already been collected.")));
    // ==== when prize has not been collected yet
    az_trading_competition.competition_token_competitors_insert(
        0,
        token,
        bob(),
        CompetitionTokenCompetitor { amount: 0, collected: false },
    );
    // ===== when competition token prize doesn't exist
    // ===== * it raises an error
    let result = az_trading_competition.collect_prize(&mut host, 0, token, bob());
    assert_eq!(result, Err(not_found("CompetitionTokenPrize")));
    // ==== when competition token prize exists
    az_trading_competition.competition_token_prizes_insert(
        0,
        token,
        CompetitionTokenPrize { amount: 5, collected: 0 },
    );
    // ===== when competitor's place detail numerator is zero
    az_trading_competition.competitors_insert(
        0,
        bob(),
        Competitor {
            final_value: Some("1".to_string()),
            judge_place_attempt: 1,
            competition_place_details_index: 0,
        },
    );
    let mut competition_place_details_vec =
        az_trading_competition.competition_place_details_get(0).unwrap();
    let mut competition_place_detail = CompetitionPlaceDetail {
        competitor_value: "1".to_string(),
        competitors_count: 1,
        payout_numerator: 0,
    };
    competition_place_details_vec.push(competition_place_detail.clone());
    az_trading_competition.competition_place_details_insert(0, competition_place_details_vec);
    // ===== * it raises an error
    let result = az_trading_competition.collect_prize(&mut host, 0, token, bob());
    assert_eq!(result, Err(unprocessable("No prize to collect.")));
    // ===== when place detail numerator is positive
    competition_place_detail.payout_numerator = 1;
    let mut competition_place_details_vec =
        az_trading_competition.competition_place_details_get(0).unwrap();
    competition_place_details_vec.pop();
    competition_place_details_vec.push(competition_place_detail);
    az_trading_competition.competition_place_details_insert(0, competition_place_details_vec);
    // ====== when competition token prize has been fully colleted already
    az_trading_competition.competition_token_prizes_insert(
        0,
        token,
        CompetitionTokenPrize { amount: 5, collected: 5 },
    );
    let result = az_trading_competition.collect_prize(&mut host, 0, token, bob());
    assert_eq!(result, Err(unprocessable("No prize to collect.")));
    // ====== when competition token prize has not been fully collected already
    az_trading_competition.competition_token_prizes_insert(
        0,
        token,
        CompetitionTokenPrize { amount: 5, collected: 1 },
    );
    // ======= when amount to send to user is zero
    // ======= * it raises an error
    let result = az_trading_competition.collect_prize(&mut host, 0, token, bob());
    assert_eq!(result, Err(unprocessable("No prize to collect.")));
}

#[test]
fn test_competitions_create() {
    let mut az_trading_competition = init();
    // when competitions_count is u64 max
    az_trading_competition.set_competitions_count(u64::MAX);
    // * it raises an error
    let result = az_trading_competition.competitions_create(
        bob(),
        MOCK_START,
        MOCK_END,
        mock_entry_fee_token(),
        MOCK_ENTRY_FEE_AMOUNT,
        None,
        None,
    );
    assert_eq!(result, Err(unprocessable("Max number of competitions reached.")));
    // when competitions_count is less than u64 max
    az_trading_competition.set_competitions_count(u64::MAX - 3);
    // = when duration is less than or equal to MINIMUM_DURATION
    let result = az_trading_competition.competitions_create(
        bob(),
        MOCK_START,
        MOCK_START + MINIMUM_DURATION - 1,
        mock_entry_fee_token(),
        MOCK_ENTRY_FEE_AMOUNT,
        None,
        None,
    );
    // = * it raises an error
    assert_eq!(
        result,
        Err(unprocessable(&format!(
            "Competition must run a minimum duration of {MINIMUM_DURATION}ms."
        )))
    );
    // = when duration is greater than MINIMUM_DURATION
    // == when fee amount is zero
    let result = az_trading_competition.competitions_create(
        bob(),
        MOCK_START,
        MOCK_START + MINIMUM_DURATION,
        mock_entry_fee_token(),
        0,
        None,
        None,
    );
    // == * it raises an error
    assert_eq!(result, Err(unprocessable("Entry fee amount must be positive")));
    // == when fee amount is positive
    let mut competitions_count: u64 = az_trading_competition.competitions_count;
    // === when fee token doesn't have a dia price symbol
    let result = az_trading_competition.competitions_create(
        bob(),
        MOCK_START,
        MOCK_START + MINIMUM_DURATION,
        mock_dia_address(),
        MOCK_ENTRY_FEE_AMOUNT,
        None,
        None,
    );
    // === * it raises an error
    assert_eq!(result, Err(unprocessable("Entry fee token is not permitted.")));
    // === when fee token has a dia price symbol
    az_trading_competition
        .competitions_create(
            bob(),
            MOCK_START,
            MOCK_START + MINIMUM_DURATION,
            mock_entry_fee_token(),
            MOCK_ENTRY_FEE_AMOUNT,
            None,
            None,
        )
        .unwrap();
    // ==== when azero_processing_fee is not present
    // ==== * it stores the competition with the default_azero_processing_fee
    let competition = az_trading_competition.competitions_show(competitions_count).unwrap();
    assert_eq!(
        competition.azero_processing_fee,
        MOCK_DEFAULT_AZERO_PROCESSING_FEE
    );
    // ==== when azero_processing_fee is present
    // ==== * it stores the competition with the provided azero_processing_fee
    let competition = az_trading_competition
        .competitions_create(
            bob(),
            MOCK_START,
            MOCK_START + MINIMUM_DURATION,
            mock_entry_fee_token(),
            MOCK_ENTRY_FEE_AMOUNT,
            None,
            Some(MOCK_DEFAULT_AZERO_PROCESSING_FEE - 1),
        )
        .unwrap();
    competitions_count += 1;
    assert_eq!(
        competition.azero_processing_fee,
        MOCK_DEFAULT_AZERO_PROCESSING_FEE - 1
    );
    // ==== when admin_fee_percentage_numerator is not present
    // ==== * it stores the competition with default fee percentage numerator
    assert_eq!(
        competition.admin_fee_percentage_numerator,
        DEFAULT_ADMIN_FEE_PERCENTAGE_NUMERATOR
    );
    // ==== * it increases the competitions_count by 1
    assert_eq!(
        az_trading_competition.competitions_count,
        competitions_count + 1
    );
    // ==== when fee_percentage_numerator is present
    let mut admin_fee_percentage_numerator: Option<u16> =
        Some(DEFAULT_ADMIN_FEE_PERCENTAGE_NUMERATOR);
    // ===== when called by non-admin
    // ===== * it raises an error
    let result = az_trading_competition.competitions_create(
        charlie(),
        MOCK_START,
        MOCK_START + MINIMUM_DURATION,
        mock_entry_fee_token(),
        MOCK_ENTRY_FEE_AMOUNT,
        admin_fee_percentage_numerator,
        None,
    );
    assert_eq!(result, Err(AzTradingCompetitionError::Unauthorised));
    // ===== when called by admin
    // ====== when admin_fee_percentage_numerator is greater than or equal to default_fee_percentage_numerate
    // ====== * it raises an error
    let result = az_trading_competition.competitions_create(
        bob(),
        MOCK_START,
        MOCK_START + MINIMUM_DURATION,
        mock_entry_fee_token(),
        MOCK_ENTRY_FEE_AMOUNT,
        admin_fee_percentage_numerator,
        None,
    );
    assert_eq!(
        result,
        Err(unprocessable(
            "Fee percentage numerator must be less than the default."
        ))
    );
    // ====== when admin_fee_percentage_numerator is less than default_fee_percentage_numerate
    admin_fee_percentage_numerator = Some(DEFAULT_ADMIN_FEE_PERCENTAGE_NUMERATOR - 1);
    // ======= * it stores the competition with provided fee percentage numerator
    az_trading_competition
        .competitions_create(
            bob(),
            MOCK_START,
            MOCK_START + MINIMUM_DURATION,
            mock_entry_fee_token(),
            MOCK_ENTRY_FEE_AMOUNT,
            admin_fee_percentage_numerator,
            None,
        )
        .unwrap();
    let competition = az_trading_competition
        .competitions_show(competitions_count + 1)
        .unwrap();
    assert_eq!(
        competition.admin_fee_percentage_numerator,
        admin_fee_percentage_numerator.unwrap(),
    );
    // ======= * it sets the admin as the judge
    assert_eq!(competition.judge, az_trading_competition.admin);
    // ======= * it stores the competition judge for the admin with the deadline 1 day after the competition end
    assert_eq!(
        competition.end + DAY_IN_MS,
        az_trading_competition
            .competition_judges_get(competition.id, competition.judge)
            .unwrap()
            .deadline
    )
}

#[test]
fn test_competition_payout_structure_numerators_update() {
    let mut az_trading_competition = init();
    let mut payout_structure_numerators: Vec<(u16, u16)> = vec![(0, 1)];
    // when competition does not exist
    // * it raises an error
    let result = az_trading_competition.competition_payout_structure_numerators_update(
        0,
        payout_structure_numerators.clone(),
        bob(),
        0,
    );
    assert_eq!(result, Err(not_found("Competition")));
    // when competition exist
    create_default_competition(&mut az_trading_competition);
    // = when called by non-creator
    // = * it raises an error
    let result = az_trading_competition.competition_payout_structure_numerators_update(
        0,
        payout_structure_numerators.clone(),
        charlie(),
        0,
    );
    assert_eq!(result, Err(AzTradingCompetitionError::Unauthorised));
    // = when called by creator
    // == when competition has started
    let result = az_trading_competition.competition_payout_structure_numerators_update(
        0,
        payout_structure_numerators.clone(),
        bob(),
        MOCK_START,
    );
    // == * it raises an error
    assert_eq!(result, Err(unprocessable("Competition has started")));
    // == when competition has not started
    // === when competition has registrants
    let mut competition = az_trading_competition.competitions_show(0).unwrap();
    competition.competitors_count = 1;
    az_trading_competition.competitions_insert(competition);
    let result = az_trading_competition.competition_payout_structure_numerators_update(
        0,
        payout_structure_numerators.clone(),
        bob(),
        MOCK_START - 1,
    );
    assert_eq!(
        result,
        Err(unprocessable("Unable to change when registrants present."))
    );
    // === when competition does not have registrants
    let mut competition = az_trading_competition.competitions_show(0).unwrap();
    competition.competitors_count = 0;
    az_trading_competition.competitions_insert(competition);
    // ==== when a payout_structure_numerator is greater than zero and the position before does not have a numerator set
    // ==== * it raises an error
    payout_structure_numerators = vec![(0, 1), (2, 1)];
    let result = az_trading_competition.competition_payout_structure_numerators_update(
        0,
        payout_structure_numerators,
        bob(),
        MOCK_START - 1,
    );
    assert_eq!(
        result,
        Err(unprocessable("Position must come after a present position."))
    );
    // ==== when all payout_structure_numerators have a zero position or have a position before with a numerator set
    // ===== when a numerator is zero
    payout_structure_numerators = vec![
        (0, 1),
        (1, 2),
        (2, PERCENTAGE_CALCULATION_DENOMINATOR - 2 - 1),
        (3, 0),
    ];
    // ===== * it raises an error
    let result = az_trading_competition.competition_payout_structure_numerators_update(
        0,
        payout_structure_numerators.clone(),
        bob(),
        MOCK_START - 1,
    );
    assert_eq!(result, Err(unprocessable("Numerator must be positive.")));
    // ====== when all numerators are positive
    // ======= when new numerators causes the sum of numerators to be larger than denominator
    payout_structure_numerators = vec![
        (0, 1),
        (1, 2),
        (2, PERCENTAGE_CALCULATION_DENOMINATOR - 2 - 1),
        (3, 1),
    ];
    // ======= * it raises an error
    let result = az_trading_competition.competition_payout_structure_numerators_update(
        0,
        payout_structure_numerators.clone(),
        bob(),
        MOCK_START - 1,
    );
    assert_eq!(
        result,
        Err(unprocessable("Numerator is greater than denominator."))
    );
    // ======= when new numerators causes the sum of numerators to be less than or equal to denominator
    payout_structure_numerators = vec![
        (0, 1),
        (1, 2),
        (2, PERCENTAGE_CALCULATION_DENOMINATOR - 2 - 1),
    ];
    // ======== when competition.payout_places is less than or equal to the highest position in payout_structure_numerators
    // ======== * it updates the payout_places to the highest position + 1
    az_trading_competition
        .competition_payout_structure_numerators_update(
            0,
            payout_structure_numerators.clone(),
            bob(),
            MOCK_START - 1,
        )
        .unwrap();
    let competition = az_trading_competition.competitions_show(0).unwrap();
    assert_eq!(competition.payout_places, 3);
    // ======== * it saves the payout_structure_numerators
    assert_eq!(
        az_trading_competition
            .competition_payout_structure_numerators_get(0, payout_structure_numerators[0].0)
            .unwrap(),
        payout_structure_numerators[0].1
    );
    assert_eq!(
        az_trading_competition
            .competition_payout_structure_numerators_get(0, payout_structure_numerators[1].0)
            .unwrap(),
        payout_structure_numerators[1].1
    );
    assert_eq!(
        az_trading_competition
            .competition_payout_structure_numerators_get(0, payout_structure_numerators[2].0)
            .unwrap(),
        payout_structure_numerators[2].1
    );
    // ======== * it updates the competition.payout_structure_numerator_sum
    assert_eq!(
        competition.payout_structure_numerator_sum,
        PERCENTAGE_CALCULATION_DENOMINATOR
    );
    // ======== when competition.payout_places is greater than the highest position in payout_structure_numerators
    // ======== * it does not change competition.payout_places
    payout_structure_numerators.pop();
    az_trading_competition
        .competition_payout_structure_numerators_update(
            0,
            payout_structure_numerators.clone(),
            bob(),
            MOCK_START - 1,
        )
        .unwrap();
    assert_eq!(competition.payout_places, 3);
}

#[test]
fn test_competition_token_prices_update() {
    let mut az_trading_competition = init();
    let mut host = mock_host();
    // when competition does not exist
    // * it raises an error
    let result = az_trading_competition.competition_token_prices_update(&mut host, 0, 0);
    assert_eq!(result, Err(not_found("Competition")));
    // when competition exist
    create_default_competition(&mut az_trading_competition);
    // = when competition has not ended
    // = * it raises an error
    let result = az_trading_competition.competition_token_prices_update(&mut host, 0, 0);
    assert_eq!(result, Err(unprocessable("Competition hasn't ended.")));
    // = when competition has ended
    // == when final prices have already been recorded
    let mut competition = az_trading_competition.competitions_show(0).unwrap();
    competition.token_prices_vec = vec![(5, 5)];
    az_trading_competition.competitions_insert(competition);
    let result = az_trading_competition.competition_token_prices_update(
        &mut host,
        0,
        MOCK_START + MINIMUM_DURATION + 1,
    );
    assert_eq!(
        result,
        Err(unprocessable("Token prices for competition already set."))
    );
}

#[test]
fn test_deregister() {
    let mut az_trading_competition = init();
    let mut host = mock_host();
    // when competition does not exist
    // * it raises an error
    let result = az_trading_competition.deregister(&mut host, 0, bob(), 0);
    assert_eq!(result, Err(not_found("Competition")));
    // when competition exist
    create_default_competition(&mut az_trading_competition);
    // = when caller is not registered
    // = * it raises an error
    let result = az_trading_competition.deregister(&mut host, 0, bob(), 0);
    assert_eq!(result, Err(not_found("CompetitionTokenCompetitor")));
    // = when caller is registered
    az_trading_competition.competition_token_competitors_insert(
        0,
        mock_entry_fee_token(),
        bob(),
        CompetitionTokenCompetitor { amount: MOCK_ENTRY_FEE_AMOUNT, collected: false },
    );
    // == when competition has started
    // === when competitor count is equal to or greater than payout places
    // === * it raises an error
    let result = az_trading_competition.deregister(&mut host, 0, bob(), MOCK_START);
    assert_eq!(
        result,
        Err(unprocessable(
            "Unable to deregister when competition has started and minimum competitor requirements met."
        ))
    );
}

#[test]
fn test_competitor_final_value_update() {
    let mut az_trading_competition = init();
    let mut host = mock_host();
    // when competition does not exist
    // * it raises an error
    let result =
        az_trading_competition.competitor_final_value_update(&mut host, 0, bob(), bob(), 0);
    assert_eq!(result, Err(not_found("Competition")));
    // when competition exists
    create_default_competition(&mut az_trading_competition);
    let end = MOCK_START + MINIMUM_DURATION;
    // = when competition hasn't ended
    // = * it raises an error
    let result =
        az_trading_competition.competitor_final_value_update(&mut host, 0, bob(), bob(), end);
    assert_eq!(result, Err(unprocessable("Competition hasn't ended.")));
    // = when competition has ended
    // == when Competitor doesn't exist
    let result =
        az_trading_competition.competitor_final_value_update(&mut host, 0, bob(), bob(), end + 1);
    assert_eq!(result, Err(not_found("Competitor")));
    // == when Competitor exists
    // === when Competitor is processed already
    az_trading_competition.competitors_insert(
        0,
        bob(),
        Competitor {
            final_value: Some(0.to_string()),
            judge_place_attempt: 0,
            competition_place_details_index: 0,
        },
    );
    // === * it raises an error
    let result =
        az_trading_competition.competitor_final_value_update(&mut host, 0, bob(), bob(), end + 1);
    assert_eq!(result, Err(unprocessable("Competitor already processed.")));
    // === when Competitor doesn't have final_value
    az_trading_competition.competitors_insert(
        0,
        bob(),
        Competitor {
            final_value: None,
            judge_place_attempt: 0,
            competition_place_details_index: 0,
        },
    );
    // ==== when competion token prices haven't been set
    // ==== * it raises an error
    let result =
        az_trading_competition.competitor_final_value_update(&mut host, 0, bob(), bob(), end + 1);
    assert_eq!(result, Err(unprocessable("Token prices haven't been set.")));
    // ==== when competion token prices have been set
    let token_prices: Vec<(Timestamp, Balance)> = vec![
        (1721529505000, 422649090041300300),
        (1721531044000, 3514376553083345700000),
        (1721489651000, 1000078250788530200),
        (1721480044001, 1000479999999999000),
    ];
    let mut competition = az_trading_competition.competitions_show(0).unwrap();
    competition.token_prices_vec = token_prices.clone();
    az_trading_competition.competitions_insert(competition);
    let mut competitor_usd_value: Balance = 0;
    let token_balance: Balance = 1;
    // the price slots run in the fixed symbol order
    let symbol_order: Vec<AccountId> = vec![
        AccountId::from_bytes(*b"aaaaaaaaaaaaaaaaaaaaaaaaaaaaaaaa"),
        AccountId::from_bytes(*b"bbbbbbbbbbbbbbbbbbbbbbbbbbbbbbbb"),
        AccountId::from_bytes(*b"xxxxxxxxxxxxxxxxxxxxxxxxxxxxxxxx"),
        AccountId::from_bytes(*b"tttttttttttttttttttttttttttttttt"),
    ];
    for (index, token) in symbol_order.iter().enumerate() {
        az_trading_competition.competition_token_prices_insert(0, *token, token_prices[index].1);
        az_trading_competition.competition_token_competitors_insert(
            0,
            *token,
            bob(),
            CompetitionTokenCompetitor { amount: token_balance, collected: false },
        );
        competitor_usd_value += token_prices[index].1;
    }
    host.native_balance = MOCK_DEFAULT_AZERO_PROCESSING_FEE * 100 / 1000;
    let caller_balance: Balance = 0;
    az_trading_competition
        .competitor_final_value_update(&mut host, 0, bob(), bob(), end + 1)
        .unwrap();
    // ==== * it sets the final_value for the competitor
    let final_value = az_trading_competition
        .competitors_show(0, bob())
        .unwrap()
        .final_value
        .unwrap();
    assert_eq!(final_value, competitor_usd_value.to_string());
    // ==== * it adds to the competition_token_prize
    for token in symbol_order.iter() {
        assert_eq!(
            az_trading_competition
                .competition_token_prizes_show(0, *token)
                .unwrap()
                .amount,
            token_balance
        );
    }
    // ==== * it increases the competition.competitor_final_value_updated_count by one
    let competition = az_trading_competition.competitions_show(0).unwrap();
    assert_eq!(competition.competitor_final_value_updated_count, 1);
    // ==== * it sends the caller 10% of the azero_processing_fee
    let paid: Balance = host.native_sent.iter().map(|p| p.1).sum();
    assert!(paid > caller_balance);
    assert!(paid < caller_balance + MOCK_DEFAULT_AZERO_PROCESSING_FEE * 110 / 1000);
    assert_eq!(0, host.native_balance);
}

#[test]
fn test_judge_update() {
    let mut az_trading_competition = init();
    // when competition does not exist
    // * it raises an error
    let result = az_trading_competition.judge_update(0, MOCK_START);
    assert_eq!(result, Err(not_found("Competition")));
    // when competition exist
    create_default_competition(&mut az_trading_competition);
    // = when all of the competitors have been placed
    let mut competition = az_trading_competition.competitions_show(0).unwrap();
    competition.competitors_count = 5;
    competition.competitors_placed_count = 5;
    az_trading_competition.competitions_insert(competition);
    // = * it raises an error
    let result = az_trading_competition.judge_update(0, MOCK_START);
    assert_eq!(result, Err(unprocessable("All competitors have been placed.")));
    // = when all of the competitors haven't been placed
    let mut competition = az_trading_competition.competitions_show(0).unwrap();
    competition.competitors_count = 5;
    competition.competitors_placed_count = 1;
    az_trading_competition.competitions_insert(competition);
    // == when next judge does not exist
    // == * it raises an error
    let result = az_trading_competition.judge_update(0, MOCK_START);
    assert_eq!(result, Err(unprocessable("Next judge absent.")));
    // == when next judge exists
    let mut competition = az_trading_competition.competitions_show(0).unwrap();
    competition.next_judge = Some(django());
    az_trading_competition.competitions_insert(competition);
    // === when current time is before or equal to current judge deadline
    let judge = az_trading_competition.competitions_show(0).unwrap().judge;
    az_trading_competition.competition_judges_insert(
        0,
        judge,
        CompetitionJudge { deadline: MOCK_START },
    );
    // === * it raises an error
    let result = az_trading_competition.judge_update(0, MOCK_START);
    assert_eq!(
        result,
        Err(unprocessable("Current judge deadline hasn't passed."))
    );
    // === when current time is after current judge deadline
    // === * it updates the judge
    az_trading_competition.judge_update(0, MOCK_START + 1).unwrap();
    let competition = az_trading_competition.competitions_show(0).unwrap();
    assert_eq!(competition.judge, django());
    // === * it resets the next_judge
    assert_eq!(competition.next_judge, None);
}

#[test]
fn test_next_judge_update() {
    let mut az_trading_competition = init();
    // when competition does not exist
    // * it raises an error
    let result = az_trading_competition.next_judge_update(0, bob(), 0);
    assert_eq!(result, Err(not_found("Competition")));
    // when competition exist
    create_default_competition(&mut az_trading_competition);
    // = when all of the competitors have been placed
    let mut competition = az_trading_competition.competitions_show(0).unwrap();
    competition.competitors_count = 5;
    competition.competitors_placed_count = 5;
    az_trading_competition.competitions_insert(competition);
    // = * it raises an error
    let result = az_trading_competition.next_judge_update(0, bob(), 0);
    assert_eq!(result, Err(unprocessable("All competitors have been placed.")));
    // = when all of the competitors haven't been placed
    let mut competition = az_trading_competition.competitions_show(0).unwrap();
    competition.competitors_count = 5;
    competition.competitors_placed_count = 1;
    az_trading_competition.competitions_insert(competition);
    // == when caller has been a competition judge before
    // == * it raises an error
    let result = az_trading_competition.next_judge_update(0, bob(), 0);
    assert_eq!(result, Err(unprocessable("You can only be a judge one time.")));
    // == when caller has not been competition judge before
    // === when next_judge is present
    let mut competition = az_trading_competition.competitions_show(0).unwrap();
    competition.next_judge = Some(django());
    az_trading_competition.competitions_insert(competition);
    // ==== when caller's final value in competition is less than or equal to next judge
    // ==== * it raises an error
    let result = az_trading_competition.next_judge_update(0, charlie(), 0);
    assert_eq!(
        result,
        Err(unprocessable(
            "Next judge can only be replaced by callers that performed better in specified competition."
        ))
    );
    // ==== when caller's final value in competition is more than next judge
    az_trading_competition.competitors_insert(
        0,
        charlie(),
        Competitor {
            final_value: Some("1".to_string()),
            judge_place_attempt: 0,
            competition_place_details_index: 0,
        },
    );
    // ==== * it replaces the current next_judge with the caller
    let competition = az_trading_competition.next_judge_update(0, charlie(), 0).unwrap();
    assert_eq!(competition.next_judge, Some(charlie()));
    // ==== * it removes the current next_judge's CompetitionJudge
    assert!(az_trading_competition.competition_judges_get(0, django()).is_none());
    // ===== when current time is before or on current judge's deadline
    // ===== * it sets the next judge's deadline as 24 hours from the current judge's deadline
    let current_judge_deadline = az_trading_competition
        .competition_judges_get(0, competition.judge)
        .unwrap()
        .deadline;
    assert_eq!(
        az_trading_competition
            .competition_judges_get(0, charlie())
            .unwrap()
            .deadline,
        current_judge_deadline + DAY_IN_MS
    );
    // ===== when current time is after current judge's deadline
    let mut competition = az_trading_competition.competitions_show(0).unwrap();
    competition.next_judge = None;
    az_trading_competition.competitions_insert(competition);
    az_trading_competition.competition_judges_remove(0, charlie());
    // ==== * it creates a CompetitionJudge for caller with deadline set to 24 hours after current judge deadline or 24 hours into the future, whichever is greater
    az_trading_competition
        .next_judge_update(0, charlie(), current_judge_deadline + 1)
        .unwrap();
    assert_eq!(
        az_trading_competition
            .competition_judges_get(0, charlie())
            .unwrap()
            .deadline,
        current_judge_deadline + 1 + DAY_IN_MS
    );
}

#[test]
fn test_place_competitors() {
    let mut az_trading_competition = init();
    // when competition does not exist
    // * it raises an error
    let result = az_trading_competition.place_competitors(0, vec![], bob(), 0);
    assert_eq!(result, Err(not_found("Competition")));
    // when competition exist
    create_default_competition(&mut az_trading_competition);
    let payout_structure: Vec<(u16, u16)> = vec![(0, 5), (1, 4)];
    az_trading_competition
        .competition_payout_structure_numerators_update(0, payout_structure.clone(), bob(), 0)
        .unwrap();
    let end = MOCK_START + MINIMUM_DURATION;
    // = when caller is not the competition's judge
    // = * it raises an error
    let result = az_trading_competition.place_competitors(0, vec![], charlie(), end);
    assert_eq!(result, Err(AzTradingCompetitionError::Unauthorised));
    // = when caller is the competition's judge
    // == when competition hasn't ended
    // == * it raises an error
    let result = az_trading_competition.place_competitors(0, vec![], bob(), end);
    assert_eq!(result, Err(unprocessable("Competition hasn't ended.")));
    // == when competition has ended
    // === when all competitors have not had their final values set
    let mut competition = az_trading_competition.competitions_show(0).unwrap();
    competition.competitors_count = 1;
    az_trading_competition.competitions_insert(competition);
    // === * it raises an error
    let result = az_trading_competition.place_competitors(0, vec![], bob(), end + 1);
    assert_eq!(
        result,
        Err(unprocessable(
            "All competitors have not had their final values updated."
        ))
    );
    // === when all competitors have had their final values set
    let mut competition = az_trading_competition.competitions_show(0).unwrap();
    competition.competitor_final_value_updated_count = 1;
    az_trading_competition.competitions_insert(competition);
    // ==== when any of the competitors are not part of the competition
    let result = az_trading_competition.place_competitors(0, vec![django()], bob(), end + 1);
    // ==== * it raises an error
    assert_eq!(result, Err(not_found("Competitor")));
    // ==== when all competitors are part of the competition
    // ===== when any of the competitors have been placed in this placement round already
    let django_final_value: Option<String> = Some("5".to_string());
    az_trading_competition.competitors_insert(
        0,
        django(),
        Competitor {
            final_value: django_final_value.clone(),
            judge_place_attempt: 1,
            competition_place_details_index: 0,
        },
    );
    // ===== * it raises an error
    let result = az_trading_competition.place_competitors(0, vec![django()], bob(), end + 1);
    assert_eq!(result, Err(unprocessable("Competitor has already been placed.")));
    // ===== when all of the competitors haven't been placed in this placement round
    az_trading_competition.competitors_remove(0, django());
    az_trading_competition.competitors_insert(
        0,
        django(),
        Competitor {
            final_value: django_final_value.clone(),
            judge_place_attempt: 0,
            competition_place_details_index: 0,
        },
    );
    // ====== when no competitors have been placed yet
    az_trading_competition
        .place_competitors(0, vec![django()], bob(), end + 1)
        .unwrap();
    // ====== * it places the competitor in the first slot
    let competition_place_details_vec =
        az_trading_competition.competition_place_details_get(0).unwrap();
    assert_eq!(
        competition_place_details_vec[0].competitor_value,
        django_final_value.clone().unwrap(),
    );
    // ====== * it sets the competitor count to 1
    assert_eq!(competition_place_details_vec[0].competitors_count, 1);
    // ====== * it sets the payout numerator for the first spot
    assert_eq!(
        competition_place_details_vec[0].payout_numerator,
        payout_structure[0].1
    );
    // ====== * it sets the competitor's competition_place_details_index
    assert_eq!(
        az_trading_competition
            .competitors_show(0, django())
            .unwrap()
            .competition_place_details_index,
        0
    );
    // ====== when some competitors have been placed so far
    // ======= when competitor has the same final value as the last placed competitor
    az_trading_competition.competitors_insert(
        0,
        charlie(),
        Competitor {
            final_value: django_final_value.clone(),
            judge_place_attempt: 0,
            competition_place_details_index: 0,
        },
    );
    az_trading_competition
        .place_competitors(0, vec![charlie()], bob(), end + 1)
        .unwrap();
    let competition_place_details_vec =
        az_trading_competition.competition_place_details_get(0).unwrap();
    // ======= * it adds to the latest place's count
    assert_eq!(competition_place_details_vec.len(), 1);
    assert_eq!(competition_place_details_vec[0].competitors_count, 2);
    // ====== * it adds to the latest place's numerator
    assert_eq!(
        competition_place_details_vec[0].payout_numerator,
        payout_structure[0].1 + payout_structure[1].1
    );
    // ====== * it sets the competitor's competition_place_details_index
    assert_eq!(
        az_trading_competition
            .competitors_show(0, charlie())
            .unwrap()
            .competition_place_details_index,
        0
    );
    // ======= when competitor has a higher final value than the last placed competitor
    let bob_final_value: String = "6".to_string();
    az_trading_competition.competitors_insert(
        0,
        bob(),
        Competitor {
            final_value: Some(bob_final_value.clone()),
            judge_place_attempt: 0,
            competition_place_details_index: 0,
        },
    );
    az_trading_competition
        .place_competitors(0, vec![bob()], bob(), end + 1)
        .unwrap();
    // ======= * it places the competitor onto the end
    let competition_place_details_vec =
        az_trading_competition.competition_place_details_get(0).unwrap();
    assert_eq!(competition_place_details_vec.len(), 2);
    assert_eq!(
        competition_place_details_vec[1].competitor_value,
        bob_final_value
    );
    assert_eq!(competition_place_details_vec[1].competitors_count, 1);
    // ======= * it sets the competitor's competition_place_details_index
    assert_eq!(
        az_trading_competition
            .competitors_show(0, bob())
            .unwrap()
            .competition_place_details_index,
        1
    );
    // ====== * it sets the competitor count to 1
    assert_eq!(competition_place_details_vec[1].competitors_count, 1);
    // ====== * it sets the payout numerator for the second spot
    assert_eq!(competition_place_details_vec[1].payout_numerator, 0);
    // ======= when competitor has a lower final value than the last placed competitor
    az_trading_competition.competitors_insert(
        0,
        frank(),
        Competitor {
            final_value: Some("0".to_string()),
            judge_place_attempt: 0,
            competition_place_details_index: 0,
        },
    );
    // ======= it raises an error
    let result = az_trading_competition.place_competitors(0, vec![frank()], bob(), end + 1);
    assert_eq!(result, Err(unprocessable("Competitor is in the wrong place.")));
    // ===== * it updates competitors' placement rounds
    assert_eq!(
        az_trading_competition
            .competitors_show(0, django())
            .unwrap()
            .judge_place_attempt,
        1
    );
    assert_eq!(
        az_trading_competition
            .competitors_show(0, charlie())
            .unwrap()
            .judge_place_attempt,
        1
    );
    assert_eq!(
        az_trading_competition
            .competitors_show(0, bob())
            .unwrap()
            .judge_place_attempt,
        1
    );
    assert_eq!(
        az_trading_competition
            .competitors_show(0, frank())
            .unwrap()
            .judge_place_attempt,
        0
    );
}

#[test]
fn test_register() {
    let mut az_trading_competition = init();
    let mut host = mock_host();
    // when competition does not exist
    // * it raises an error
    let result = az_trading_competition.register(&mut host, 0, bob(), 0, 0);
    assert_eq!(result, Err(not_found("Competition")));
    // when competition exist
    create_default_competition(&mut az_trading_competition);
    // = when competition numerator does not equal denominator
    // = * it raises an error
    let result = az_trading_competition.register(&mut host, 0, bob(), 0, 0);
    assert_eq!(result, Err(unprocessable("Payout structure is not set yet.")));
    // = when competition numerator equals denominator
    let mut competition = az_trading_competition.competitions_show(0).unwrap();
    competition.payout_structure_numerator_sum = PERCENTAGE_CALCULATION_DENOMINATOR;
    az_trading_competition.competitions_insert(competition);
    // == when competition has started
    // == * it raises an error
    let result = az_trading_competition.register(&mut host, 0, bob(), MOCK_START, 0);
    assert_eq!(result, Err(unprocessable("Competition has started")));
    // == when competition has not started
    // === when caller has registered already
    az_trading_competition.competition_token_competitors_insert(
        0,
        mock_entry_fee_token(),
        bob(),
        CompetitionTokenCompetitor { amount: MOCK_ENTRY_FEE_AMOUNT, collected: false },
    );
    // == * it raises an error
    let result = az_trading_competition.register(&mut host, 0, bob(), MOCK_START - 1, 0);
    assert_eq!(result, Err(unprocessable("Already registered")));
    // === when caller has not registered yet
    az_trading_competition.competition_token_competitors_remove(0, mock_entry_fee_token(), bob());
    // === when azero_processing fee has not been sent
    // === * it raises an error
    let result = az_trading_competition.register(&mut host, 0, bob(), MOCK_START - 1, 0);
    assert_eq!(result, Err(unprocessable("Please include AZERO processing fee.")));
}

#[test]
fn test_reset() {
    let mut az_trading_competition = init();
    // when competition does not exist
    // * it raises an error
    let result = az_trading_competition.reset(0, bob());
    assert_eq!(result, Err(not_found("Competition")));
    // when competition exist
    create_default_competition(&mut az_trading_competition);
    // = when caller is not the judge of the competition
    let result = az_trading_competition.reset(0, django());
    // = * it raises an error
    assert_eq!(result, Err(AzTradingCompetitionError::Unauthorised));
    // = when caller is the judge of the competition
    let judge = az_trading_competition.competitions_show(0).unwrap().judge;
    // == when judge_place_attempt has reached the maximum
    let mut competition = az_trading_competition.competitions_show(0).unwrap();
    competition.judge_place_attempt = u128::MAX;
    az_trading_competition.competitions_insert(competition);
    // == * it raises an error
    let result = az_trading_competition.reset(0, judge);
    assert_eq!(result, Err(unprocessable("Maximum place attempts reached.")));
    // == when judge_place_attempt has not reached the maximum.
    let mut competition = az_trading_competition.competitions_show(0).unwrap();
    competition.judge_place_attempt -= 1;
    az_trading_competition.competitions_insert(competition);
    // === when competition hasn't had any competitors placed yet
    // === * it raises an error
    let result = az_trading_competition.reset(0, judge);
    assert_eq!(result, Err(unprocessable("Zero competitors have been placed.")));
    // === when competition has competitors placed
    // ==== when all competitors have been placed
    let mut competition = az_trading_competition.competitions_show(0).unwrap();
    competition.competitors_placed_count = 1;
    competition.competitors_count = 1;
    az_trading_competition.competitions_insert(competition);
    // ==== * it raises an error
    let result = az_trading_competition.reset(0, judge);
    assert_eq!(result, Err(unprocessable("All competitors have been placed.")));
    // ===== when all competitors haven't been placed
    let mut competition = az_trading_competition.competitions_show(0).unwrap();
    competition.competitors_count = 2;
    az_trading_competition.competitions_insert(competition);
    let mut competition_place_details_vec =
        az_trading_competition.competition_place_details_get(0).unwrap();
    competition_place_details_vec.push(CompetitionPlaceDetail {
        competitor_value: "123".to_string(),
        competitors_count: 1,
        payout_numerator: 1,
    });
    az_trading_competition.competition_place_details_insert(0, competition_place_details_vec);
    az_trading_competition.reset(0, judge).unwrap();
    let competition = az_trading_competition.competitions_show(0).unwrap();
    // ===== * it sets the competitors_placed_count to zero
    assert_eq!(competition.competitors_placed_count, 0);
    // ===== * it resets place_details_ordered_by_competitor_final_value
    let competition_place_details_vec =
        az_trading_competition.competition_place_details_get(0).unwrap();
    assert_eq!(competition_place_details_vec.len(), 0);
    // ===== * it increases the judge_place_attempt by one
    assert_eq!(competition.judge_place_attempt, u128::MAX);
}

#[test]
fn test_swap_exact_tokens_for_tokens() {
    let mut az_trading_competition = init();
    let mut host = mock_host();
    let id: u64 = 0;
    let mut amount_in: u128 = 555;
    let amount_out_min: u128 = 555;
    let mut path: Vec<AccountId> = vec![];
    let deadline: u64 = MOCK_START + MINIMUM_DURATION;
    // when competition does not exist
    // * it raises an error
    let result = az_trading_competition.swap_exact_tokens_for_tokens(
        &mut host,
        id,
        amount_in,
        amount_out_min,
        path.clone(),
        deadline,
        bob(),
        0,
    );
    assert_eq!(result, Err(not_found("Competition")));
    // when competition exist
    create_default_competition(&mut az_trading_competition);
    // = when path is empty
    // = * it raises an error
    let result = az_trading_competition.swap_exact_tokens_for_tokens(
        &mut host,
        id,
        amount_in,
        amount_out_min,
        path.clone(),
        deadline,
        bob(),
        0,
    );
    assert_eq!(result, Err(unprocessable("Path is empty.")));
    // = when path is present
    path = vec![
        AccountId::from_bytes(*b"aaaaaaaaaaaaaaaaaaaaaaaaaaaaaaaa"),
        AccountId::from_bytes(*b"xxxxxxxxxxxxxxxxxxxxxxxxxxxxxxxx"),
        AccountId::from_bytes(*b"bbbbbbbbbbbbbbbbbbbbbbbbbbbbbbbb"),
    ];
    // == when competitor count is less than payout places
    let mut competition = az_trading_competition.competitions_show(0).unwrap();
    competition.payout_places = 1;
    az_trading_competition.competitions_insert(competition);
    let result = az_trading_competition.swap_exact_tokens_for_tokens(
        &mut host,
        id,
        amount_in,
        amount_out_min,
        path.clone(),
        deadline,
        bob(),
        0,
    );
    assert_eq!(
        result,
        Err(unprocessable("Competition is invalid, please deregister."))
    );
    // == when competitor count is greater than or equal to payout places
    let mut competition = az_trading_competition.competitions_show(0).unwrap();
    competition.competitors_count = competition.payout_places.into();
    az_trading_competition.competitions_insert(competition);
    // === when competition hasn't started
    // = * it raises an error
    let result = az_trading_competition.swap_exact_tokens_for_tokens(
        &mut host,
        id,
        amount_in,
        amount_out_min,
        path.clone(),
        deadline,
        bob(),
        MOCK_START - 1,
    );
    assert_eq!(result, Err(unprocessable("Competition isn't in progress.")));
    // === when competition has ended
    // === * it raises an error
    let result = az_trading_competition.swap_exact_tokens_for_tokens(
        &mut host,
        id,
        amount_in,
        amount_out_min,
        path.clone(),
        deadline,
        bob(),
        MOCK_START + MINIMUM_DURATION + 1,
    );
    assert_eq!(result, Err(unprocessable("Competition isn't in progress.")));
    // === when competition is in progress
    let now = MOCK_START + MINIMUM_DURATION;
    // ==== when competitor is not present
    // ==== * it raises an error
    let result = az_trading_competition.swap_exact_tokens_for_tokens(
        &mut host,
        id,
        amount_in,
        amount_out_min,
        path.clone(),
        deadline,
        bob(),
        now,
    );
    assert_eq!(result, Err(not_found("CompetitionTokenCompetitor")));
    // ==== when competitor is present
    az_trading_competition.competition_token_competitors_insert(
        id,
        path[0],
        bob(),
        CompetitionTokenCompetitor { amount: 0, collected: false },
    );
    // ===== when amount_in is greater than what is available to competitor
    amount_in = az_trading_competition
        .competition_token_competitors_show(id, path[0], bob())
        .unwrap()
        .amount
        + 1;
    // ===== * it raises an error
    let result = az_trading_competition.swap_exact_tokens_for_tokens(
        &mut host,
        id,
        amount_in,
        amount_out_min,
        path.clone(),
        deadline,
        bob(),
        now,
    );
    assert_eq!(result, Err(unprocessable("Insufficient balance.")));
    // ===== when amount_in is available to competitor
    amount_in = az_trading_competition
        .competition_token_competitors_show(id, path[0], bob())
        .unwrap()
        .amount;
    // ====== when any of the tokens in path are invalid
    let result = az_trading_competition.swap_exact_tokens_for_tokens(
        &mut host,
        id,
        amount_in,
        amount_out_min,
        path,
        deadline,
        bob(),
        now,
    );
    assert_eq!(result, Err(unprocessable("Path is invalid.")));
    // ====== when path is valid
    path = vec![
        AccountId::from_bytes(*b"aaaaaaaaaaaaaaaaaaaaaaaaaaaaaaaa"),
        AccountId::from_bytes(*b"xxxxxxxxxxxxxxxxxxxxxxxxxxxxxxxx"),
        AccountId::from_bytes(*b"tttttttttttttttttttttttttttttttt"),
    ];
    // ======= when deadline is greater than competition end
    // ======= * it raises an error
    let result = az_trading_competition.swap_exact_tokens_for_tokens(
        &mut host,
        id,
        amount_in,
        amount_out_min,
        path,
        deadline + 1,
        bob(),
        now,
    );
    assert_eq!(result, Err(unprocessable("Deadline is after competition end.")));
}
