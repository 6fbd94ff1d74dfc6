use price_predictor::{BetDirection, ContractError, PricePredictorContract, INITIAL_BALANCE, WORD_PRICE};

fn owner() -> String {
    "silkking.testnet".to_string()
}

fn normal() -> String {
    "bob.testnet".to_string()
}

#[test]
fn register_with_heist() {
    let mut contract = PricePredictorContract::default();

    contract.register(normal(), 0).unwrap();
    let balance = contract.get_balance(&normal(), &0).unwrap();

    assert!(balance == INITIAL_BALANCE, "Incorrect initial balance");

    let registered_accounts = contract.get_registered_accounts();
    assert!(registered_accounts == 1usize, "Incorrect registered accounts");
}

#[test]
fn register_with_stheist() {
    let mut contract = PricePredictorContract::default();

    contract.register(normal(), 1).unwrap();
    let balance = contract.get_balance(&normal(), &1).unwrap();
    assert!(balance == INITIAL_BALANCE, "Incorrect initial balance");
}

#[test]
fn update_stheist_price_then() {
    let mut contract = PricePredictorContract::default();

    contract.update_stheist_price(&owner()).unwrap();
    contract.register(owner(), 1).unwrap();
    let balance = contract.get_balance(&owner(), &1).unwrap();
    assert!(balance < INITIAL_BALANCE, "Incorrect initial balance");
}

#[test]
fn set_then_get_price() {
    let mut contract = PricePredictorContract::default();
    contract
        .set_current_price_for_token(&owner(), "meta-pool.near".to_string(), 2500000000000000000000000)
        .unwrap();
}

#[test]
fn insert_then_get_bet() {
    let mut contract = PricePredictorContract::default();
    contract
        .set_current_price_for_token(&owner(), "meta-pool.near".to_string(), 2500000000000000000000000)
        .unwrap();

    contract.register(normal(), 0).unwrap();
    contract
        .place_bet(normal(), "meta-pool.near".to_string(), 0, 1, BetDirection::Long)
        .unwrap();
}

#[test]
fn insert_then_modify_price_then_get_balance() {
    let mut contract = PricePredictorContract::default();
    contract
        .set_current_price_for_token(&owner(), "meta-pool.near".to_string(), 1_000_000_000u128)
        .unwrap();

    contract.register(normal(), 0).unwrap();

    let initial_balance = contract.get_balance(&normal(), &0).unwrap();
    let bet_amount = 1_000u128;
    contract
        .place_bet(normal(), "meta-pool.near".to_string(), 0, bet_amount, BetDirection::Long)
        .unwrap();

    contract
        .set_current_price_for_token(&owner(), "meta-pool.near".to_string(), 2_000_000_000u128)
        .unwrap();

    contract.close_bet(normal()).unwrap();

    let final_balance = contract.get_balance(&normal(), &0).unwrap();

    assert!(final_balance - initial_balance == bet_amount, "Error rewards");
}

#[test]
fn update_then_get_stheist_price() {
    let mut contract = PricePredictorContract::default();

    let initial = contract.get_stheist_price();
    contract.update_stheist_price(&owner()).unwrap();
    let final_price = contract.get_stheist_price();

    assert!(final_price > initial, "Incorrect update");
}

#[test]
fn get_buy_get_word() {
    let mut contract = PricePredictorContract::default();

    let word_amount_1 = contract.get_user_word_amount(normal());
    assert!(word_amount_1 == 0, "Incorrect word amount");

    let words = contract.get_user_words(normal());
    assert!(words == Vec::<String>::new(), "Error words");

    contract.register(normal(), 1).unwrap();
    contract.buy_word(normal(), 1).unwrap();

    let word_amount_2 = contract.get_user_word_amount(normal());
    assert!(word_amount_2 == 1, "Incorrect word amount");

    let words_2 = contract.get_user_words(normal());
    assert!(words_2 == vec!["word1".to_string()], "Error words");
}

#[test]
fn invalid_token_kind_is_rejected() {
    let mut contract = PricePredictorContract::default();

    assert_eq!(contract.register(normal(), 2), Err(ContractError::InvalidInput));
    assert_eq!(contract.get_balance(&normal(), &-1), Err(ContractError::InvalidInput));
    assert_eq!(
        contract.place_bet(normal(), "meta-pool.near".to_string(), 3, 1, BetDirection::Long),
        Err(ContractError::InvalidInput)
    );
    assert_eq!(
        contract.transfer(&normal(), &owner(), 9, 1),
        Err(ContractError::InvalidInput)
    );
    assert_eq!(contract.buy_word(normal(), 7), Err(ContractError::InvalidInput));
    assert_eq!(contract.get_registered_accounts(), 0);
}

#[test]
fn missing_entries_are_not_found() {
    let mut contract = PricePredictorContract::default();

    assert_eq!(contract.get_balance(&normal(), &0), Err(ContractError::NotFound));
    assert!(contract.get_bet_from_user(normal()).is_err());
    assert_eq!(contract.buy_word(normal(), 0), Err(ContractError::NotFound));

    contract.register(normal(), 0).unwrap();
    assert_eq!(
        contract.place_bet(normal(), "unpublished.near".to_string(), 0, 1, BetDirection::Long),
        Err(ContractError::NotFound)
    );
    assert_eq!(contract.get_balance(&normal(), &0), Ok(INITIAL_BALANCE));
}

#[test]
fn price_list_keeps_insertion_order_and_overwrites() {
    let mut contract = PricePredictorContract::default();
    contract
        .set_current_price_for_token(&owner(), "alpha.near".to_string(), 10)
        .unwrap();
    contract
        .set_current_price_for_token(&owner(), "beta.near".to_string(), 20)
        .unwrap();
    contract
        .set_current_price_for_token(&owner(), "alpha.near".to_string(), 30)
        .unwrap();

    let prices = contract.get_current_prices();
    assert_eq!(
        prices,
        vec![("alpha.near".to_string(), 30u128), ("beta.near".to_string(), 20u128)]
    );
}

#[test]
fn word_prices_follow_the_synthetic_price() {
    let mut contract = PricePredictorContract::default();
    let (primary, synthetic) = contract.get_word_price();
    assert_eq!(primary, WORD_PRICE);
    // The synthetic price starts at 10^12, so one word costs 10^26 / 10^12.
    assert_eq!(synthetic, 100_000_000_000_000u128);
}

#[test]
fn buying_a_word_with_an_exact_balance_fails() {
    let mut contract = PricePredictorContract::default();
    contract.register(normal(), 0).unwrap();
    // The full primary balance equals the word price exactly, and spending
    // an entire balance is always rejected.
    assert_eq!(contract.buy_word(normal(), 0), Err(ContractError::InsufficientBalance));
    assert_eq!(contract.get_balance(&normal(), &0), Ok(INITIAL_BALANCE));
    assert_eq!(contract.get_user_word_amount(normal()), 0);
}
