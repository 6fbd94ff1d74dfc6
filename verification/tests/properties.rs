use price_predictor::{BetDirection, ContractError, PricePredictorContract, INITIAL_BALANCE};

fn owner() -> String {
    "silkking.testnet".to_string()
}

fn alice() -> String {
    "alice.testnet".to_string()
}

fn bob() -> String {
    "bob.testnet".to_string()
}

#[test]
fn transfers_between_non_owner_accounts_conserve_the_sum() {
    let mut contract = PricePredictorContract::default();
    contract.register(alice(), 0).unwrap();
    contract.register(bob(), 0).unwrap();
    let before = contract.get_balance(&alice(), &0).unwrap() + contract.get_balance(&bob(), &0).unwrap();

    contract.transfer(&alice(), &bob(), 0, 500).unwrap();
    contract.transfer(&bob(), &alice(), 0, 123).unwrap();

    let after = contract.get_balance(&alice(), &0).unwrap() + contract.get_balance(&bob(), &0).unwrap();
    assert_eq!(before, after);
    assert_eq!(contract.get_balance(&alice(), &0).unwrap(), INITIAL_BALANCE - 500 + 123);
}

#[test]
fn transfers_touching_the_owner_do_not_conserve_the_sum() {
    let mut contract = PricePredictorContract::default();
    contract.register(alice(), 0).unwrap();

    // The owner is an infinite source: a credit appears out of nothing.
    contract.transfer(&owner(), &alice(), 0, 700).unwrap();
    assert_eq!(contract.get_balance(&alice(), &0).unwrap(), INITIAL_BALANCE + 700);

    // And an infinite sink: a debit to the owner vanishes.
    contract.transfer(&alice(), &owner(), 0, 700).unwrap();
    assert_eq!(contract.get_balance(&alice(), &0).unwrap(), INITIAL_BALANCE);
}

#[test]
fn insufficient_balance_exactly_when_amount_reaches_the_balance() {
    let mut contract = PricePredictorContract::default();
    contract.register(alice(), 0).unwrap();

    // Spending the entire balance is rejected: the debit needs strictly
    // more than the amount.
    assert_eq!(
        contract.transfer(&alice(), &bob(), 0, INITIAL_BALANCE),
        Err(ContractError::InsufficientBalance)
    );
    assert_eq!(
        contract.transfer(&alice(), &bob(), 0, INITIAL_BALANCE + 1),
        Err(ContractError::InsufficientBalance)
    );
    // A failed transfer changes nothing, and an account with no entry has
    // balance zero.
    assert_eq!(contract.get_balance(&alice(), &0).unwrap(), INITIAL_BALANCE);
    assert_eq!(contract.get_balance(&bob(), &0), Err(ContractError::NotFound));

    // One unit less goes through, and no balance ever goes negative.
    contract.transfer(&alice(), &bob(), 0, INITIAL_BALANCE - 1).unwrap();
    assert_eq!(contract.get_balance(&alice(), &0).unwrap(), 1);
    assert_eq!(contract.get_balance(&bob(), &0).unwrap(), INITIAL_BALANCE - 1);
}

#[test]
fn second_bet_overwrites_the_first_without_refund() {
    let mut contract = PricePredictorContract::default();
    contract
        .set_current_price_for_token(&owner(), "alpha.near".to_string(), 1_000_000_000)
        .unwrap();
    contract
        .set_current_price_for_token(&owner(), "beta.near".to_string(), 5_000_000_000)
        .unwrap();
    contract.register(alice(), 0).unwrap();

    contract
        .place_bet(alice(), "alpha.near".to_string(), 0, 1_000, BetDirection::Long)
        .unwrap();
    contract
        .place_bet(alice(), "beta.near".to_string(), 0, 2_000, BetDirection::Short)
        .unwrap();

    let bet = contract.get_bet_from_user(alice()).unwrap();
    assert_eq!(bet.token, "beta.near".to_string());
    assert_eq!(bet.initial_token_price, 5_000_000_000);
    assert_eq!(bet.in_token, 0);
    assert_eq!(bet.amount, 2_000);
    assert_eq!(bet.direction, BetDirection::Short);

    // Both stakes were debited; the first was not refunded.
    assert_eq!(
        contract.get_balance(&alice(), &0).unwrap(),
        INITIAL_BALANCE - 1_000 - 2_000
    );
}

#[test]
fn registering_twice_resets_the_balance() {
    let mut contract = PricePredictorContract::default();
    contract.register(alice(), 0).unwrap();
    contract.transfer(&alice(), &owner(), 0, 42).unwrap();
    contract.register(alice(), 0).unwrap();

    // The balance is the fresh initial amount, not doubled and not reduced.
    assert_eq!(contract.get_balance(&alice(), &0).unwrap(), INITIAL_BALANCE);
    // The registry counts both registrations.
    assert_eq!(contract.get_registered_accounts(), 2);
}

#[test]
fn synthetic_price_strictly_increases() {
    let mut contract = PricePredictorContract::default();
    let p0 = contract.get_stheist_price();
    contract.update_stheist_price(&owner()).unwrap();
    let p1 = contract.get_stheist_price();
    contract.update_stheist_price(&owner()).unwrap();
    let p2 = contract.get_stheist_price();
    contract.update_stheist_price(&owner()).unwrap();
    let p3 = contract.get_stheist_price();

    assert!(p0 < p1 && p1 < p2 && p2 < p3);
    assert_eq!(p0, 1_000_000_000_000);
    assert_eq!(p1, 1_000_125_079_000);
}

#[test]
fn long_bet_doubles_when_the_price_doubles() {
    let mut contract = PricePredictorContract::default();
    contract.register(alice(), 0).unwrap();
    assert_eq!(contract.get_balance(&alice(), &0).unwrap(), INITIAL_BALANCE);

    contract
        .set_current_price_for_token(&owner(), "asset-x.near".to_string(), 1_000_000_000)
        .unwrap();
    contract
        .place_bet(alice(), "asset-x.near".to_string(), 0, 1_000, BetDirection::Long)
        .unwrap();
    let after_bet = contract.get_balance(&alice(), &0).unwrap();
    assert_eq!(after_bet, INITIAL_BALANCE - 1_000);

    contract
        .set_current_price_for_token(&owner(), "asset-x.near".to_string(), 2_000_000_000)
        .unwrap();
    contract.close_bet(alice()).unwrap();

    // The multiplier is 2, so the payout is twice the stake.
    assert_eq!(contract.get_balance(&alice(), &0).unwrap(), after_bet + 2_000);
}

#[test]
fn short_bet_pays_for_a_falling_price() {
    let mut contract = PricePredictorContract::default();
    contract.register(alice(), 0).unwrap();
    contract
        .set_current_price_for_token(&owner(), "asset-x.near".to_string(), 3_000_000_000)
        .unwrap();
    contract
        .place_bet(alice(), "asset-x.near".to_string(), 0, 1_000, BetDirection::Short)
        .unwrap();
    let after_bet = contract.get_balance(&alice(), &0).unwrap();

    contract
        .set_current_price_for_token(&owner(), "asset-x.near".to_string(), 1_000_000_000)
        .unwrap();
    contract.close_bet(alice()).unwrap();

    assert_eq!(contract.get_balance(&alice(), &0).unwrap(), after_bet + 3_000);
}

#[test]
fn small_price_moves_truncate_to_the_stake() {
    let mut contract = PricePredictorContract::default();
    contract.register(alice(), 0).unwrap();
    contract
        .set_current_price_for_token(&owner(), "asset-x.near".to_string(), 1_000_000_000)
        .unwrap();
    contract
        .place_bet(alice(), "asset-x.near".to_string(), 0, 1_000, BetDirection::Long)
        .unwrap();
    let after_bet = contract.get_balance(&alice(), &0).unwrap();

    // The price rose by half, but the truncated integer multiplier is 1: the
    // payout is exactly the stake, with no gain.
    contract
        .set_current_price_for_token(&owner(), "asset-x.near".to_string(), 1_500_000_000)
        .unwrap();
    contract.close_bet(alice()).unwrap();
    assert_eq!(contract.get_balance(&alice(), &0).unwrap(), after_bet + 1_000);
}

#[test]
fn a_ledger_answers_to_its_configured_owner() {
    let mut contract = PricePredictorContract::new("dao.testnet".to_string());
    assert!(contract.assert_owner(&"dao.testnet".to_string()).is_ok());
    assert_eq!(
        contract.set_current_price_for_token(&owner(), "asset-x.near".to_string(), 5),
        Err(ContractError::Unauthorized)
    );
    contract
        .set_current_price_for_token(&"dao.testnet".to_string(), "asset-x.near".to_string(), 5)
        .unwrap();
    assert_eq!(contract.get_current_prices(), vec![("asset-x.near".to_string(), 5u128)]);
}

#[test]
fn closing_without_a_bet_is_not_found() {
    let mut contract = PricePredictorContract::default();
    assert_eq!(contract.close_bet(bob()), Err(ContractError::NotFound));
}

#[test]
fn non_owner_cannot_set_prices() {
    let mut contract = PricePredictorContract::default();
    assert_eq!(
        contract.set_current_price_for_token(&bob(), "asset-x.near".to_string(), 5),
        Err(ContractError::Unauthorized)
    );
    assert!(contract.get_current_prices().is_empty());
}

#[test]
fn non_owner_cannot_advance_the_synthetic_price() {
    let mut contract = PricePredictorContract::default();
    assert_eq!(contract.update_stheist_price(&bob()), Err(ContractError::Unauthorized));
    assert_eq!(contract.get_stheist_price(), 1_000_000_000_000);
    assert!(contract.assert_owner(&bob()).is_err());
    assert!(contract.assert_owner(&owner()).is_ok());
}

#[test]
fn synthetic_registration_shrinks_as_the_price_grows() {
    let mut contract = PricePredictorContract::default();
    contract.update_stheist_price(&owner()).unwrap();
    contract.register(alice(), 1).unwrap();
    // 10^26 * 10^12 / 1_000_125_079_000, truncated.
    let expected = 100_000_000_000_000_000_000_000_000u128 * 1_000_000_000_000u128 / 1_000_125_079_000u128;
    assert_eq!(contract.get_balance(&alice(), &1).unwrap(), expected);
    assert!(expected < INITIAL_BALANCE);
}

#[test]
fn words_unlock_in_catalog_order() {
    let mut contract = PricePredictorContract::default();
    contract.register(alice(), 1).unwrap();
    assert_eq!(contract.buy_word(alice(), 1).unwrap(), "word1".to_string());
    assert_eq!(contract.buy_word(alice(), 1).unwrap(), "word2".to_string());
    assert_eq!(contract.buy_word(alice(), 1).unwrap(), "word3".to_string());
    assert_eq!(contract.get_user_word_amount(alice()), 3);
    assert_eq!(
        contract.get_user_words(alice()),
        vec!["word1".to_string(), "word2".to_string(), "word3".to_string()]
    );
}
