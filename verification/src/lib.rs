//! A price-prediction betting ledger.
//!
//! Users register, receive an initial balance in one of two token
//! denominations, place a directional bet against a tracked asset price, and
//! later close the bet for a payout proportional to the price movement. A
//! privileged owner publishes asset prices and advances the price of an
//! internal yield-bearing token on a fixed multiplier.
//!
//! The caller's identity is host-provided; every operation that depends on it
//! takes the caller as an explicit argument.

pub mod bet;
pub mod contract;
pub mod errors;
pub mod laws;
pub mod table;

pub use bet::Bet;
pub use bet::BetDirection;
pub use contract::PricePredictorContract;
pub use contract::EPOCH_PRICE_MULTIPLIER;
pub use contract::INITIAL_BALANCE;
pub use contract::WORD_PRICE;

pub use errors::ContractError;
