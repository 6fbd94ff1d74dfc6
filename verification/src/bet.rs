//! The record of one open wager. An account holds at most one; opening a new
//! bet overwrites the old record unconditionally.

use vstd::prelude::*;

verus! {

/// Which way the wager points: `Long` pays for a price rise above the entry
/// price, `Short` for a fall below it.
#[derive(Clone, Copy, Debug, PartialEq, Eq, Structural)]
pub enum BetDirection {
    Long,
    Short,
}

/// A directional wager: `amount` of token kind `in_token` staked on the price
/// of asset `token`, entered when that price was `initial_token_price`.
#[derive(Debug)]
pub struct Bet {
    pub token: String,
    pub initial_token_price: u128,
    pub in_token: i8,
    pub amount: u128,
    pub direction: BetDirection,
}

/// The mathematical image of a [`Bet`].
pub struct BetView {
    pub token: Seq<char>,
    pub initial_token_price: u128,
    pub in_token: i8,
    pub amount: u128,
    pub direction: BetDirection,
}

impl View for Bet {
    type V = BetView;

    open spec fn view(&self) -> BetView {
        BetView {
            token: self.token@,
            initial_token_price: self.initial_token_price,
            in_token: self.in_token,
            amount: self.amount,
            direction: self.direction,
        }
    }
}

impl Clone for Bet {
    /// A clone carries the same wager.
    fn clone(&self) -> (r: Self)
        ensures
            r@ == self@,
    {
        Bet {
            token: self.token.clone(),
            initial_token_price: self.initial_token_price,
            in_token: self.in_token,
            amount: self.amount,
            direction: self.direction,
        }
    }
}

} // verus!
