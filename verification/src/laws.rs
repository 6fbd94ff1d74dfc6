//! Laws that relate several ledger operations, stated over the same views
//! that the operations' contracts use and proved once for all states.
//!
//! Conservation of balances and the exact insufficient-balance condition are
//! stated directly on `PricePredictorContract::transfer`, and the strict
//! growth of the synthetic price on
//! `PricePredictorContract::update_stheist_price`; the laws here are the
//! ones that span two calls.

use vstd::prelude::*;

use crate::bet::BetView;
use crate::contract::{init_amount, valid_kind, PricePredictorContract};

verus! {

/// At most one bet stays open per account: when a bet is placed twice for
/// the same account (each step shaped as `place_bet`'s contract describes),
/// only the second record remains — exactly as if the first had never been
/// placed. The first stake is not refunded: neither step credits anything
/// back.
pub proof fn lemma_single_open_bet(
    s0: PricePredictorContract,
    s1: PricePredictorContract,
    s2: PricePredictorContract,
    account: Seq<char>,
    first: BetView,
    second: BetView,
)
    requires
        s1.spec_bets() == s0.spec_bets().insert(account, first),
        s2.spec_bets() == s1.spec_bets().insert(account, second),
    ensures
        s2.spec_bets() == s0.spec_bets().insert(account, second),
        s2.spec_bets()[account] == second,
{
    assert(s0.spec_bets().insert(account, first).insert(account, second) =~= s0.spec_bets().insert(
        account,
        second,
    ));
}

/// Registration is deliberately not idempotent: registering the same
/// account twice (each step shaped as `register`'s contract describes, with
/// the synthetic price unchanged in between) leaves the balance at the
/// fresh initial amount — reset, not added to.
pub proof fn lemma_reregister_resets(
    s0: PricePredictorContract,
    s1: PricePredictorContract,
    s2: PricePredictorContract,
    account: Seq<char>,
    kind: i8,
)
    requires
        valid_kind(kind),
        s1.spec_balances(kind) == s0.spec_balances(kind).insert(
            account,
            init_amount(kind, s0.spec_synth_price()),
        ),
        s1.spec_synth_price() == s0.spec_synth_price(),
        s2.spec_balances(kind) == s1.spec_balances(kind).insert(
            account,
            init_amount(kind, s1.spec_synth_price()),
        ),
    ensures
        s2.spec_balances(kind) == s0.spec_balances(kind).insert(
            account,
            init_amount(kind, s0.spec_synth_price()),
        ),
        s2.spec_balances(kind)[account] == init_amount(kind, s0.spec_synth_price()),
{
    assert(s2.spec_balances(kind) =~= s0.spec_balances(kind).insert(
        account,
        init_amount(kind, s0.spec_synth_price()),
    ));
}

} // verus!
