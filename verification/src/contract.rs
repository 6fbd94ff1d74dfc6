//! The betting ledger itself: registration, two-token balance accounting,
//! owner-gated price publication, the bet lifecycle and the word catalog.
//!
//! All state lives in one owned aggregate. The caller's identity is supplied
//! by the host environment, so every operation that depends on it takes the
//! caller as an explicit argument; owner-gated operations check it first and
//! change nothing when it does not match.

use vstd::prelude::*;

use crate::bet::{Bet, BetDirection, BetView};
use crate::errors::ContractError;
use crate::table::Table;

verus! {

/// Fixed-point factor (base 1_000_000_000) by which one call to
/// `update_stheist_price` multiplies the synthetic token price.
pub const EPOCH_PRICE_MULTIPLIER: u128 = 1000125079;

/// Balance granted to a fresh registrant of the primary token.
pub const INITIAL_BALANCE: u128 = 100_000_000_000_000_000_000_000_000;

/// Price of one word of the catalog, in primary-token units.
pub const WORD_PRICE: u128 = INITIAL_BALANCE;

/// The two token kinds: 0 is the primary token, 1 the synthetic one. Any
/// other id is rejected as invalid input.
pub open spec fn valid_kind(kind: i8) -> bool {
    kind == 0 || kind == 1
}

/// A balance lookup treats a missing entry as zero.
pub open spec fn bal_or_zero(m: Map<Seq<char>, u128>, k: Seq<char>) -> u128 {
    if m.contains_key(k) {
        m[k]
    } else {
        0
    }
}

/// The balance granted on registration: the fixed initial balance for the
/// primary token; for the synthetic token, the same amount scaled down by the
/// current synthetic price (integer division).
pub open spec fn init_amount(kind: i8, synth_price: u128) -> u128 {
    if kind == 0 {
        INITIAL_BALANCE
    } else {
        (INITIAL_BALANCE * 1_000_000_000_000 / (synth_price as int)) as u128
    }
}

/// The debit half of a transfer: the owner is an infinite source, so a debit
/// from the owner changes nothing; anyone else has the amount taken from
/// their (missing-is-zero) balance.
pub open spec fn debit(
    m: Map<Seq<char>, u128>,
    owner: Seq<char>,
    from: Seq<char>,
    amount: u128,
) -> Map<Seq<char>, u128> {
    if from == owner {
        m
    } else {
        m.insert(from, (bal_or_zero(m, from) - amount) as u128)
    }
}

/// The credit half of a transfer: the owner is an infinite sink, so a credit
/// to the owner changes nothing; anyone else has the amount added.
pub open spec fn credit(
    m: Map<Seq<char>, u128>,
    owner: Seq<char>,
    to: Seq<char>,
    amount: u128,
) -> Map<Seq<char>, u128> {
    if to == owner {
        m
    } else {
        m.insert(to, (bal_or_zero(m, to) + amount) as u128)
    }
}

/// The effect of a successful transfer on one token's balance table.
pub open spec fn transfer_result(
    m: Map<Seq<char>, u128>,
    owner: Seq<char>,
    from: Seq<char>,
    to: Seq<char>,
    amount: u128,
) -> Map<Seq<char>, u128> {
    credit(debit(m, owner, from, amount), owner, to, amount)
}

/// A word-count lookup treats a missing entry as zero.
pub open spec fn count_or_zero(m: Map<Seq<char>, usize>, k: Seq<char>) -> usize {
    if m.contains_key(k) {
        m[k]
    } else {
        0
    }
}

/// The price of the next catalog word in the given token kind: the fixed
/// word price for the primary token, scaled down by the current synthetic
/// price (with the ledger's exact truncation) for the synthetic one.
pub open spec fn word_price_of(kind: i8, synth_price: u128) -> u128 {
    if kind == 0 {
        WORD_PRICE
    } else {
        (WORD_PRICE * 1_000_000 / (synth_price as int) / 1_000_000) as u128
    }
}

/// The settlement multiplier: the integer-truncated ratio of the closing
/// price to the entry price for a long bet, and of the entry price to the
/// closing price for a short one. The intermediate scale-up by 1_000_000 and
/// scale-down again reproduce the ledger's exact truncation behavior.
pub open spec fn spec_multiplier(entry: u128, current: u128, direction: BetDirection) -> int {
    if direction == BetDirection::Long {
        current * 1_000_000 / (entry as int) / 1_000_000
    } else {
        entry * 1_000_000 / (current as int) / 1_000_000
    }
}

/// The sum of all balances in a balance table, in entry order.
pub open spec fn sum_amounts(s: Seq<(Seq<char>, u128)>) -> int
    decreases s.len(),
{
    if s.len() == 0 {
        0
    } else {
        sum_amounts(s.drop_last()) + s.last().1
    }
}

/// Replacing one entry changes the sum by the difference of the values.
pub proof fn lemma_sum_update(s: Seq<(Seq<char>, u128)>, i: int, p: (Seq<char>, u128))
    requires
        0 <= i < s.len(),
    ensures
        sum_amounts(s.update(i, p)) == sum_amounts(s) - s[i].1 + p.1,
    decreases s.len(),
{
    if i == s.len() - 1 {
        assert(s.update(i, p).drop_last() =~= s.drop_last());
        assert(s.update(i, p).last() == p);
    } else {
        lemma_sum_update(s.drop_last(), i, p);
        assert(s.update(i, p).drop_last() =~= s.drop_last().update(i, p));
        assert(s.update(i, p).last() == s.last());
    }
}

/// Appending an entry adds its value to the sum.
pub proof fn lemma_sum_push(s: Seq<(Seq<char>, u128)>, p: (Seq<char>, u128))
    ensures
        sum_amounts(s.push(p)) == sum_amounts(s) + p.1,
{
    assert(s.push(p).drop_last() =~= s);
    assert(s.push(p).last() == p);
}

/// The whole ledger: the owner identity, the registration log, the published
/// prices, the open bets, one balance table per token kind, the synthetic
/// token price, and the word catalog with each account's unlocked count.
pub struct PricePredictorContract {
    owner: String,
    registered_accounts: Vec<String>,
    current_prices: Table<u128>,
    current_bets: Table<Bet>,
    heist_balances: Table<u128>,
    stheist_balances: Table<u128>,
    stheist_price: u128,
    words: Vec<String>,
    users_word_amount: Table<usize>,
}

/// The id of the other token kind.
pub open spec fn other_kind(kind: i8) -> i8 {
    if kind == 0 {
        1i8
    } else {
        0i8
    }
}

impl PricePredictorContract {
    /// The owner's account identity.
    pub closed spec fn spec_owner(self) -> Seq<char> {
        self.owner@
    }

    /// The registration log, in order, duplicates included.
    pub closed spec fn spec_registered(self) -> Seq<String> {
        self.registered_accounts@
    }

    /// The published prices as a map from asset identity to price.
    pub closed spec fn spec_prices(self) -> Map<Seq<char>, u128> {
        self.current_prices.as_map()
    }

    /// The published prices as (asset, price) pairs in insertion order.
    pub closed spec fn spec_price_list(self) -> Seq<(Seq<char>, u128)> {
        self.current_prices.entries()
    }

    /// The open bets, at most one per account.
    pub closed spec fn spec_bets(self) -> Map<Seq<char>, BetView> {
        self.current_bets.as_map()
    }

    /// The balance table of the given token kind, as a map.
    pub closed spec fn spec_balances(self, kind: i8) -> Map<Seq<char>, u128> {
        if kind == 0 {
            self.heist_balances.as_map()
        } else {
            self.stheist_balances.as_map()
        }
    }

    /// The balance table of the given token kind, as entries in order.
    pub closed spec fn spec_balance_list(self, kind: i8) -> Seq<(Seq<char>, u128)> {
        if kind == 0 {
            self.heist_balances.entries()
        } else {
            self.stheist_balances.entries()
        }
    }

    /// The synthetic token's current price.
    pub closed spec fn spec_synth_price(self) -> u128 {
        self.stheist_price
    }

    /// The fixed word catalog, in order.
    pub closed spec fn spec_words(self) -> Seq<String> {
        self.words@
    }

    /// How many catalog words each account has unlocked.
    pub closed spec fn spec_word_counts(self) -> Map<Seq<char>, usize> {
        self.users_word_amount.as_map()
    }

    /// Well-formedness: each table has unique keys, the synthetic price never
    /// falls below its starting value, every stored bet names a valid token
    /// kind, and no account has unlocked more words than the catalog holds.
    pub closed spec fn wf(self) -> bool {
        &&& self.current_prices.wf()
        &&& self.current_bets.wf()
        &&& self.heist_balances.wf()
        &&& self.stheist_balances.wf()
        &&& self.users_word_amount.wf()
        &&& self.stheist_price >= 1_000_000_000_000
        &&& forall|k: Seq<char>|
            #[trigger] self.current_bets.as_map().contains_key(k) ==> valid_kind(
                self.current_bets.as_map()[k].in_token,
            )
        &&& forall|k: Seq<char>|
            #[trigger] self.users_word_amount.as_map().contains_key(k)
                ==> self.users_word_amount.as_map()[k] <= self.words@.len()
    }

    /// The owner identity and the word catalog are the same in `post` as in
    /// `pre`. No operation ever changes either.
    pub open spec fn same_owner_and_words(pre: Self, post: Self) -> bool {
        &&& post.spec_owner() == pre.spec_owner()
        &&& post.spec_words() == pre.spec_words()
    }

    /// Everything but one token kind's balance table is the same in `post`
    /// as in `pre`.
    pub open spec fn unchanged_except_balances(pre: Self, post: Self, kind: i8) -> bool {
        &&& Self::same_owner_and_words(pre, post)
        &&& post.spec_registered() == pre.spec_registered()
        &&& post.spec_prices() == pre.spec_prices()
        &&& post.spec_price_list() == pre.spec_price_list()
        &&& post.spec_bets() == pre.spec_bets()
        &&& post.spec_balances(other_kind(kind)) == pre.spec_balances(other_kind(kind))
        &&& post.spec_balance_list(other_kind(kind)) == pre.spec_balance_list(other_kind(kind))
        &&& post.spec_synth_price() == pre.spec_synth_price()
        &&& post.spec_word_counts() == pre.spec_word_counts()
    }

    /// Everything but one token kind's balance table and the registration
    /// log is the same in `post` as in `pre`.
    pub open spec fn unchanged_except_balances_and_registry(pre: Self, post: Self, kind: i8) -> bool {
        &&& Self::same_owner_and_words(pre, post)
        &&& post.spec_prices() == pre.spec_prices()
        &&& post.spec_price_list() == pre.spec_price_list()
        &&& post.spec_bets() == pre.spec_bets()
        &&& post.spec_balances(other_kind(kind)) == pre.spec_balances(other_kind(kind))
        &&& post.spec_balance_list(other_kind(kind)) == pre.spec_balance_list(other_kind(kind))
        &&& post.spec_synth_price() == pre.spec_synth_price()
        &&& post.spec_word_counts() == pre.spec_word_counts()
    }

    /// Everything but one token kind's balance table and the bet table is
    /// the same in `post` as in `pre`.
    pub open spec fn unchanged_except_balances_and_bets(pre: Self, post: Self, kind: i8) -> bool {
        &&& Self::same_owner_and_words(pre, post)
        &&& post.spec_registered() == pre.spec_registered()
        &&& post.spec_prices() == pre.spec_prices()
        &&& post.spec_price_list() == pre.spec_price_list()
        &&& post.spec_balances(other_kind(kind)) == pre.spec_balances(other_kind(kind))
        &&& post.spec_balance_list(other_kind(kind)) == pre.spec_balance_list(other_kind(kind))
        &&& post.spec_synth_price() == pre.spec_synth_price()
        &&& post.spec_word_counts() == pre.spec_word_counts()
    }

    /// Everything but the bet table is the same in `post` as in `pre`.
    pub open spec fn unchanged_except_bets(pre: Self, post: Self) -> bool {
        &&& Self::same_owner_and_words(pre, post)
        &&& post.spec_registered() == pre.spec_registered()
        &&& post.spec_prices() == pre.spec_prices()
        &&& post.spec_price_list() == pre.spec_price_list()
        &&& post.spec_balances(0) == pre.spec_balances(0)
        &&& post.spec_balances(1) == pre.spec_balances(1)
        &&& post.spec_balance_list(0) == pre.spec_balance_list(0)
        &&& post.spec_balance_list(1) == pre.spec_balance_list(1)
        &&& post.spec_synth_price() == pre.spec_synth_price()
        &&& post.spec_word_counts() == pre.spec_word_counts()
    }

    /// Everything but one token kind's balance table and the word counts is
    /// the same in `post` as in `pre`.
    pub open spec fn unchanged_except_balances_and_word_counts(
        pre: Self,
        post: Self,
        kind: i8,
    ) -> bool {
        &&& Self::same_owner_and_words(pre, post)
        &&& post.spec_registered() == pre.spec_registered()
        &&& post.spec_prices() == pre.spec_prices()
        &&& post.spec_price_list() == pre.spec_price_list()
        &&& post.spec_bets() == pre.spec_bets()
        &&& post.spec_balances(other_kind(kind)) == pre.spec_balances(other_kind(kind))
        &&& post.spec_balance_list(other_kind(kind)) == pre.spec_balance_list(other_kind(kind))
        &&& post.spec_synth_price() == pre.spec_synth_price()
    }

    /// Everything but the price table is the same in `post` as in `pre`.
    pub open spec fn unchanged_except_prices(pre: Self, post: Self) -> bool {
        &&& Self::same_owner_and_words(pre, post)
        &&& post.spec_registered() == pre.spec_registered()
        &&& post.spec_bets() == pre.spec_bets()
        &&& post.spec_balances(0) == pre.spec_balances(0)
        &&& post.spec_balances(1) == pre.spec_balances(1)
        &&& post.spec_balance_list(0) == pre.spec_balance_list(0)
        &&& post.spec_balance_list(1) == pre.spec_balance_list(1)
        &&& post.spec_synth_price() == pre.spec_synth_price()
        &&& post.spec_word_counts() == pre.spec_word_counts()
    }

    /// Everything but the synthetic token price is the same in `post` as in
    /// `pre`.
    pub open spec fn unchanged_except_synth_price(pre: Self, post: Self) -> bool {
        &&& Self::same_owner_and_words(pre, post)
        &&& post.spec_registered() == pre.spec_registered()
        &&& post.spec_prices() == pre.spec_prices()
        &&& post.spec_price_list() == pre.spec_price_list()
        &&& post.spec_bets() == pre.spec_bets()
        &&& post.spec_balances(0) == pre.spec_balances(0)
        &&& post.spec_balances(1) == pre.spec_balances(1)
        &&& post.spec_balance_list(0) == pre.spec_balance_list(0)
        &&& post.spec_balance_list(1) == pre.spec_balance_list(1)
        &&& post.spec_word_counts() == pre.spec_word_counts()
    }

    /// The balance table of a valid token kind, for reading.
    fn get_token_map(&self, bet_token_id: i8) -> (t: &Table<u128>)
        requires
            valid_kind(bet_token_id),
        ensures
            t.as_map() == self.spec_balances(bet_token_id),
            t.entries() == self.spec_balance_list(bet_token_id),
            self.wf() ==> t.wf(),
    {
        if bet_token_id == 0 {
            &self.heist_balances
        } else {
            &self.stheist_balances
        }
    }

    /// No overflow can happen in the credit half of a transfer: whenever the
    /// transfer would succeed and the receiver is not the owner, the
    /// receiver's balance plus the amount fits in a `u128`.
    pub open spec fn transfer_fits(
        pre: Self,
        from: Seq<char>,
        to: Seq<char>,
        kind: i8,
        amount: u128,
    ) -> bool {
        (valid_kind(kind) && to != pre.spec_owner() && (from == pre.spec_owner() || bal_or_zero(
            pre.spec_balances(kind),
            from,
        ) > amount)) ==> bal_or_zero(
            debit(pre.spec_balances(kind), pre.spec_owner(), from, amount),
            to,
        ) + amount <= u128::MAX
    }

    /// Move `amount` of one token kind from `from` to `to`.
    ///
    /// The owner account is balance-exempt: a debit from the owner and a
    /// credit to the owner are both skipped. Anyone else must hold strictly
    /// more than the amount (spending an entire balance is rejected), and on
    /// success the debit and credit are applied together or not at all.
    ///
    /// Conservation: a successful transfer touching the owner on neither
    /// side leaves the sum of all balances of that token kind unchanged.
    pub fn transfer(&mut self, from: &String, to: &String, bet_token_id: i8, amount: u128) -> (r:
        Result<(), ContractError>)
        requires
            old(self).wf(),
            Self::transfer_fits(*old(self), from@, to@, bet_token_id, amount),
        ensures
            final(self).wf(),
            r == Err::<(), ContractError>(ContractError::InvalidInput) <==> !valid_kind(
                bet_token_id,
            ),
            valid_kind(bet_token_id) ==> ((r == Err::<(), ContractError>(
                ContractError::InsufficientBalance,
            )) <==> (from@ != old(self).spec_owner() && bal_or_zero(
                old(self).spec_balances(bet_token_id),
                from@,
            ) <= amount)),
            r is Ok <==> (valid_kind(bet_token_id) && (from@ == old(self).spec_owner()
                || bal_or_zero(old(self).spec_balances(bet_token_id), from@) > amount)),
            r is Err ==> *final(self) == *old(self),
            r is Ok ==> final(self).spec_balances(bet_token_id) == transfer_result(
                old(self).spec_balances(bet_token_id),
                old(self).spec_owner(),
                from@,
                to@,
                amount,
            ),
            r is Ok ==> Self::unchanged_except_balances(*old(self), *final(self), bet_token_id),
            r is Ok && from@ != old(self).spec_owner() && to@ != old(self).spec_owner()
                ==> sum_amounts(final(self).spec_balance_list(bet_token_id)) == sum_amounts(
                old(self).spec_balance_list(bet_token_id),
            ),
    {
        if !(bet_token_id == 0 || bet_token_id == 1) {
            return Err(ContractError::InvalidInput);
        }
        let ghost pre = *self;
        let ghost m0 = pre.spec_balances(bet_token_id);
        let owner = self.owner.clone();
        if *from != owner {
            let bal: u128 = match self.get_token_map(bet_token_id).get(from) {
                Some(b) => *b,
                None => 0,
            };
            proof {
                assert(bal == bal_or_zero(m0, from@));
            }
            if bal <= amount {
                return Err(ContractError::InsufficientBalance);
            }
            if bet_token_id == 0 {
                let ghost t0 = self.heist_balances;
                self.heist_balances.set(from, bal - amount);
                proof {
                    lemma_set_sum(t0, self.heist_balances, from@, (bal - amount) as u128);
                }
            } else {
                let ghost t0 = self.stheist_balances;
                self.stheist_balances.set(from, bal - amount);
                proof {
                    lemma_set_sum(t0, self.stheist_balances, from@, (bal - amount) as u128);
                }
            }
        }
        proof {
            assert(self.spec_balances(bet_token_id) =~= debit(
                m0,
                pre.spec_owner(),
                from@,
                amount,
            ));
            assert(self.wf());
        }
        if *to != owner {
            let ghost mid = *self;
            let bal2: u128 = match self.get_token_map(bet_token_id).get(to) {
                Some(b) => *b,
                None => 0,
            };
            proof {
                assert(bal2 == bal_or_zero(mid.spec_balances(bet_token_id), to@));
            }
            if bet_token_id == 0 {
                let ghost t1 = self.heist_balances;
                self.heist_balances.set(to, bal2 + amount);
                proof {
                    lemma_set_sum(t1, self.heist_balances, to@, (bal2 + amount) as u128);
                }
            } else {
                let ghost t1 = self.stheist_balances;
                self.stheist_balances.set(to, bal2 + amount);
                proof {
                    lemma_set_sum(t1, self.stheist_balances, to@, (bal2 + amount) as u128);
                }
            }
            proof {
                assert(self.spec_balances(bet_token_id) =~= credit(
                    mid.spec_balances(bet_token_id),
                    pre.spec_owner(),
                    to@,
                    amount,
                ));
            }
        }
        Ok(())
    }

    /// Register the caller for a token kind: append the caller to the
    /// registration log and set (not add to) their balance to the initial
    /// amount, scaled down by the current synthetic price for the synthetic
    /// token. Registering again resets the balance the same way.
    pub fn register(&mut self, caller: String, bet_token_id: i8) -> (r: Result<(), ContractError>)
        requires
            old(self).wf(),
        ensures
            final(self).wf(),
            r is Ok <==> valid_kind(bet_token_id),
            !valid_kind(bet_token_id) ==> r == Err::<(), ContractError>(ContractError::InvalidInput)
                && *final(self) == *old(self),
            r is Ok ==> final(self).spec_registered() == old(self).spec_registered().push(caller),
            r is Ok ==> final(self).spec_balances(bet_token_id) == old(self).spec_balances(
                bet_token_id,
            ).insert(caller@, init_amount(bet_token_id, old(self).spec_synth_price())),
            r is Ok ==> Self::unchanged_except_balances_and_registry(
                *old(self),
                *final(self),
                bet_token_id,
            ),
    {
        if !(bet_token_id == 0 || bet_token_id == 1) {
            return Err(ContractError::InvalidInput);
        }
        let ini_balance: u128 = if bet_token_id == 1 {
            INITIAL_BALANCE * 1_000_000_000_000u128 / self.stheist_price
        } else {
            INITIAL_BALANCE
        };
        self.registered_accounts.push(caller.clone());
        if bet_token_id == 0 {
            self.heist_balances.set(&caller, ini_balance);
        } else {
            self.stheist_balances.set(&caller, ini_balance);
        }
        Ok(())
    }

    /// Owner gate: `Ok` exactly when the caller is the owner.
    pub fn assert_owner(&self, caller: &String) -> (r: Result<(), ContractError>)
        ensures
            r is Ok <==> caller@ == self.spec_owner(),
            r is Err ==> r == Err::<(), ContractError>(ContractError::Unauthorized),
    {
        if *caller == self.owner {
            Ok(())
        } else {
            Err(ContractError::Unauthorized)
        }
    }

    /// The synthetic token's current price.
    pub fn get_stheist_price(&self) -> (r: u128)
        ensures
            r == self.spec_synth_price(),
    {
        self.stheist_price
    }

    /// How many registrations have happened (re-registrations counted again).
    pub fn get_registered_accounts(&self) -> (r: usize)
        ensures
            r == self.spec_registered().len(),
    {
        self.registered_accounts.len()
    }

    /// An account's balance for a token kind; `NotFound` when the account has
    /// no entry in that table, `InvalidInput` for an unknown kind.
    pub fn get_balance(&self, account_id: &String, token_id: &i8) -> (r: Result<
        u128,
        ContractError,
    >)
        requires
            self.wf(),
        ensures
            !valid_kind(*token_id) ==> r == Err::<u128, ContractError>(ContractError::InvalidInput),
            valid_kind(*token_id) && !self.spec_balances(*token_id).contains_key(account_id@) ==> r
                == Err::<u128, ContractError>(ContractError::NotFound),
            valid_kind(*token_id) && self.spec_balances(*token_id).contains_key(account_id@) ==> r
                == Ok::<u128, ContractError>(self.spec_balances(*token_id)[account_id@]),
    {
        let kind = *token_id;
        if !(kind == 0 || kind == 1) {
            return Err(ContractError::InvalidInput);
        }
        match self.get_token_map(kind).get(account_id) {
            Some(b) => Ok(*b),
            None => Err(ContractError::NotFound),
        }
    }

    /// All published prices, as (asset, price) pairs in insertion order.
    pub fn get_current_prices(&self) -> (r: Vec<(String, u128)>)
        ensures
            r@.len() == self.spec_price_list().len(),
            forall|i: int|
                0 <= i < r@.len() ==> ((#[trigger] r@[i]).0@, r@[i].1) == self.spec_price_list()[i],
    {
        self.current_prices.copy_pairs()
    }

    /// Owner-only: publish (or overwrite) the price of an asset. On
    /// `Unauthorized` nothing changes.
    pub fn set_current_price_for_token(&mut self, caller: &String, token: String, price: u128) -> (r:
        Result<(), ContractError>)
        requires
            old(self).wf(),
        ensures
            final(self).wf(),
            r is Ok <==> caller@ == old(self).spec_owner(),
            r is Err ==> r == Err::<(), ContractError>(ContractError::Unauthorized) && *final(self)
                == *old(self),
            r is Ok ==> final(self).spec_prices() == old(self).spec_prices().insert(token@, price),
            r is Ok && old(self).spec_prices().contains_key(token@) ==> 0 <= old(
                self,
            ).spec_price_index(token@) < old(self).spec_price_list().len() && old(
                self,
            ).spec_price_list()[old(self).spec_price_index(token@)] == (
            token@,
            old(self).spec_prices()[token@],
            ),
            r is Ok && old(self).spec_prices().contains_key(token@)
                ==> final(self).spec_price_list() == old(self).spec_price_list().update(
                old(self).spec_price_index(token@),
                (token@, price),
            ),
            r is Ok && !old(self).spec_prices().contains_key(token@)
                ==> final(self).spec_price_list() == old(self).spec_price_list().push(
                (token@, price),
            ),
            r is Ok ==> Self::unchanged_except_prices(*old(self), *final(self)),
    {
        match self.assert_owner(caller) {
            Ok(()) => {
                self.current_prices.set(&token, price);
                Ok(())
            },
            Err(e) => Err(e),
        }
    }

    /// The index of an asset in the price list.
    pub closed spec fn spec_price_index(self, asset: Seq<char>) -> int {
        self.current_prices.index_of(asset)
    }

    /// Owner-only: advance the synthetic token's price by the fixed
    /// multiplier. Each successful call strictly increases the price.
    pub fn update_stheist_price(&mut self, caller: &String) -> (r: Result<(), ContractError>)
        requires
            old(self).wf(),
            caller@ == old(self).spec_owner() ==> old(self).spec_synth_price()
                * EPOCH_PRICE_MULTIPLIER <= u128::MAX,
        ensures
            final(self).wf(),
            r is Ok <==> caller@ == old(self).spec_owner(),
            r is Err ==> r == Err::<(), ContractError>(ContractError::Unauthorized) && *final(self)
                == *old(self),
            r is Ok ==> final(self).spec_synth_price() == old(self).spec_synth_price()
                * EPOCH_PRICE_MULTIPLIER / 1_000_000_000,
            r is Ok ==> final(self).spec_synth_price() > old(self).spec_synth_price(),
            r is Ok ==> Self::unchanged_except_synth_price(*old(self), *final(self)),
    {
        match self.assert_owner(caller) {
            Ok(()) => {
                let sp = self.stheist_price;
                proof {
                    lemma_synth_price_grows(sp);
                }
                self.stheist_price = sp * EPOCH_PRICE_MULTIPLIER / 1_000_000_000u128;
                Ok(())
            },
            Err(e) => Err(e),
        }
    }

    /// No overflow or division by zero can happen while settling the
    /// caller's bet: the scaled prices, the payout, and the credited balance
    /// all fit, and the divisor price is not zero.
    pub open spec fn close_bet_fits(pre: Self, caller: Seq<char>) -> bool {
        pre.spec_bets().contains_key(caller) ==> (Self::close_step_fits(
            pre,
            caller,
            pre.spec_bets()[caller],
        ))
    }

    /// The arithmetic bounds for settling one bet record.
    pub open spec fn close_step_fits(pre: Self, caller: Seq<char>, b: BetView) -> bool {
        pre.spec_prices().contains_key(b.token) ==> {
            let cur = pre.spec_prices()[b.token];
            let mult = spec_multiplier(b.initial_token_price, cur, b.direction);
            &&& (b.direction == BetDirection::Long ==> b.initial_token_price > 0 && cur * 1_000_000
                <= u128::MAX)
            &&& (b.direction == BetDirection::Short ==> cur > 0 && b.initial_token_price
                * 1_000_000 <= u128::MAX)
            &&& b.amount * mult <= u128::MAX
            &&& (caller != pre.spec_owner() ==> bal_or_zero(pre.spec_balances(b.in_token), caller)
                + b.amount * mult <= u128::MAX)
        }
    }

    /// What a successful settlement pays out: the stake times the truncated
    /// price ratio.
    pub open spec fn close_payout(pre: Self, caller: Seq<char>) -> u128 {
        (pre.spec_bets()[caller].amount * spec_multiplier(
            pre.spec_bets()[caller].initial_token_price,
            pre.spec_prices()[pre.spec_bets()[caller].token],
            pre.spec_bets()[caller].direction,
        )) as u128
    }

    /// Open a bet for the caller: move the stake from the caller to the
    /// owner, then record the wager at the asset's current price. A prior
    /// open bet is overwritten unconditionally; its stake is not refunded.
    pub fn place_bet(
        &mut self,
        caller: String,
        token: String,
        bet_token_id: i8,
        amount: u128,
        direction: BetDirection,
    ) -> (r: Result<(), ContractError>)
        requires
            old(self).wf(),
        ensures
            final(self).wf(),
            r == Err::<(), ContractError>(ContractError::InvalidInput) <==> !valid_kind(
                bet_token_id,
            ),
            valid_kind(bet_token_id) ==> ((r == Err::<(), ContractError>(
                ContractError::InsufficientBalance,
            )) <==> (caller@ != old(self).spec_owner() && bal_or_zero(
                old(self).spec_balances(bet_token_id),
                caller@,
            ) <= amount)),
            valid_kind(bet_token_id) && (caller@ == old(self).spec_owner() || bal_or_zero(
                old(self).spec_balances(bet_token_id),
                caller@,
            ) > amount) ==> ((r == Err::<(), ContractError>(ContractError::NotFound)) <==> !old(
                self,
            ).spec_prices().contains_key(token@)),
            r is Ok <==> (valid_kind(bet_token_id) && (caller@ == old(self).spec_owner()
                || bal_or_zero(old(self).spec_balances(bet_token_id), caller@) > amount) && old(
                self,
            ).spec_prices().contains_key(token@)),
            r is Err ==> *final(self) == *old(self),
            r is Ok ==> final(self).spec_bets() == old(self).spec_bets().insert(
                caller@,
                (BetView {
                    token: token@,
                    initial_token_price: old(self).spec_prices()[token@],
                    in_token: bet_token_id,
                    amount: amount,
                    direction: direction,
                }),
            ),
            r is Ok ==> final(self).spec_balances(bet_token_id) == debit(
                old(self).spec_balances(bet_token_id),
                old(self).spec_owner(),
                caller@,
                amount,
            ),
            r is Ok ==> Self::unchanged_except_balances_and_bets(
                *old(self),
                *final(self),
                bet_token_id,
            ),
    {
        if !(bet_token_id == 0 || bet_token_id == 1) {
            return Err(ContractError::InvalidInput);
        }
        let owner = self.owner.clone();
        if caller != owner {
            let bal: u128 = match self.get_token_map(bet_token_id).get(&caller) {
                Some(b) => *b,
                None => 0,
            };
            if bal <= amount {
                return Err(ContractError::InsufficientBalance);
            }
        }
        let current_price: u128 = match self.current_prices.get(&token) {
            Some(p) => *p,
            None => { return Err(ContractError::NotFound) },
        };
        match self.transfer(&caller, &owner, bet_token_id, amount) {
            Err(e) => Err(e),
            Ok(()) => {
                let bet = Bet {
                    token,
                    initial_token_price: current_price,
                    in_token: bet_token_id,
                    amount,
                    direction,
                };
                self.current_bets.set(&caller, bet);
                Ok(())
            },
        }
    }

    /// The account's open bet, or `NotFound` if it has none.
    pub fn get_bet_from_user(&self, account_id: String) -> (r: Result<Bet, ContractError>)
        requires
            self.wf(),
        ensures
            self.spec_bets().contains_key(account_id@) ==> (r matches Ok(b) && b@
                == self.spec_bets()[account_id@]),
            !self.spec_bets().contains_key(account_id@) ==> r == Err::<Bet, ContractError>(
                ContractError::NotFound,
            ),
    {
        match self.current_bets.get(&account_id) {
            Some(b) => Ok(b.clone()),
            None => Err(ContractError::NotFound),
        }
    }

    /// Settle the caller's open bet: remove the record, read the asset's
    /// current price, and credit stake times the truncated price ratio
    /// (inverted for a short bet) back to the caller.
    ///
    /// The record is removed before the price lookup, so a bet on an asset
    /// whose price is gone is destroyed without payout; the balances are
    /// untouched in that case.
    pub fn close_bet(&mut self, caller: String) -> (r: Result<(), ContractError>)
        requires
            old(self).wf(),
            Self::close_bet_fits(*old(self), caller@),
        ensures
            final(self).wf(),
            r is Ok <==> (old(self).spec_bets().contains_key(caller@) && old(
                self,
            ).spec_prices().contains_key(old(self).spec_bets()[caller@].token)),
            r is Err ==> r == Err::<(), ContractError>(ContractError::NotFound),
            !old(self).spec_bets().contains_key(caller@) ==> *final(self) == *old(self),
            old(self).spec_bets().contains_key(caller@) ==> final(self).spec_bets() == old(
                self,
            ).spec_bets().remove(caller@),
            old(self).spec_bets().contains_key(caller@) && !old(self).spec_prices().contains_key(
                old(self).spec_bets()[caller@].token,
            ) ==> Self::unchanged_except_bets(*old(self), *final(self)),
            r is Ok ==> final(self).spec_balances(old(self).spec_bets()[caller@].in_token)
                == credit(
                old(self).spec_balances(old(self).spec_bets()[caller@].in_token),
                old(self).spec_owner(),
                caller@,
                Self::close_payout(*old(self), caller@),
            ),
            r is Ok ==> Self::unchanged_except_balances_and_bets(
                *old(self),
                *final(self),
                old(self).spec_bets()[caller@].in_token,
            ),
    {
        let bet = match self.current_bets.get(&caller) {
            Some(b) => b.clone(),
            None => { return Err(ContractError::NotFound) },
        };
        self.current_bets.remove(&caller);
        proof {
            assert(valid_kind(bet@.in_token));
            assert(self.wf());
        }
        let current_price: u128 = match self.current_prices.get(&bet.token) {
            Some(p) => *p,
            None => { return Err(ContractError::NotFound) },
        };
        let multiplicator: u128 = if bet.direction == BetDirection::Long {
            current_price * 1_000_000u128 / bet.initial_token_price / 1_000_000u128
        } else {
            bet.initial_token_price * 1_000_000u128 / current_price / 1_000_000u128
        };
        let new_balance: u128 = bet.amount * multiplicator;
        let owner = self.owner.clone();
        match self.transfer(&owner, &caller, bet.in_token, new_balance) {
            Err(e) => Err(e),
            Ok(()) => Ok(()),
        }
    }

    /// How many catalog words the account has unlocked; zero for an account
    /// never seen.
    pub fn get_user_word_amount(&self, account_id: String) -> (r: usize)
        requires
            self.wf(),
        ensures
            r == count_or_zero(self.spec_word_counts(), account_id@),
    {
        match self.users_word_amount.get(&account_id) {
            Some(n) => *n,
            None => 0,
        }
    }

    /// The catalog prefix the caller has unlocked so far.
    pub fn get_user_words(&mut self, caller: String) -> (r: Vec<String>)
        requires
            old(self).wf(),
        ensures
            *final(self) == *old(self),
            r@ == old(self).spec_words().take(
                count_or_zero(old(self).spec_word_counts(), caller@) as int,
            ),
    {
        let user_word_amount: usize = match self.users_word_amount.get(&caller) {
            Some(n) => *n,
            None => 0,
        };
        let mut out: Vec<String> = Vec::new();
        let mut i: usize = 0;
        while i < user_word_amount
            invariant
                user_word_amount <= self.words@.len(),
                0 <= i <= user_word_amount,
                out@.len() == i,
                forall|j: int| 0 <= j < i ==> out@[j] == self.words@[j],
            decreases user_word_amount - i,
        {
            out.push(self.words[i].clone());
            i = i + 1;
        }
        proof {
            assert(out@ =~= self.spec_words().take(user_word_amount as int));
        }
        out
    }

    /// The price of the next catalog word, in primary-token units and in
    /// synthetic-token units at the current synthetic price.
    pub fn get_word_price(&mut self) -> (r: (u128, u128))
        requires
            old(self).wf(),
        ensures
            *final(self) == *old(self),
            r.0 == word_price_of(0, old(self).spec_synth_price()),
            r.1 == word_price_of(1, old(self).spec_synth_price()),
    {
        let stheist_word_price = WORD_PRICE * 1_000_000u128 / self.stheist_price / 1_000_000u128;
        (WORD_PRICE, stheist_word_price)
    }

    /// Spend the word price of the given token kind to unlock the next
    /// catalog word, which is returned. The account must already hold a
    /// balance entry of that kind and, unless it is the owner, strictly more
    /// than the price.
    pub fn buy_word(&mut self, caller: String, token_id: i8) -> (r: Result<String, ContractError>)
        requires
            old(self).wf(),
            Self::buy_word_in_catalog(*old(self), caller@, token_id),
        ensures
            final(self).wf(),
            r == Err::<String, ContractError>(ContractError::InvalidInput) <==> !valid_kind(
                token_id,
            ),
            valid_kind(token_id) ==> ((r == Err::<String, ContractError>(ContractError::NotFound))
                <==> !old(self).spec_balances(token_id).contains_key(caller@)),
            r is Ok <==> Self::buy_word_allowed(*old(self), caller@, token_id),
            r is Err ==> *final(self) == *old(self),
            r is Ok ==> (r matches Ok(w) && w@ == old(self).spec_words()[count_or_zero(
                old(self).spec_word_counts(),
                caller@,
            ) as int]@),
            r is Ok ==> final(self).spec_balances(token_id) == debit(
                old(self).spec_balances(token_id),
                old(self).spec_owner(),
                caller@,
                word_price_of(token_id, old(self).spec_synth_price()),
            ),
            r is Ok ==> final(self).spec_word_counts() == old(self).spec_word_counts().insert(
                caller@,
                (count_or_zero(old(self).spec_word_counts(), caller@) + 1) as usize,
            ),
            r is Ok ==> Self::unchanged_except_balances_and_word_counts(
                *old(self),
                *final(self),
                token_id,
            ),
    {
        if !(token_id == 0 || token_id == 1) {
            return Err(ContractError::InvalidInput);
        }
        let word_prices = self.get_word_price();
        let price: u128 = if token_id == 0 {
            word_prices.0
        } else {
            word_prices.1
        };
        let user_balance: u128 = match self.get_balance(&caller, &token_id) {
            Ok(b) => b,
            Err(e) => { return Err(e) },
        };
        if user_balance < price {
            return Err(ContractError::InsufficientBalance);
        }
        let owner = self.owner.clone();
        match self.transfer(&caller, &owner, token_id, price) {
            Err(e) => { return Err(e) },
            Ok(()) => {},
        }
        let curr_word: usize = match self.users_word_amount.get(&caller) {
            Some(n) => *n,
            None => 0,
        };
        let total_words = self.words.len();
        proof {
            assert(Self::buy_word_allowed(*old(self), caller@, token_id));
            assert(curr_word < old(self).spec_words().len());
            assert(curr_word < total_words);
        }
        self.users_word_amount.set(&caller, curr_word + 1);
        Ok(self.words[curr_word].clone())
    }

    /// When a word purchase goes through: a valid token kind, an existing
    /// balance entry, at least the price held, and (unless the caller is the
    /// owner, who is balance-exempt) strictly more than the price.
    pub open spec fn buy_word_allowed(pre: Self, caller: Seq<char>, kind: i8) -> bool {
        &&& valid_kind(kind)
        &&& pre.spec_balances(kind).contains_key(caller)
        &&& pre.spec_balances(kind)[caller] >= word_price_of(kind, pre.spec_synth_price())
        &&& (caller == pre.spec_owner() || pre.spec_balances(kind)[caller] > word_price_of(
            kind,
            pre.spec_synth_price(),
        ))
    }

    /// Whenever a word purchase would go through, the caller has not yet
    /// unlocked the whole catalog: the next word exists.
    pub open spec fn buy_word_in_catalog(pre: Self, caller: Seq<char>, kind: i8) -> bool {
        Self::buy_word_allowed(pre, caller, kind) ==> count_or_zero(pre.spec_word_counts(), caller)
            < pre.spec_words().len()
    }
}

/// A `set` on a balance table changes the sum of balances by the difference
/// between the new value and the old (missing-is-zero) one.
proof fn lemma_set_sum(pre: Table<u128>, post: Table<u128>, k: Seq<char>, v: u128)
    requires
        pre.wf(),
        pre.has_key(k) ==> 0 <= pre.index_of(k) < pre.entries().len(),
        pre.has_key(k) ==> pre.entries()[pre.index_of(k)] == (k, pre.as_map()[k]),
        pre.has_key(k) ==> post.entries() == pre.entries().update(pre.index_of(k), (k, v)),
        !pre.has_key(k) ==> post.entries() == pre.entries().push((k, v)),
    ensures
        sum_amounts(post.entries()) == sum_amounts(pre.entries()) - bal_or_zero(pre.as_map(), k)
            + v,
{
    if pre.has_key(k) {
        assert(pre.as_map().contains_key(k));
        lemma_sum_update(pre.entries(), pre.index_of(k), (k, v));
    } else {
        assert(!pre.as_map().contains_key(k));
        lemma_sum_push(pre.entries(), (k, v));
    }
}

/// The word catalog every ledger starts with.
pub open spec fn word_catalog() -> Seq<Seq<char>> {
    seq![
        "word1"@,
        "word2"@,
        "word3"@,
        "word4"@,
        "word5"@,
        "word6"@,
        "word7"@,
        "word8"@,
        "word9"@,
        "word10"@,
        "word11"@,
        "word12"@,
    ]
}

impl PricePredictorContract {
    /// A fresh ledger with the given owner: no registrations, no prices, no
    /// bets, empty balance tables, the synthetic price at its starting
    /// value, and the twelve-word catalog with nothing unlocked.
    pub fn new(owner_id: String) -> (c: Self)
        ensures
            c.wf(),
            c.spec_owner() == owner_id@,
            c.spec_registered() == Seq::<String>::empty(),
            c.spec_prices() == Map::<Seq<char>, u128>::empty(),
            c.spec_price_list() == Seq::<(Seq<char>, u128)>::empty(),
            c.spec_bets() == Map::<Seq<char>, BetView>::empty(),
            c.spec_balances(0) == Map::<Seq<char>, u128>::empty(),
            c.spec_balances(1) == Map::<Seq<char>, u128>::empty(),
            c.spec_balance_list(0) == Seq::<(Seq<char>, u128)>::empty(),
            c.spec_balance_list(1) == Seq::<(Seq<char>, u128)>::empty(),
            c.spec_synth_price() == 1_000_000_000_000u128,
            c.spec_word_counts() == Map::<Seq<char>, usize>::empty(),
            c.spec_words().len() == word_catalog().len(),
            forall|i: int|
                0 <= i < word_catalog().len() ==> (#[trigger] c.spec_words()[i])@
                    == word_catalog()[i],
    {
        let mut words: Vec<String> = Vec::new();
        words.push("word1".to_owned());
        words.push("word2".to_owned());
        words.push("word3".to_owned());
        words.push("word4".to_owned());
        words.push("word5".to_owned());
        words.push("word6".to_owned());
        words.push("word7".to_owned());
        words.push("word8".to_owned());
        words.push("word9".to_owned());
        words.push("word10".to_owned());
        words.push("word11".to_owned());
        words.push("word12".to_owned());
        let c = PricePredictorContract {
            owner: owner_id,
            registered_accounts: Vec::new(),
            current_prices: Table::new(),
            current_bets: Table::new(),
            heist_balances: Table::new(),
            stheist_balances: Table::new(),
            stheist_price: 1_000_000_000_000u128,
            words,
            users_word_amount: Table::new(),
        };
        proof {
            assert(c.spec_words()[0]@ == word_catalog()[0]);
            assert(c.spec_words()[1]@ == word_catalog()[1]);
            assert(c.spec_words()[2]@ == word_catalog()[2]);
            assert(c.spec_words()[3]@ == word_catalog()[3]);
            assert(c.spec_words()[4]@ == word_catalog()[4]);
            assert(c.spec_words()[5]@ == word_catalog()[5]);
            assert(c.spec_words()[6]@ == word_catalog()[6]);
            assert(c.spec_words()[7]@ == word_catalog()[7]);
            assert(c.spec_words()[8]@ == word_catalog()[8]);
            assert(c.spec_words()[9]@ == word_catalog()[9]);
            assert(c.spec_words()[10]@ == word_catalog()[10]);
            assert(c.spec_words()[11]@ == word_catalog()[11]);
        }
        c
    }
}

impl Default for PricePredictorContract {
    /// A fresh ledger with the fixed owner identity the deployed contract
    /// uses, and otherwise the same starting state as [`Self::new`].
    fn default() -> (c: Self)
        ensures
            c.wf(),
            c.spec_owner() == "silkking.testnet"@,
            c.spec_registered() == Seq::<String>::empty(),
            c.spec_prices() == Map::<Seq<char>, u128>::empty(),
            c.spec_price_list() == Seq::<(Seq<char>, u128)>::empty(),
            c.spec_bets() == Map::<Seq<char>, BetView>::empty(),
            c.spec_balances(0) == Map::<Seq<char>, u128>::empty(),
            c.spec_balances(1) == Map::<Seq<char>, u128>::empty(),
            c.spec_balance_list(0) == Seq::<(Seq<char>, u128)>::empty(),
            c.spec_balance_list(1) == Seq::<(Seq<char>, u128)>::empty(),
            c.spec_synth_price() == 1_000_000_000_000u128,
            c.spec_word_counts() == Map::<Seq<char>, usize>::empty(),
            c.spec_words().len() == word_catalog().len(),
            forall|i: int|
                0 <= i < word_catalog().len() ==> (#[trigger] c.spec_words()[i])@
                    == word_catalog()[i],
    {
        PricePredictorContract::new("silkking.testnet".to_owned())
    }
}

/// One multiplier step strictly increases any price at or above the starting
/// value, and the result still fits in a `u128` when the product does.
proof fn lemma_synth_price_grows(sp: u128)
    requires
        sp >= 1_000_000_000_000,
        sp * EPOCH_PRICE_MULTIPLIER <= u128::MAX,
    ensures
        sp < sp * EPOCH_PRICE_MULTIPLIER / 1_000_000_000 <= u128::MAX,
{
    let b: int = 1_000_000_000;
    let p: int = sp * EPOCH_PRICE_MULTIPLIER;
    assert(EPOCH_PRICE_MULTIPLIER == 1000125079);
    assert(sp * 1000125079 == sp * 1000000000 + sp * 125079) by (nonlinear_arith);
    assert(sp * 125079 >= 1_000_000_000) by (nonlinear_arith)
        requires
            sp >= 1_000_000_000_000,
    ;
    assert((sp + 1) * b == sp * b + b) by (nonlinear_arith);
    assert((sp + 1) * b <= p);
    vstd::arithmetic::div_mod::lemma_div_is_ordered((sp + 1) * b, p, b);
    vstd::arithmetic::div_mod::lemma_div_by_multiple(sp + 1, b);
    assert(p / b >= sp + 1);
    vstd::arithmetic::div_mod::lemma_div_is_ordered(p, u128::MAX as int, b);
    vstd::arithmetic::div_mod::lemma_div_nonincreasing(u128::MAX as int, b);
}

} // verus!
