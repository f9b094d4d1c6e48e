//! A ledger of balances by account.

use std::collections::HashMap;
use vstd::prelude::*;

verus! {

/// Identity of an account.
pub type AccountId = u32;

/// Amount held by an account.
pub type Balances = u32;

/// The ledger: the accounts that were given a balance, with that balance.
pub struct Pallet {
    pub balance: HashMap<AccountId, Balances>,
}

/// The balance that a ledger shows for `account`: the one on record, and
/// zero for an account without a record.
pub open spec fn balance_in(ledger: Map<AccountId, Balances>, account: AccountId) -> Balances {
    if ledger.contains_key(account) {
        ledger[account]
    } else {
        0
    }
}

impl Pallet {
    /// A ledger without accounts.
    pub fn new() -> (r: Pallet)
        ensures
            r.balance@ == Map::<AccountId, Balances>::empty(),
    {
        Pallet { balance: HashMap::new() }
    }

    /// Sets the balance of `account`, whatever it was before.
    pub fn set_balances(&mut self, account: AccountId, balance: Balances)
        ensures
            final(self).balance@ == old(self).balance@.insert(account, balance),
    {
        self.balance.insert(account, balance);
    }

    /// The balance of `account`; zero for an account without one.
    pub fn get_balances(&self, account: AccountId) -> (r: Balances)
        ensures
            r == balance_in(self.balance@, account),
    {
        match self.balance.get(&account) {
            Some(balance) => *balance,
            None => 0,
        }
    }
}

/// A balance reads back as it was set, and setting it leaves the other
/// accounts alone.
pub proof fn lemma_set_then_get(
    ledger: Map<AccountId, Balances>,
    account: AccountId,
    balance: Balances,
    other: AccountId,
)
    ensures
        balance_in(ledger.insert(account, balance), account) == balance,
        other != account ==> balance_in(ledger.insert(account, balance), other) == balance_in(
            ledger,
            other,
        ),
        balance_in(Map::empty(), account) == 0,
{
}

} // verus!
