//! A deliberately flawed token contract, kept as an analysis target: its
//! transfer asks no authorisation and its mint does not check for overflow.
//! Accounts are identified by integers and balances live in a model of the
//! contract's persistent storage.
use vstd::prelude::*;
use std::collections::HashMap;

verus! {

broadcast use vstd::std_specs::hash::group_hash_axioms;

/// The contract's persistent storage: the balance stored for each account.
pub struct PersistentStorage {
    pub balances: HashMap<u64, i128>,
}

impl View for PersistentStorage {
    type V = Map<u64, i128>;

    open spec fn view(&self) -> Map<u64, i128> {
        self.balances@
    }
}

/// The balance of `id`: what is stored for it, or 0.
pub open spec fn balance_of(m: Map<u64, i128>, id: u64) -> int {
    if m.contains_key(id) {
        m[id] as int
    } else {
        0
    }
}

/// Whether `transfer` stays within `i128`: the sender's new balance, then the
/// receiver's (read after the sender's was written).
pub open spec fn transfer_fits(m: Map<u64, i128>, from: u64, to: u64, amount: i128) -> bool {
    let after_from = balance_of(m, from) - amount;
    &&& i128::MIN <= after_from <= i128::MAX
    &&& i128::MIN <= balance_of(m.insert(from, after_from as i128), to) + amount <= i128::MAX
}

/// The storage after `transfer`: the sender's balance written first, then the
/// receiver's, computed from what the storage holds after the first write.
pub open spec fn transfer_result(m: Map<u64, i128>, from: u64, to: u64, amount: i128) -> Map<u64, i128> {
    let m1 = m.insert(from, (balance_of(m, from) - amount) as i128);
    m1.insert(to, (balance_of(m1, to) + amount) as i128)
}

/// The token contract.
pub struct TokenWithBugs;

impl PersistentStorage {
    /// Storage that holds no balance.
    pub fn new() -> (r: Self)
        ensures
            r@ == Map::<u64, i128>::empty(),
    {
        PersistentStorage { balances: HashMap::new() }
    }
}

impl TokenWithBugs {
    /// Sets nothing up: the storage is left as it was.
    pub fn initialize(e: &PersistentStorage, admin: u64, name: String, symbol: String) {
    }

    /// The balance stored for `id`, or 0 where none is.
    pub fn balance(e: &PersistentStorage, id: u64) -> (r: i128)
        ensures
            r == balance_of(e@, id),
    {
        match e.balances.get(&id) {
            Some(b) => *b,
            None => 0,
        }
    }

    /// Moves `amount` from `from` to `to`, without asking `from` to authorise it.
    pub fn transfer(e: &mut PersistentStorage, from: u64, to: u64, amount: i128)
        requires
            transfer_fits(old(e)@, from, to, amount),
        ensures
            final(e)@ == transfer_result(old(e)@, from, to, amount),
    {
        let from_balance = Self::balance(e, from);
        e.balances.insert(from, from_balance - amount);
        let to_balance = Self::balance(e, to);
        e.balances.insert(to, to_balance + amount);
    }

    /// Adds `amount` to the balance of `to`; the sum must fit in `i128`, as
    /// nothing checks it.
    pub fn mint(e: &mut PersistentStorage, to: u64, amount: i128)
        requires
            i128::MIN <= balance_of(old(e)@, to) + amount <= i128::MAX,
        ensures
            final(e)@ == old(e)@.insert(to, (balance_of(old(e)@, to) + amount) as i128),
    {
        let current_balance = Self::balance(e, to);
        let new_balance = current_balance + amount;
        e.balances.insert(to, new_balance);
    }

    /// The token's symbol.
    pub fn symbol(e: &PersistentStorage) -> (r: String)
        ensures
            r@ == "TKN"@,
    {
        String::from_str("TKN")
    }
}

/// A transfer between two accounts moves `amount` from one to the other and
/// leaves their sum, and every other balance, as it was.
pub proof fn lemma_transfer_moves_amount(m: Map<u64, i128>, from: u64, to: u64, amount: i128, other: u64)
    requires
        from != to,
        transfer_fits(m, from, to, amount),
    ensures
        balance_of(transfer_result(m, from, to, amount), from) == balance_of(m, from) - amount,
        balance_of(transfer_result(m, from, to, amount), to) == balance_of(m, to) + amount,
        balance_of(transfer_result(m, from, to, amount), from) + balance_of(
            transfer_result(m, from, to, amount),
            to,
        ) == balance_of(m, from) + balance_of(m, to),
        other != from && other != to ==> balance_of(transfer_result(m, from, to, amount), other)
            == balance_of(m, other),
{
}

/// A transfer from an account to itself leaves every balance as it was.
pub proof fn lemma_self_transfer_changes_nothing(m: Map<u64, i128>, id: u64, amount: i128, other: u64)
    requires
        transfer_fits(m, id, id, amount),
    ensures
        balance_of(transfer_result(m, id, id, amount), other) == balance_of(m, other),
{
}

/// Minting raises the receiver's balance by `amount` and no other.
pub proof fn lemma_mint_adds_amount(m: Map<u64, i128>, to: u64, amount: i128, other: u64)
    requires
        i128::MIN <= balance_of(m, to) + amount <= i128::MAX,
    ensures
        balance_of(m.insert(to, (balance_of(m, to) + amount) as i128), to) == balance_of(m, to)
            + amount,
        other != to ==> balance_of(m.insert(to, (balance_of(m, to) + amount) as i128), other)
            == balance_of(m, other),
{
}

} // verus!
