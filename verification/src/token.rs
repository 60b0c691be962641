//! Pure token balance logic (initialise, transfer, mint, burn) and the thin
//! contract layer over a model of the contract's instance storage.
use vstd::prelude::*;

verus! {

/// What `initialize_pure` returns for the already-initialised flag.
pub open spec fn initialize_outcome(is_initialized: bool) -> Result<(), &'static str> {
    if is_initialized {
        Err("already initialized")
    } else {
        Ok(())
    }
}

/// Attempt to initialise the token contract.
///
/// * `is_initialized` – whether the contract has already been set up.
/// * Returns `Ok(())` on success (transitions the flag from `false` → `true`).
/// * Returns `Err("already initialized")` if the token was already set up,
///   guaranteeing that a second call can **never** succeed.
pub fn initialize_pure(is_initialized: bool) -> (r: Result<(), &'static str>)
    ensures
        r == initialize_outcome(is_initialized),
{
    if is_initialized {
        return Err("already initialized");
    }
    Ok(())
}

/// What `transfer_pure` returns: both new balances, or the first error that applies.
pub open spec fn transfer_outcome(balance_from: i128, balance_to: i128, amount: i128) -> Result<(i128, i128), &'static str> {
    if amount <= 0 {
        Err("Amount must be positive")
    } else if balance_from < amount {
        Err("Insufficient balance")
    } else if balance_to + amount > i128::MAX {
        Err("Receiver balance overflow")
    } else {
        Ok(((balance_from - amount) as i128, (balance_to + amount) as i128))
    }
}

/// Transfer: deduct from sender, add to receiver.  Fails when the amount is not
/// positive, when the sender's balance is below the amount, or when the
/// receiver's balance would overflow.
pub fn transfer_pure(balance_from: i128, balance_to: i128, amount: i128) -> (r: Result<(i128, i128), &'static str>)
    ensures
        r == transfer_outcome(balance_from, balance_to, amount),
{
    if amount <= 0 {
        return Err("Amount must be positive");
    }
    if balance_from < amount {
        return Err("Insufficient balance");
    }
    let new_from = balance_from - amount;
    let new_to = match balance_to.checked_add(amount) {
        Some(v) => v,
        None => return Err("Receiver balance overflow"),
    };
    Ok((new_from, new_to))
}

/// What `mint_pure` returns.
pub open spec fn mint_outcome(balance: i128, amount: i128) -> Result<i128, &'static str> {
    if amount <= 0 {
        Err("Mint amount must be positive")
    } else if balance + amount > i128::MAX {
        Err("Mint overflow")
    } else {
        Ok((balance + amount) as i128)
    }
}

/// Mint: add to a balance.
pub fn mint_pure(balance: i128, amount: i128) -> (r: Result<i128, &'static str>)
    ensures
        r == mint_outcome(balance, amount),
{
    if amount <= 0 {
        return Err("Mint amount must be positive");
    }
    match balance.checked_add(amount) {
        Some(v) => Ok(v),
        None => Err("Mint overflow"),
    }
}

/// What `burn_pure` returns.
pub open spec fn burn_outcome(balance: i128, amount: i128) -> Result<i128, &'static str> {
    if amount <= 0 {
        Err("Burn amount must be positive")
    } else if balance - amount < i128::MIN {
        Err("Insufficient balance to burn")
    } else {
        Ok((balance - amount) as i128)
    }
}

/// Burn: subtract from a balance.
pub fn burn_pure(balance: i128, amount: i128) -> (r: Result<i128, &'static str>)
    ensures
        r == burn_outcome(balance, amount),
{
    if amount <= 0 {
        return Err("Burn amount must be positive");
    }
    match balance.checked_sub(amount) {
        Some(v) => Ok(v),
        None => Err("Insufficient balance to burn"),
    }
}

/// A successful transfer conserves the total of the two balances.
pub proof fn lemma_transfer_conserves_supply(balance_from: i128, balance_to: i128, amount: i128)
    requires
        transfer_outcome(balance_from, balance_to, amount) is Ok,
    ensures
        ({
            let (new_from, new_to) = transfer_outcome(balance_from, balance_to, amount)->Ok_0;
            &&& new_from == balance_from - amount
            &&& new_to == balance_to + amount
            &&& new_from + new_to == balance_from + balance_to
        }),
{
}

/// A transfer succeeds exactly when the amount is positive, the sender's balance
/// covers it and the receiver's does not pass `i128::MAX`; in particular it fails
/// for every non-positive amount and whenever the sender holds less than the amount.
pub proof fn lemma_transfer_succeeds_iff(balance_from: i128, balance_to: i128, amount: i128)
    ensures
        transfer_outcome(balance_from, balance_to, amount) is Ok <==> (
            amount > 0
            && balance_from >= amount
            && balance_to + amount <= i128::MAX
        ),
{
}

/// Minting a positive amount that fits adds it to the balance, and burning a
/// positive amount from a balance that covers it subtracts it.
pub proof fn lemma_mint_and_burn_exact(balance: i128, amount: i128)
    requires
        amount > 0,
    ensures
        balance + amount <= i128::MAX ==> mint_outcome(balance, amount) == Ok::<i128, &'static str>(
            (balance + amount) as i128,
        ),
        balance >= amount ==> burn_outcome(balance, amount) == Ok::<i128, &'static str>(
            (balance - amount) as i128,
        ),
{
}

/// Burning what was just minted gives the starting balance back.
pub proof fn lemma_mint_then_burn_restores(balance: i128, amount: i128)
    requires
        mint_outcome(balance, amount) is Ok,
    ensures
        burn_outcome(mint_outcome(balance, amount)->Ok_0, amount) == Ok::<i128, &'static str>(balance),
{
}

/// Initialisation succeeds on a fresh contract and, once the flag is set by that
/// success, every later attempt fails: it can succeed exactly once.
pub proof fn lemma_initialize_only_once(is_initialized: bool)
    ensures
        initialize_outcome(is_initialized) is Ok <==> !is_initialized,
        initialize_outcome(false) is Ok ==> initialize_outcome(true) is Err,
{
}

/// The initialised flag after `i` calls of `initialize_pure` on a fresh
/// contract, each call setting the flag when it succeeds.
pub open spec fn flag_after_calls(i: nat) -> bool
    decreases i,
{
    if i == 0 {
        false
    } else {
        let before = flag_after_calls((i - 1) as nat);
        before || initialize_outcome(before) is Ok
    }
}

/// Across any run of calls on a fresh contract, the first initialisation
/// succeeds and every later one fails with "already initialized".
pub proof fn lemma_initialize_trace(i: nat)
    ensures
        initialize_outcome(flag_after_calls(0)) is Ok,
        i >= 1 ==> initialize_outcome(flag_after_calls(i)) == Err::<(), &'static str>(
            "already initialized",
        ),
    decreases i,
{
    if i >= 2 {
        lemma_initialize_trace((i - 1) as nat);
    }
}

/// The part of a token contract's instance storage that its entry points read and
/// write: the `init` flag and the `admin` symbol (by its text).
pub struct InstanceStorage {
    pub init: Option<bool>,
    pub admin: Option<String>,
}

/// The standard token contract whose entry points delegate to the pure logic.
pub struct TokenContract;

impl TokenContract {
    /// Wrapper exposing transfer_pure for contract use.
    /// A full implementation would read/write balances via env.storage().
    pub fn transfer(balance_from: i128, balance_to: i128, amount: i128) -> (r: (i128, i128))
        requires
            transfer_outcome(balance_from, balance_to, amount) is Ok,
        ensures
            r == transfer_outcome(balance_from, balance_to, amount)->Ok_0,
    {
        match transfer_pure(balance_from, balance_to, amount) {
            Ok(v) => v,
            Err(_) => (0, 0),
        }
    }

    /// One-shot initialisation entry point: reads the flag (absent counts as
    /// `false`), delegates to `initialize_pure` and records the flag on success.
    /// The contract traps when it was already initialised, so that call is excluded.
    pub fn initialize(storage: &mut InstanceStorage, _name: String)
        requires
            initialize_outcome(old(storage).init == Some(true)) is Ok,
        ensures
            final(storage).init == Some(true),
            final(storage).admin == old(storage).admin,
    {
        let already = match storage.init {
            Some(flag) => flag,
            None => false,
        };
        let _ = initialize_pure(already);
        storage.init = Some(true);
    }

    /// Records a new admin symbol in instance storage.
    pub fn set_admin(storage: &mut InstanceStorage, new_admin: String)
        ensures
            final(storage).admin == Some(new_admin),
            final(storage).init == old(storage).init,
    {
        storage.admin = Some(new_admin);
    }
}

/// After a successful `initialize`, the storage is in a state in which a second
/// `initialize` is refused.
pub proof fn lemma_storage_initialize_only_once(before: InstanceStorage, after: InstanceStorage)
    requires
        initialize_outcome(before.init == Some(true)) is Ok,
        after.init == Some(true),
    ensures
        initialize_outcome(after.init == Some(true)) is Err,
{
}

} // verus!
