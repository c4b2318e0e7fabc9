//! The native balances that identities hold outside the vault.

use crate::errors::Refusal;
use crate::identity::Identity;
use vstd::prelude::*;

verus! {

/// One identity's balance of native value.
#[derive(Clone, Copy, Debug, PartialEq, Eq)]
pub struct Wallet {
    pub key: Identity,
    pub lamports: u64,
}

/// `i` is the first place in `wallets` at which `key`'s wallet stands.
pub open spec fn wallet_at(wallets: Seq<Wallet>, key: Identity, i: int) -> bool {
    &&& 0 <= i < wallets.len()
    &&& wallets[i].key == key
    &&& forall|j: int| 0 <= j < i ==> wallets[j].key != key
}

/// The place of `key`'s wallet, if it has one.
pub open spec fn wallet_index(wallets: Seq<Wallet>, key: Identity) -> Option<int> {
    if exists|i: int| wallet_at(wallets, key, i) {
        Some(choose|i: int| wallet_at(wallets, key, i))
    } else {
        None
    }
}

/// The native value that `key` holds: 0 without a wallet.
pub open spec fn lamports_of(wallets: Seq<Wallet>, key: Identity) -> nat {
    match wallet_index(wallets, key) {
        Some(i) => wallets[i].lamports as nat,
        None => 0,
    }
}

/// The wallets after `amount` leaves `key`'s: refused where it holds less.
pub open spec fn spec_take(wallets: Seq<Wallet>, key: Identity, amount: u64) -> Result<
    Seq<Wallet>,
    Refusal,
> {
    if lamports_of(wallets, key) < amount {
        Err(Refusal::InsufficientFunds)
    } else {
        match wallet_index(wallets, key) {
            Some(i) => Ok(
                wallets.update(
                    i,
                    Wallet { lamports: (wallets[i].lamports - amount) as u64, ..wallets[i] },
                ),
            ),
            None => Ok(wallets),
        }
    }
}

/// The wallets after `amount` reaches `key`'s, which is opened with it where
/// `key` has none: refused where the balance would not fit.
pub open spec fn spec_give(wallets: Seq<Wallet>, key: Identity, amount: u64) -> Result<
    Seq<Wallet>,
    Refusal,
> {
    match wallet_index(wallets, key) {
        Some(i) => if wallets[i].lamports + amount > u64::MAX {
            Err(Refusal::Overflow)
        } else {
            Ok(
                wallets.update(
                    i,
                    Wallet { lamports: (wallets[i].lamports + amount) as u64, ..wallets[i] },
                ),
            )
        },
        None => Ok(wallets.push(Wallet { key, lamports: amount })),
    }
}

/// The first place at which `key` stands is its place.
pub proof fn lemma_wallet_index(wallets: Seq<Wallet>, key: Identity, i: int)
    requires
        wallet_at(wallets, key, i),
    ensures
        wallet_index(wallets, key) == Some(i),
{
    let k = choose|k: int| wallet_at(wallets, key, k);
    if k < i {
        assert(wallets[k].key != key);
    } else if i < k {
        assert(wallets[i].key != key);
    }
}

/// A key that stands nowhere has no place; one that has a place stands there
/// first.
pub proof fn lemma_wallet_index_is(wallets: Seq<Wallet>, key: Identity)
    ensures
        wallet_index(wallets, key) matches Some(i) ==> wallet_at(wallets, key, i),
        wallet_index(wallets, key) is None ==> forall|j: int|
            0 <= j < wallets.len() ==> (#[trigger] wallets[j]).key != key,
{
    if wallet_index(wallets, key) is None {
        assert forall|j: int| 0 <= j < wallets.len() implies (#[trigger] wallets[j]).key
            != key by {
            if wallets[j].key == key {
                lemma_first_wallet(wallets, key, j);
            }
        }
    }
}

/// Where `key` stands at all, it stands somewhere first.
proof fn lemma_first_wallet(wallets: Seq<Wallet>, key: Identity, j: int)
    requires
        0 <= j < wallets.len(),
        wallets[j].key == key,
    ensures
        exists|i: int| wallet_at(wallets, key, i),
    decreases j,
{
    if exists|k: int| 0 <= k < j && wallets[k].key == key {
        let k = choose|k: int| 0 <= k < j && wallets[k].key == key;
        lemma_first_wallet(wallets, key, k);
    } else {
        assert(wallet_at(wallets, key, j));
    }
}

/// Changing a wallet's balance moves nobody's place.
pub proof fn lemma_update_keeps_wallets(wallets: Seq<Wallet>, i: int, wallet: Wallet, key: Identity)
    requires
        0 <= i < wallets.len(),
        wallet.key == wallets[i].key,
    ensures
        wallet_index(wallets.update(i, wallet), key) == wallet_index(wallets, key),
{
    let after = wallets.update(i, wallet);
    lemma_wallet_index_is(wallets, key);
    match wallet_index(wallets, key) {
        Some(k) => {
            assert(wallet_at(after, key, k)) by {
                assert forall|j: int| 0 <= j < k implies after[j].key != key by {
                    assert(wallets[j].key != key);
                }
            }
            lemma_wallet_index(after, key, k);
        },
        None => {
            lemma_wallet_index_is(after, key);
            if wallet_index(after, key) is Some {
                let k = wallet_index(after, key).unwrap();
                assert(wallets[k].key == key);
            }
        },
    }
}

/// A new wallet at the end is its key's place if the key had none.
pub proof fn lemma_push_wallet(wallets: Seq<Wallet>, wallet: Wallet)
    requires
        wallet_index(wallets, wallet.key) is None,
    ensures
        wallet_index(wallets.push(wallet), wallet.key) == Some(wallets.len() as int),
{
    let after = wallets.push(wallet);
    lemma_wallet_index_is(wallets, wallet.key);
    assert(wallet_at(after, wallet.key, wallets.len() as int)) by {
        assert forall|j: int| 0 <= j < wallets.len() implies after[j].key != wallet.key by {
            assert(wallets[j].key != wallet.key);
        }
    }
    lemma_wallet_index(after, wallet.key, wallets.len() as int);
}

/// The place of `key`'s wallet.
pub fn find_wallet(wallets: &Vec<Wallet>, key: &Identity) -> (r: Option<usize>)
    ensures
        match r {
            Some(i) => wallet_index(wallets@, *key) == Some(i as int),
            None => wallet_index(wallets@, *key) is None,
        },
{
    let mut i: usize = 0;
    while i < wallets.len()
        invariant
            i <= wallets.len(),
            forall|j: int| 0 <= j < i ==> wallets@[j].key != *key,
        decreases wallets.len() - i,
    {
        if wallets[i].key == *key {
            proof {
                lemma_wallet_index(wallets@, *key, i as int);
            }
            return Some(i);
        }
        i += 1;
    }
    proof {
        lemma_wallet_index_is(wallets@, *key);
        if wallet_index(wallets@, *key) is Some {
            let k = wallet_index(wallets@, *key).unwrap();
            assert(wallets@[k].key != *key);
        }
    }
    None
}

/// The native value that `key` holds.
pub fn lamports(wallets: &Vec<Wallet>, key: &Identity) -> (r: u64)
    ensures
        r == lamports_of(wallets@, *key),
{
    match find_wallet(wallets, key) {
        Some(i) => wallets[i].lamports,
        None => 0,
    }
}

/// Takes `amount` out of `key`'s wallet.
pub fn take(wallets: &mut Vec<Wallet>, key: &Identity, amount: u64) -> (r: Result<(), Refusal>)
    ensures
        crate::token::applied(r, old(wallets)@, final(wallets)@, spec_take(old(wallets)@, *key, amount)),
{
    match find_wallet(wallets, key) {
        Some(i) => {
            let wallet = wallets[i];
            if wallet.lamports < amount {
                return Err(Refusal::InsufficientFunds);
            }
            wallets.set(i, Wallet { key: wallet.key, lamports: wallet.lamports - amount });
            Ok(())
        },
        None => {
            if amount > 0 {
                Err(Refusal::InsufficientFunds)
            } else {
                Ok(())
            }
        },
    }
}

/// Puts `amount` into `key`'s wallet, opening it where `key` has none.
pub fn give(wallets: &mut Vec<Wallet>, key: &Identity, amount: u64) -> (r: Result<(), Refusal>)
    ensures
        crate::token::applied(r, old(wallets)@, final(wallets)@, spec_give(old(wallets)@, *key, amount)),
{
    match find_wallet(wallets, key) {
        Some(i) => {
            let wallet = wallets[i];
            match wallet.lamports.checked_add(amount) {
                Some(sum) => {
                    wallets.set(i, Wallet { key: wallet.key, lamports: sum });
                    Ok(())
                },
                None => Err(Refusal::Overflow),
            }
        },
        None => {
            wallets.push(Wallet { key: *key, lamports: amount });
            Ok(())
        },
    }
}

/// A copy of the wallets.
pub fn duplicate_wallets(wallets: &Vec<Wallet>) -> (r: Vec<Wallet>)
    ensures
        r@ == wallets@,
{
    let mut copy: Vec<Wallet> = Vec::new();
    let mut i: usize = 0;
    while i < wallets.len()
        invariant
            i <= wallets.len(),
            copy@ == wallets@.take(i as int),
        decreases wallets.len() - i,
    {
        copy.push(wallets[i]);
        assert(wallets@.take(i + 1) =~= wallets@.take(i as int).push(wallets@[i as int]));
        i += 1;
    }
    assert(wallets@.take(i as int) =~= wallets@);
    copy
}

/// Taking from a wallet lowers its key's balance by the amount and no other.
pub proof fn lemma_take_effect(wallets: Seq<Wallet>, key: Identity, amount: u64, who: Identity)
    requires
        spec_take(wallets, key, amount) is Ok,
    ensures
        lamports_of(spec_take(wallets, key, amount)->Ok_0, who) == lamports_of(wallets, who) - if who
            == key {
            amount as int
        } else {
            0
        },
{
    lemma_wallet_index_is(wallets, key);
    lemma_wallet_index_is(wallets, who);
    match wallet_index(wallets, key) {
        Some(i) => {
            let wallet = Wallet { lamports: (wallets[i].lamports - amount) as u64, ..wallets[i] };
            lemma_update_keeps_wallets(wallets, i, wallet, who);
        },
        None => {},
    }
}

/// Giving to a wallet raises its key's balance by the amount and no other.
pub proof fn lemma_give_effect(wallets: Seq<Wallet>, key: Identity, amount: u64, who: Identity)
    requires
        spec_give(wallets, key, amount) is Ok,
    ensures
        lamports_of(spec_give(wallets, key, amount)->Ok_0, who) == lamports_of(wallets, who) + if who
            == key {
            amount as int
        } else {
            0
        },
{
    lemma_wallet_index_is(wallets, key);
    lemma_wallet_index_is(wallets, who);
    match wallet_index(wallets, key) {
        Some(i) => {
            let wallet = Wallet { lamports: (wallets[i].lamports + amount) as u64, ..wallets[i] };
            lemma_update_keeps_wallets(wallets, i, wallet, who);
        },
        None => {
            let wallet = Wallet { key, lamports: amount };
            let after = wallets.push(wallet);
            lemma_push_wallet(wallets, wallet);
            if who != key {
                lemma_wallet_index_is(after, who);
                match wallet_index(wallets, who) {
                    Some(k) => {
                        assert(wallet_at(after, who, k)) by {
                            assert forall|j: int| 0 <= j < k implies after[j].key != who by {
                                assert(wallets[j].key != who);
                            }
                        }
                        lemma_wallet_index(after, who, k);
                    },
                    None => {
                        if wallet_index(after, who) is Some {
                            let k = wallet_index(after, who).unwrap();
                            if k < wallets.len() {
                                assert(wallets[k].key == who);
                            }
                        }
                    },
                }
            }
        },
    }
}

} // verus!
