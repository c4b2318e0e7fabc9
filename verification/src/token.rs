//! The token ledger that the vault relies on: a mint and its holder accounts.
//!
//! This is the ledger's behaviour as the vault needs it, kept in memory: who may
//! mint, burn, move and approve, and what each does to the balances.

use crate::errors::Refusal;
use crate::identity::Identity;
use vstd::prelude::*;

verus! {

/// A token type: who may mint it and how much of it exists.
#[derive(Clone, Copy, Debug, PartialEq, Eq)]
pub struct Mint {
    pub key: Identity,
    pub authority: Identity,
    pub freeze_authority: Identity,
    pub decimals: u8,
    pub supply: u64,
}

/// One identity's balance of the token, with the delegate it has approved, if
/// any, and what that delegate may still move.
#[derive(Clone, Copy, Debug, PartialEq, Eq)]
pub struct TokenAccount {
    pub owner: Identity,
    pub amount: u64,
    pub delegate: Option<Identity>,
    pub delegated_amount: u64,
}

/// A mint, once it is created, and the holder accounts opened for it.
#[derive(Debug)]
pub struct TokenLedger {
    pub mint: Option<Mint>,
    pub holders: Vec<TokenAccount>,
}

/// A token ledger as a value of mathematics.
#[verifier::ext_equal]
pub struct TokenLedgerView {
    pub mint: Option<Mint>,
    pub holders: Seq<TokenAccount>,
}

impl View for TokenLedger {
    type V = TokenLedgerView;

    open spec fn view(&self) -> TokenLedgerView {
        TokenLedgerView { mint: self.mint, holders: self.holders@ }
    }
}

/// `i` is the first place in `holders` at which `owner`'s account stands.
pub open spec fn holder_at(holders: Seq<TokenAccount>, owner: Identity, i: int) -> bool {
    &&& 0 <= i < holders.len()
    &&& holders[i].owner == owner
    &&& forall|j: int| 0 <= j < i ==> holders[j].owner != owner
}

/// The place of `owner`'s account, if it has one.
pub open spec fn holder_index(holders: Seq<TokenAccount>, owner: Identity) -> Option<int> {
    if exists|i: int| holder_at(holders, owner, i) {
        Some(choose|i: int| holder_at(holders, owner, i))
    } else {
        None
    }
}

/// `owner`'s balance: that of its account, and 0 without one.
pub open spec fn balance_of(holders: Seq<TokenAccount>, owner: Identity) -> nat {
    match holder_index(holders, owner) {
        Some(i) => holders[i].amount as nat,
        None => 0,
    }
}

/// The sum of all balances.
pub open spec fn total(holders: Seq<TokenAccount>) -> nat
    decreases holders.len(),
{
    if holders.len() == 0 {
        0
    } else {
        total(holders.drop_last()) + holders.last().amount as nat
    }
}

/// Every token that exists is in some holder's balance.
pub open spec fn conserving(ledger: TokenLedgerView) -> bool {
    ledger.mint matches Some(mint) ==> mint.supply == total(ledger.holders)
}

/// A fresh account for `owner`.
pub open spec fn empty_account(owner: Identity) -> TokenAccount {
    TokenAccount { owner, amount: 0, delegate: None, delegated_amount: 0 }
}

/// The ledger with an account for `owner`: as it is where `owner` has one.
pub open spec fn spec_open(ledger: TokenLedgerView, owner: Identity) -> Result<
    TokenLedgerView,
    Refusal,
> {
    if ledger.mint is None {
        Err(Refusal::UninitializedAccount)
    } else if holder_index(ledger.holders, owner) is Some {
        Ok(ledger)
    } else {
        Ok(TokenLedgerView { holders: ledger.holders.push(empty_account(owner)), ..ledger })
    }
}

/// The ledger after `amount` is minted to `to` on `authority`'s word.
pub open spec fn spec_mint_to(
    ledger: TokenLedgerView,
    to: Identity,
    amount: u64,
    authority: Identity,
) -> Result<TokenLedgerView, Refusal> {
    match (ledger.mint, holder_index(ledger.holders, to)) {
        (Some(mint), Some(i)) => {
            let account = ledger.holders[i];
            if mint.authority != authority {
                Err(Refusal::OwnerMismatch)
            } else if account.amount + amount > u64::MAX || mint.supply + amount > u64::MAX {
                Err(Refusal::Overflow)
            } else {
                Ok(
                    TokenLedgerView {
                        mint: Some(Mint { supply: (mint.supply + amount) as u64, ..mint }),
                        holders: ledger.holders.update(
                            i,
                            TokenAccount { amount: (account.amount + amount) as u64, ..account },
                        ),
                    },
                )
            }
        },
        _ => Err(Refusal::UninitializedAccount),
    }
}

/// The account after `authority` takes `amount` out of it: the owner may take
/// what is there; the approved delegate what is there and within its
/// allowance, which shrinks by the amount and ends when it reaches 0.
pub open spec fn spec_spend(account: TokenAccount, amount: u64, authority: Identity) -> Result<
    TokenAccount,
    Refusal,
> {
    if account.amount < amount {
        Err(Refusal::InsufficientFunds)
    } else if account.delegate == Some(authority) {
        if account.delegated_amount < amount {
            Err(Refusal::InsufficientFunds)
        } else {
            Ok(
                TokenAccount {
                    amount: (account.amount - amount) as u64,
                    delegated_amount: (account.delegated_amount - amount) as u64,
                    delegate: if account.delegated_amount == amount {
                        None
                    } else {
                        account.delegate
                    },
                    ..account
                },
            )
        }
    } else if account.owner == authority {
        Ok(TokenAccount { amount: (account.amount - amount) as u64, ..account })
    } else {
        Err(Refusal::OwnerMismatch)
    }
}

/// The ledger after `amount` is burnt from `from` on `authority`'s word.
pub open spec fn spec_burn(
    ledger: TokenLedgerView,
    from: Identity,
    amount: u64,
    authority: Identity,
) -> Result<TokenLedgerView, Refusal> {
    match (ledger.mint, holder_index(ledger.holders, from)) {
        (Some(mint), Some(i)) => match spec_spend(ledger.holders[i], amount, authority) {
            Ok(account) => if mint.supply < amount {
                Err(Refusal::Overflow)
            } else {
                Ok(
                    TokenLedgerView {
                        mint: Some(Mint { supply: (mint.supply - amount) as u64, ..mint }),
                        holders: ledger.holders.update(i, account),
                    },
                )
            },
            Err(refusal) => Err(refusal),
        },
        _ => Err(Refusal::UninitializedAccount),
    }
}

/// The ledger after `amount` moves from `from` to `to` on `authority`'s word.
/// A transfer to oneself is checked like any other and changes nothing.
pub open spec fn spec_transfer(
    ledger: TokenLedgerView,
    from: Identity,
    to: Identity,
    amount: u64,
    authority: Identity,
) -> Result<TokenLedgerView, Refusal> {
    match (holder_index(ledger.holders, from), holder_index(ledger.holders, to)) {
        (Some(i), Some(j)) => match spec_spend(ledger.holders[i], amount, authority) {
            Ok(account) => if i == j {
                Ok(ledger)
            } else if ledger.holders[j].amount + amount > u64::MAX {
                Err(Refusal::Overflow)
            } else {
                Ok(
                    TokenLedgerView {
                        holders: ledger.holders.update(i, account).update(
                            j,
                            TokenAccount {
                                amount: (ledger.holders[j].amount + amount) as u64,
                                ..ledger.holders[j]
                            },
                        ),
                        ..ledger
                    },
                )
            },
            Err(refusal) => Err(refusal),
        },
        _ => Err(Refusal::UninitializedAccount),
    }
}

/// The ledger after the owner of `account` lets `delegate` move up to `amount`
/// out of it.
pub open spec fn spec_approve(
    ledger: TokenLedgerView,
    account: Identity,
    delegate: Identity,
    amount: u64,
    authority: Identity,
) -> Result<TokenLedgerView, Refusal> {
    match holder_index(ledger.holders, account) {
        Some(i) => if ledger.holders[i].owner != authority {
            Err(Refusal::OwnerMismatch)
        } else {
            Ok(
                TokenLedgerView {
                    holders: ledger.holders.update(
                        i,
                        TokenAccount {
                            delegate: Some(delegate),
                            delegated_amount: amount,
                            ..ledger.holders[i]
                        },
                    ),
                    ..ledger
                },
            )
        },
        None => Err(Refusal::UninitializedAccount),
    }
}

/// The first place at which `owner` stands is its place.
pub proof fn lemma_holder_index(holders: Seq<TokenAccount>, owner: Identity, i: int)
    requires
        holder_at(holders, owner, i),
    ensures
        holder_index(holders, owner) == Some(i),
{
    let k = choose|k: int| holder_at(holders, owner, k);
    if k < i {
        assert(holders[k].owner != owner);
    } else if i < k {
        assert(holders[i].owner != owner);
    }
}

/// An owner that stands nowhere has no place; one that has a place stands
/// there first.
pub proof fn lemma_holder_index_is(holders: Seq<TokenAccount>, owner: Identity)
    ensures
        holder_index(holders, owner) matches Some(i) ==> holder_at(holders, owner, i),
        holder_index(holders, owner) is None ==> forall|j: int|
            0 <= j < holders.len() ==> (#[trigger] holders[j]).owner != owner,
{
    if holder_index(holders, owner) is None {
        assert forall|j: int| 0 <= j < holders.len() implies (#[trigger] holders[j]).owner
            != owner by {
            if holders[j].owner == owner {
                lemma_first_holder(holders, owner, j);
            }
        }
    }
}

/// Where `owner` stands at all, it stands somewhere first.
proof fn lemma_first_holder(holders: Seq<TokenAccount>, owner: Identity, j: int)
    requires
        0 <= j < holders.len(),
        holders[j].owner == owner,
    ensures
        exists|i: int| holder_at(holders, owner, i),
    decreases j,
{
    if exists|k: int| 0 <= k < j && holders[k].owner == owner {
        let k = choose|k: int| 0 <= k < j && holders[k].owner == owner;
        lemma_first_holder(holders, owner, k);
    } else {
        assert(holder_at(holders, owner, j));
    }
}

/// Changing an account without changing its owner moves nobody's place.
pub proof fn lemma_update_keeps_places(
    holders: Seq<TokenAccount>,
    i: int,
    account: TokenAccount,
    owner: Identity,
)
    requires
        0 <= i < holders.len(),
        account.owner == holders[i].owner,
    ensures
        holder_index(holders.update(i, account), owner) == holder_index(holders, owner),
{
    let after = holders.update(i, account);
    lemma_holder_index_is(holders, owner);
    match holder_index(holders, owner) {
        Some(k) => {
            assert(holder_at(after, owner, k)) by {
                assert forall|j: int| 0 <= j < k implies after[j].owner != owner by {
                    assert(holders[j].owner != owner);
                }
            }
            lemma_holder_index(after, owner, k);
        },
        None => {
            lemma_holder_index_is(after, owner);
            if holder_index(after, owner) is Some {
                let k = holder_index(after, owner).unwrap();
                assert(holders[k].owner == owner);
            }
        },
    }
}

/// A new account at the end gives its owner a place if it had none, and moves
/// nobody else's.
pub proof fn lemma_push_places(holders: Seq<TokenAccount>, account: TokenAccount, owner: Identity)
    ensures
        holder_index(holders, owner) is Some ==> holder_index(holders.push(account), owner)
            == holder_index(holders, owner),
        holder_index(holders, owner) is None && account.owner == owner ==> holder_index(
            holders.push(account),
            owner,
        ) == Some(holders.len() as int),
        holder_index(holders, owner) is None && account.owner != owner ==> holder_index(
            holders.push(account),
            owner,
        ) is None,
{
    let after = holders.push(account);
    lemma_holder_index_is(holders, owner);
    match holder_index(holders, owner) {
        Some(k) => {
            assert(holder_at(after, owner, k)) by {
                assert forall|j: int| 0 <= j < k implies after[j].owner != owner by {
                    assert(holders[j].owner != owner);
                }
            }
            lemma_holder_index(after, owner, k);
        },
        None => {
            if account.owner == owner {
                assert(holder_at(after, owner, holders.len() as int)) by {
                    assert forall|j: int| 0 <= j < holders.len() implies after[j].owner
                        != owner by {
                        assert(holders[j].owner != owner);
                    }
                }
                lemma_holder_index(after, owner, holders.len() as int);
            } else {
                lemma_holder_index_is(after, owner);
                if holder_index(after, owner) is Some {
                    let k = holder_index(after, owner).unwrap();
                    if k < holders.len() {
                        assert(holders[k].owner == owner);
                    }
                }
            }
        },
    }
}

/// Changing one account changes the sum by the change of its balance.
pub proof fn lemma_total_update(holders: Seq<TokenAccount>, i: int, account: TokenAccount)
    requires
        0 <= i < holders.len(),
    ensures
        total(holders.update(i, account)) == total(holders) - holders[i].amount + account.amount,
    decreases holders.len(),
{
    let after = holders.update(i, account);
    if i == holders.len() - 1 {
        assert(after.drop_last() =~= holders.drop_last());
    } else {
        assert(after.drop_last() =~= holders.drop_last().update(i, account));
        lemma_total_update(holders.drop_last(), i, account);
    }
}

/// A new account adds its balance to the sum.
pub proof fn lemma_total_push(holders: Seq<TokenAccount>, account: TokenAccount)
    ensures
        total(holders.push(account)) == total(holders) + account.amount,
{
    assert(holders.push(account).drop_last() =~= holders);
}

/// A call that returns `result` took the ledger from `before` to `after` as
/// `model` says: on success to the state it gives, on a refusal nowhere.
pub open spec fn applied<S>(
    result: Result<(), Refusal>,
    before: S,
    after: S,
    model: Result<S, Refusal>,
) -> bool {
    match result {
        Ok(()) => model == Ok::<S, Refusal>(after),
        Err(refusal) => model == Err::<S, Refusal>(refusal) && after == before,
    }
}

/// Takes `amount` out of `account` on `authority`'s word.
pub fn spend(account: TokenAccount, amount: u64, authority: &Identity) -> (r: Result<
    TokenAccount,
    Refusal,
>)
    ensures
        r == spec_spend(account, amount, *authority),
{
    if account.amount < amount {
        Err(Refusal::InsufficientFunds)
    } else if account.delegate == Some(*authority) {
        if account.delegated_amount < amount {
            Err(Refusal::InsufficientFunds)
        } else {
            let delegate = if account.delegated_amount == amount {
                None
            } else {
                account.delegate
            };
            Ok(
                TokenAccount {
                    owner: account.owner,
                    amount: account.amount - amount,
                    delegate,
                    delegated_amount: account.delegated_amount - amount,
                },
            )
        }
    } else if account.owner == *authority {
        Ok(
            TokenAccount {
                owner: account.owner,
                amount: account.amount - amount,
                delegate: account.delegate,
                delegated_amount: account.delegated_amount,
            },
        )
    } else {
        Err(Refusal::OwnerMismatch)
    }
}

impl TokenLedger {
    /// A ledger without a mint and without accounts.
    pub fn new() -> (r: TokenLedger)
        ensures
            r@ == (TokenLedgerView { mint: None, holders: Seq::empty() }),
    {
        TokenLedger { mint: None, holders: Vec::new() }
    }

    /// The place of `owner`'s account.
    pub fn find(&self, owner: &Identity) -> (r: Option<usize>)
        ensures
            match r {
                Some(i) => holder_index(self@.holders, *owner) == Some(i as int),
                None => holder_index(self@.holders, *owner) is None,
            },
    {
        let mut i: usize = 0;
        while i < self.holders.len()
            invariant
                i <= self.holders.len(),
                forall|j: int| 0 <= j < i ==> self.holders@[j].owner != *owner,
            decreases self.holders.len() - i,
        {
            if self.holders[i].owner == *owner {
                proof {
                    lemma_holder_index(self@.holders, *owner, i as int);
                }
                return Some(i);
            }
            i += 1;
        }
        proof {
            lemma_holder_index_is(self@.holders, *owner);
            if holder_index(self@.holders, *owner) is Some {
                let k = holder_index(self@.holders, *owner).unwrap();
                assert(self.holders@[k].owner != *owner);
            }
        }
        None
    }

    /// `owner`'s balance.
    pub fn balance(&self, owner: &Identity) -> (r: u64)
        ensures
            r == balance_of(self@.holders, *owner),
    {
        match self.find(owner) {
            Some(i) => self.holders[i].amount,
            None => 0,
        }
    }

    /// How much of the token exists: 0 before the mint is created.
    pub fn supply(&self) -> (r: u64)
        ensures
            r == spec_supply(self@),
    {
        match self.mint {
            Some(mint) => mint.supply,
            None => 0,
        }
    }

    /// A copy of the ledger.
    pub fn duplicate(&self) -> (r: TokenLedger)
        ensures
            r@ == self@,
    {
        let mut holders: Vec<TokenAccount> = Vec::new();
        let mut i: usize = 0;
        while i < self.holders.len()
            invariant
                i <= self.holders.len(),
                holders@ == self.holders@.take(i as int),
            decreases self.holders.len() - i,
        {
            holders.push(self.holders[i]);
            assert(self.holders@.take(i + 1) =~= self.holders@.take(i as int).push(
                self.holders@[i as int],
            ));
            i += 1;
        }
        assert(self.holders@.take(i as int) =~= self.holders@);
        TokenLedger { mint: self.mint, holders }
    }

    /// Creates the mint, with nothing minted yet.
    pub fn create_mint(&mut self, key: Identity, authority: Identity, decimals: u8) -> (r: Result<
        (),
        Refusal,
    >)
        ensures
            applied(r, old(self)@, final(self)@, spec_create_mint(old(self)@, key, authority, decimals)),
    {
        match self.mint {
            Some(_) => Err(Refusal::AlreadyInUse),
            None => {
                self.mint = Some(
                    Mint { key, authority, freeze_authority: authority, decimals, supply: 0 },
                );
                Ok(())
            },
        }
    }

    /// Opens an account for `owner` unless it has one.
    pub fn open(&mut self, owner: Identity) -> (r: Result<(), Refusal>)
        ensures
            applied(r, old(self)@, final(self)@, spec_open(old(self)@, owner)),
    {
        if self.mint.is_none() {
            return Err(Refusal::UninitializedAccount);
        }
        if self.find(&owner).is_none() {
            self.holders.push(
                TokenAccount { owner, amount: 0, delegate: None, delegated_amount: 0 },
            );
        }
        assert(final(self)@ =~= spec_open(old(self)@, owner)->Ok_0);
        Ok(())
    }

    /// Mints `amount` to `to`'s account on the word of `authority`.
    pub fn mint_to(&mut self, to: &Identity, amount: u64, authority: &Identity) -> (r: Result<
        (),
        Refusal,
    >)
        ensures
            applied(r, old(self)@, final(self)@, spec_mint_to(old(self)@, *to, amount, *authority)),
    {
        let mint = match self.mint {
            Some(mint) => mint,
            None => { return Err(Refusal::UninitializedAccount); },
        };
        let i = match self.find(to) {
            Some(i) => i,
            None => { return Err(Refusal::UninitializedAccount); },
        };
        let account = self.holders[i];
        if mint.authority != *authority {
            return Err(Refusal::OwnerMismatch);
        }
        let (balance, supply) = match (
            account.amount.checked_add(amount),
            mint.supply.checked_add(amount),
        ) {
            (Some(balance), Some(supply)) => (balance, supply),
            _ => { return Err(Refusal::Overflow); },
        };
        self.mint = Some(
            Mint {
                key: mint.key,
                authority: mint.authority,
                freeze_authority: mint.freeze_authority,
                decimals: mint.decimals,
                supply,
            },
        );
        self.holders.set(
            i,
            TokenAccount {
                owner: account.owner,
                amount: balance,
                delegate: account.delegate,
                delegated_amount: account.delegated_amount,
            },
        );
        assert(final(self)@ =~= spec_mint_to(old(self)@, *to, amount, *authority)->Ok_0);
        Ok(())
    }

    /// Burns `amount` from `from`'s account on the word of `authority`.
    pub fn burn(&mut self, from: &Identity, amount: u64, authority: &Identity) -> (r: Result<
        (),
        Refusal,
    >)
        ensures
            applied(r, old(self)@, final(self)@, spec_burn(old(self)@, *from, amount, *authority)),
    {
        let mint = match self.mint {
            Some(mint) => mint,
            None => { return Err(Refusal::UninitializedAccount); },
        };
        let i = match self.find(from) {
            Some(i) => i,
            None => { return Err(Refusal::UninitializedAccount); },
        };
        let account = match spend(self.holders[i], amount, authority) {
            Ok(account) => account,
            Err(refusal) => { return Err(refusal); },
        };
        if mint.supply < amount {
            return Err(Refusal::Overflow);
        }
        self.mint = Some(
            Mint {
                key: mint.key,
                authority: mint.authority,
                freeze_authority: mint.freeze_authority,
                decimals: mint.decimals,
                supply: mint.supply - amount,
            },
        );
        self.holders.set(i, account);
        assert(final(self)@ =~= spec_burn(old(self)@, *from, amount, *authority)->Ok_0);
        Ok(())
    }

    /// Moves `amount` from `from`'s account to `to`'s on the word of
    /// `authority`.
    pub fn transfer(
        &mut self,
        from: &Identity,
        to: &Identity,
        amount: u64,
        authority: &Identity,
    ) -> (r: Result<(), Refusal>)
        ensures
            applied(
                r,
                old(self)@,
                final(self)@,
                spec_transfer(old(self)@, *from, *to, amount, *authority),
            ),
    {
        let (i, j) = match (self.find(from), self.find(to)) {
            (Some(i), Some(j)) => (i, j),
            _ => { return Err(Refusal::UninitializedAccount); },
        };
        let account = match spend(self.holders[i], amount, authority) {
            Ok(account) => account,
            Err(refusal) => { return Err(refusal); },
        };
        if i == j {
            return Ok(());
        }
        let receiver = self.holders[j];
        let balance = match receiver.amount.checked_add(amount) {
            Some(balance) => balance,
            None => { return Err(Refusal::Overflow); },
        };
        self.holders.set(i, account);
        self.holders.set(
            j,
            TokenAccount {
                owner: receiver.owner,
                amount: balance,
                delegate: receiver.delegate,
                delegated_amount: receiver.delegated_amount,
            },
        );
        assert(final(self)@ =~= spec_transfer(old(self)@, *from, *to, amount, *authority)->Ok_0);
        Ok(())
    }

    /// Lets `delegate` move up to `amount` out of `account`'s account, on the
    /// word of `authority`, which must be its owner.
    pub fn approve(
        &mut self,
        account: &Identity,
        delegate: Identity,
        amount: u64,
        authority: &Identity,
    ) -> (r: Result<(), Refusal>)
        ensures
            applied(
                r,
                old(self)@,
                final(self)@,
                spec_approve(old(self)@, *account, delegate, amount, *authority),
            ),
    {
        let i = match self.find(account) {
            Some(i) => i,
            None => { return Err(Refusal::UninitializedAccount); },
        };
        let held = self.holders[i];
        if held.owner != *authority {
            return Err(Refusal::OwnerMismatch);
        }
        self.holders.set(
            i,
            TokenAccount {
                owner: held.owner,
                amount: held.amount,
                delegate: Some(delegate),
                delegated_amount: amount,
            },
        );
        assert(final(self)@ =~= spec_approve(old(self)@, *account, delegate, amount, *authority)->Ok_0);
        Ok(())
    }
}

/// How much of the token exists.
pub open spec fn spec_supply(ledger: TokenLedgerView) -> nat {
    match ledger.mint {
        Some(mint) => mint.supply as nat,
        None => 0,
    }
}

/// The ledger with its mint created: refused where it has one.
pub open spec fn spec_create_mint(
    ledger: TokenLedgerView,
    key: Identity,
    authority: Identity,
    decimals: u8,
) -> Result<TokenLedgerView, Refusal> {
    match ledger.mint {
        Some(_) => Err(Refusal::AlreadyInUse),
        None => Ok(
            TokenLedgerView {
                mint: Some(
                    Mint { key, authority, freeze_authority: authority, decimals, supply: 0 },
                ),
                ..ledger
            },
        ),
    }
}

/// After one account changes and keeps its owner, that owner's balance is the
/// account's and every other balance is what it was.
pub proof fn lemma_balance_after_update(
    holders: Seq<TokenAccount>,
    owner: Identity,
    account: TokenAccount,
    who: Identity,
)
    requires
        holder_index(holders, owner) is Some,
        account.owner == owner,
    ensures
        balance_of(holders.update(holder_index(holders, owner).unwrap(), account), who) == if who
            == owner {
            account.amount as nat
        } else {
            balance_of(holders, who)
        },
{
    let i = holder_index(holders, owner).unwrap();
    lemma_holder_index_is(holders, owner);
    lemma_holder_index_is(holders, who);
    lemma_update_keeps_places(holders, i, account, who);
}

/// Opening an account changes no balance, nor their sum, nor the mint.
pub proof fn lemma_open_effect(ledger: TokenLedgerView, owner: Identity, who: Identity)
    requires
        spec_open(ledger, owner) is Ok,
    ensures
        ({
            let after = spec_open(ledger, owner)->Ok_0;
            &&& after.mint == ledger.mint
            &&& total(after.holders) == total(ledger.holders)
            &&& balance_of(after.holders, who) == balance_of(ledger.holders, who)
            &&& holder_index(after.holders, owner) is Some
        }),
{
    if holder_index(ledger.holders, owner) is None {
        lemma_total_push(ledger.holders, empty_account(owner));
        lemma_push_places(ledger.holders, empty_account(owner), who);
        lemma_push_places(ledger.holders, empty_account(owner), owner);
    }
}

/// Minting adds the amount to the receiver's balance, to the sum and to the
/// supply, and to nothing else.
pub proof fn lemma_mint_effect(
    ledger: TokenLedgerView,
    to: Identity,
    amount: u64,
    authority: Identity,
    who: Identity,
)
    requires
        spec_mint_to(ledger, to, amount, authority) is Ok,
    ensures
        ({
            let after = spec_mint_to(ledger, to, amount, authority)->Ok_0;
            &&& spec_supply(after) == spec_supply(ledger) + amount
            &&& total(after.holders) == total(ledger.holders) + amount
            &&& balance_of(after.holders, who) == balance_of(ledger.holders, who) + if who == to {
                amount as int
            } else {
                0
            }
            &&& after.mint matches Some(mint) && mint.authority == authority
            &&& ledger.mint matches Some(mint) && mint.authority == authority
        }),
{
    let i = holder_index(ledger.holders, to).unwrap();
    let account = ledger.holders[i];
    let credited = TokenAccount { amount: (account.amount + amount) as u64, ..account };
    lemma_holder_index_is(ledger.holders, to);
    lemma_total_update(ledger.holders, i, credited);
    lemma_balance_after_update(ledger.holders, to, credited, who);
}

/// What is taken out of an account leaves its owner in place and its balance
/// lower by the amount.
pub proof fn lemma_spend_effect(account: TokenAccount, amount: u64, authority: Identity)
    requires
        spec_spend(account, amount, authority) is Ok,
    ensures
        spec_spend(account, amount, authority)->Ok_0.owner == account.owner,
        spec_spend(account, amount, authority)->Ok_0.amount == account.amount - amount,
        authority == account.owner || account.delegate == Some(authority),
{
}

/// Burning takes the amount off the holder's balance, off the sum and off the
/// supply, and off nothing else.
pub proof fn lemma_burn_effect(
    ledger: TokenLedgerView,
    from: Identity,
    amount: u64,
    authority: Identity,
    who: Identity,
)
    requires
        spec_burn(ledger, from, amount, authority) is Ok,
    ensures
        ({
            let after = spec_burn(ledger, from, amount, authority)->Ok_0;
            &&& spec_supply(after) == spec_supply(ledger) - amount
            &&& total(after.holders) == total(ledger.holders) - amount
            &&& balance_of(after.holders, who) == balance_of(ledger.holders, who) - if who == from {
                amount as int
            } else {
                0
            }
            &&& after.mint matches Some(mint) && ledger.mint matches Some(before)
                && mint.authority == before.authority
        }),
{
    let i = holder_index(ledger.holders, from).unwrap();
    let account = spec_spend(ledger.holders[i], amount, authority)->Ok_0;
    lemma_holder_index_is(ledger.holders, from);
    lemma_spend_effect(ledger.holders[i], amount, authority);
    lemma_total_update(ledger.holders, i, account);
    lemma_balance_after_update(ledger.holders, from, account, who);
}

/// A transfer takes the amount off the sender's balance and adds it to the
/// receiver's; the sum, the supply and every other balance stay.
pub proof fn lemma_transfer_effect(
    ledger: TokenLedgerView,
    from: Identity,
    to: Identity,
    amount: u64,
    authority: Identity,
    who: Identity,
)
    requires
        spec_transfer(ledger, from, to, amount, authority) is Ok,
    ensures
        ({
            let after = spec_transfer(ledger, from, to, amount, authority)->Ok_0;
            &&& after.mint == ledger.mint
            &&& total(after.holders) == total(ledger.holders)
            &&& balance_of(after.holders, who) == balance_of(ledger.holders, who) - (if who == from
                && from != to {
                amount as int
            } else {
                0
            }) + (if who == to && from != to {
                amount as int
            } else {
                0
            })
            &&& balance_of(ledger.holders, from) >= amount
        }),
{
    let i = holder_index(ledger.holders, from).unwrap();
    let j = holder_index(ledger.holders, to).unwrap();
    lemma_holder_index_is(ledger.holders, from);
    lemma_holder_index_is(ledger.holders, to);
    let debited = spec_spend(ledger.holders[i], amount, authority)->Ok_0;
    lemma_spend_effect(ledger.holders[i], amount, authority);
    if i != j {
        let credited = TokenAccount {
            amount: (ledger.holders[j].amount + amount) as u64,
            ..ledger.holders[j]
        };
        let middle = ledger.holders.update(i, debited);
        lemma_total_update(ledger.holders, i, debited);
        lemma_total_update(middle, j, credited);
        lemma_balance_after_update(ledger.holders, from, debited, who);
        lemma_update_keeps_places(ledger.holders, i, debited, to);
        lemma_balance_after_update(middle, to, credited, who);
        lemma_balance_after_update(ledger.holders, from, debited, to);
    }
}

/// An approval changes no balance, nor their sum, nor the mint.
pub proof fn lemma_approve_effect(
    ledger: TokenLedgerView,
    account: Identity,
    delegate: Identity,
    amount: u64,
    authority: Identity,
    who: Identity,
)
    requires
        spec_approve(ledger, account, delegate, amount, authority) is Ok,
    ensures
        ({
            let after = spec_approve(ledger, account, delegate, amount, authority)->Ok_0;
            &&& after.mint == ledger.mint
            &&& total(after.holders) == total(ledger.holders)
            &&& balance_of(after.holders, who) == balance_of(ledger.holders, who)
        }),
{
    let i = holder_index(ledger.holders, account).unwrap();
    let approved = TokenAccount {
        delegate: Some(delegate),
        delegated_amount: amount,
        ..ledger.holders[i]
    };
    lemma_holder_index_is(ledger.holders, account);
    lemma_total_update(ledger.holders, i, approved);
    lemma_balance_after_update(ledger.holders, account, approved, who);
}

} // verus!
