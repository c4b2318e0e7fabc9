//! The vault together with the ledgers it works on: one state that every
//! instruction takes from one consistent value to the next.

use crate::call::{spec_resolve, Authority, Call, Token};
use crate::errors::Refusal;
use crate::events::Event;
use crate::identity::Identity;
use crate::native::{
    duplicate_wallets, give, lamports, lamports_of, spec_give, spec_take, take, Wallet,
};
use crate::state::{Config, InitData, TokenMetadata};
use crate::token::{
    applied, balance_of, spec_approve, spec_burn, spec_create_mint, spec_mint_to, spec_open,
    spec_transfer, TokenLedger, TokenLedgerView,
};
use vstd::prelude::*;

verus! {

/// The vault's account: its address, the native value it holds, and its
/// record.
#[derive(Clone, Copy, Debug, PartialEq, Eq)]
pub struct VaultAccount {
    pub key: Identity,
    pub lamports: u64,
    pub data: InitData,
}

/// A deployment of the vault with everything it touches.
#[derive(Debug)]
pub struct Bank {
    pub config: Config,
    /// The identity of the program that the vault belongs to.
    pub program: Identity,
    /// The vault's account, once it is initialized.
    pub storage: Option<VaultAccount>,
    /// The ledger of the wrapped token.
    pub wrapped: TokenLedger,
    /// The ledger of the faucet's token.
    pub faucet: TokenLedger,
    /// The native balances outside the vault.
    pub wallets: Vec<Wallet>,
    /// The descriptive record registered for the wrapped token.
    pub metadata: Option<TokenMetadata>,
    /// The audit log, oldest event first.
    pub log: Vec<Event>,
}

/// A bank as a value of mathematics.
#[verifier::ext_equal]
pub struct BankView {
    pub config: Config,
    pub program: Identity,
    pub storage: Option<VaultAccount>,
    pub wrapped: TokenLedgerView,
    pub faucet: TokenLedgerView,
    pub wallets: Seq<Wallet>,
    pub metadata: Option<TokenMetadata>,
    pub log: Seq<Event>,
}

impl View for Bank {
    type V = BankView;

    open spec fn view(&self) -> BankView {
        BankView {
            config: self.config,
            program: self.program,
            storage: self.storage,
            wrapped: self.wrapped@,
            faucet: self.faucet@,
            wallets: self.wallets@,
            metadata: self.metadata,
            log: self.log@,
        }
    }
}

/// The ledger of `token`.
pub open spec fn ledger_of(bank: BankView, token: Token) -> TokenLedgerView {
    match token {
        Token::Wrapped => bank.wrapped,
        Token::Faucet => bank.faucet,
    }
}

/// The bank with `ledger` as the ledger of `token`.
pub open spec fn with_ledger(bank: BankView, token: Token, ledger: TokenLedgerView) -> BankView {
    match token {
        Token::Wrapped => BankView { wrapped: ledger, ..bank },
        Token::Faucet => BankView { faucet: ledger, ..bank },
    }
}

/// The bank after a call on the ledger of `token` that the ledger answers
/// with `outcome`.
pub open spec fn on_ledger(bank: BankView, token: Token, outcome: Result<TokenLedgerView, Refusal>) -> Result<
    BankView,
    Refusal,
> {
    match outcome {
        Ok(ledger) => Ok(with_ledger(bank, token, ledger)),
        Err(refusal) => Err(refusal),
    }
}

/// The bank after native value moves from `from`'s wallet into the vault.
pub open spec fn spec_system_transfer(bank: BankView, from: Identity, amount: u64) -> Result<
    BankView,
    Refusal,
> {
    match bank.storage {
        Some(vault) => match spec_take(bank.wallets, from, amount) {
            Ok(wallets) => if vault.lamports + amount > u64::MAX {
                Err(Refusal::Overflow)
            } else {
                Ok(
                    BankView {
                        storage: Some(
                            VaultAccount { lamports: (vault.lamports + amount) as u64, ..vault },
                        ),
                        wallets,
                        ..bank
                    },
                )
            },
            Err(refusal) => Err(refusal),
        },
        None => Err(Refusal::UninitializedAccount),
    }
}

/// The bank after native value moves out of the vault into `to`'s wallet.
pub open spec fn spec_payout(bank: BankView, to: Identity, amount: u64) -> Result<
    BankView,
    Refusal,
> {
    match bank.storage {
        Some(vault) => if vault.lamports < amount {
            Err(Refusal::InsufficientFunds)
        } else {
            match spec_give(bank.wallets, to, amount) {
                Ok(wallets) => Ok(
                    BankView {
                        storage: Some(
                            VaultAccount { lamports: (vault.lamports - amount) as u64, ..vault },
                        ),
                        wallets,
                        ..bank
                    },
                ),
                Err(refusal) => Err(refusal),
            }
        },
        None => Err(Refusal::UninitializedAccount),
    }
}

/// The bank after the record `metadata` is registered on the word of
/// `authority`, which must be the wrapped mint's: once only.
pub open spec fn spec_register(bank: BankView, metadata: TokenMetadata, authority: Identity) -> Result<
    BankView,
    Refusal,
> {
    match bank.wrapped.mint {
        Some(mint) => if mint.authority != authority {
            Err(Refusal::OwnerMismatch)
        } else if bank.metadata is Some {
            Err(Refusal::AlreadyInUse)
        } else {
            Ok(BankView { metadata: Some(metadata), ..bank })
        },
        None => Err(Refusal::UninitializedAccount),
    }
}

/// The bank after `call`, made once its authority is known to be `authority`.
pub open spec fn spec_perform_as(bank: BankView, call: Call, authority: Identity) -> Result<
    BankView,
    Refusal,
> {
    match call {
        Call::MintTo { token, to, amount, .. } => on_ledger(
            bank,
            token,
            spec_mint_to(ledger_of(bank, token), to, amount, authority),
        ),
        Call::Burn { from, amount, .. } => on_ledger(
            bank,
            Token::Wrapped,
            spec_burn(bank.wrapped, from, amount, authority),
        ),
        Call::Transfer { from, to, amount, .. } => on_ledger(
            bank,
            Token::Wrapped,
            spec_transfer(bank.wrapped, from, to, amount, authority),
        ),
        Call::Approve { account, delegate, amount, .. } => on_ledger(
            bank,
            Token::Wrapped,
            spec_approve(bank.wrapped, account, delegate, amount, authority),
        ),
        Call::RegisterMetadata { metadata, .. } => spec_register(bank, metadata, authority),
        _ => Ok(bank),
    }
}

/// The authority that `call` presents, if it presents one.
pub open spec fn authority_of(call: Call) -> Option<Authority> {
    match call {
        Call::MintTo { authority, .. } => Some(authority),
        Call::Burn { authority, .. } => Some(authority),
        Call::Transfer { authority, .. } => Some(authority),
        Call::Approve { authority, .. } => Some(authority),
        Call::RegisterMetadata { authority, .. } => Some(authority),
        _ => None,
    }
}

/// The bank after `call`: each kind of call does what its ledger does; a call
/// whose authority proves no identity is refused.
#[verifier::opaque]
pub open spec fn spec_perform(bank: BankView, call: Call) -> Result<BankView, Refusal> {
    match call {
        Call::CreateVault { key, data } => if bank.storage is Some {
            Err(Refusal::AlreadyInUse)
        } else {
            Ok(BankView { storage: Some(VaultAccount { key, lamports: 0, data }), ..bank })
        },
        Call::CreateMint { token, key, mint_authority, decimals } => on_ledger(
            bank,
            token,
            spec_create_mint(ledger_of(bank, token), key, mint_authority, decimals),
        ),
        Call::OpenAccount { token, owner } => on_ledger(
            bank,
            token,
            spec_open(ledger_of(bank, token), owner),
        ),
        Call::SystemTransfer { from, amount } => spec_system_transfer(bank, from, amount),
        Call::Payout { to, amount } => spec_payout(bank, to, amount),
        _ => match spec_resolve(authority_of(call).unwrap(), bank.program) {
            Some(authority) => spec_perform_as(bank, call, authority),
            None => Err(Refusal::InvalidSeeds),
        },
    }
}

impl Bank {
    /// A deployment of `program` under `config`, before it is initialized:
    /// no vault, no mint, no wallet, nothing logged.
    pub fn new(config: Config, program: Identity) -> (r: Bank)
        ensures
            r@ == spec_new(config, program),
    {
        Bank {
            config,
            program,
            storage: None,
            wrapped: TokenLedger::new(),
            faucet: TokenLedger::new(),
            wallets: Vec::new(),
            metadata: None,
            log: Vec::new(),
        }
    }

    /// A copy of the bank.
    pub fn duplicate(&self) -> (r: Bank)
        ensures
            r@ == self@,
    {
        let mut log: Vec<Event> = Vec::new();
        let mut i: usize = 0;
        while i < self.log.len()
            invariant
                i <= self.log.len(),
                log@ == self.log@.take(i as int),
            decreases self.log.len() - i,
        {
            log.push(self.log[i]);
            assert(self.log@.take(i + 1) =~= self.log@.take(i as int).push(self.log@[i as int]));
            i += 1;
        }
        assert(self.log@.take(i as int) =~= self.log@);
        Bank {
            config: self.config,
            program: self.program,
            storage: self.storage,
            wrapped: self.wrapped.duplicate(),
            faucet: self.faucet.duplicate(),
            wallets: duplicate_wallets(&self.wallets),
            metadata: self.metadata,
            log,
        }
    }

    /// Puts `amount` of native value into `key`'s wallet from outside, as a
    /// platform does when it funds an identity.
    pub fn fund(&mut self, key: &Identity, amount: u64) -> (r: Result<(), Refusal>)
        ensures
            applied(r, old(self)@, final(self)@, spec_fund(old(self)@, *key, amount)),
    {
        give(&mut self.wallets, key, amount)
    }

    /// The value that the vault accounts for: 0 before it is initialized.
    pub fn accounted_amount(&self) -> (r: u64)
        ensures
            r == spec_accounted(self@),
    {
        match self.storage {
            Some(vault) => vault.data.amount,
            None => 0,
        }
    }

    /// The vault's authority, once it is initialized.
    pub fn authority(&self) -> (r: Option<Identity>)
        ensures
            r == spec_authority(self@),
    {
        match self.storage {
            Some(vault) => Some(vault.data.authority),
            None => None,
        }
    }

    /// The native value that the vault holds: 0 before it is initialized.
    pub fn vault_lamports(&self) -> (r: u64)
        ensures
            r == spec_vault_lamports(self@),
    {
        match self.storage {
            Some(vault) => vault.lamports,
            None => 0,
        }
    }

    /// `owner`'s balance of the wrapped token.
    pub fn balance(&self, owner: &Identity) -> (r: u64)
        ensures
            r == balance_of(self@.wrapped.holders, *owner),
    {
        self.wrapped.balance(owner)
    }

    /// The native value in `key`'s wallet.
    pub fn lamports(&self, key: &Identity) -> (r: u64)
        ensures
            r == lamports_of(self@.wallets, *key),
    {
        lamports(&self.wallets, key)
    }

    /// Performs `call` once its authority is known to be `authority`.
    pub fn perform_as(&mut self, call: &Call, authority: &Identity) -> (r: Result<(), Refusal>)
        ensures
            applied(r, old(self)@, final(self)@, spec_perform_as(old(self)@, *call, *authority)),
    {
        match call {
            Call::MintTo { token, to, amount, .. } => match token {
                Token::Wrapped => self.wrapped.mint_to(to, *amount, authority),
                Token::Faucet => self.faucet.mint_to(to, *amount, authority),
            },
            Call::Burn { from, amount, .. } => self.wrapped.burn(from, *amount, authority),
            Call::Transfer { from, to, amount, .. } => self.wrapped.transfer(
                from,
                to,
                *amount,
                authority,
            ),
            Call::Approve { account, delegate, amount, .. } => self.wrapped.approve(
                account,
                *delegate,
                *amount,
                authority,
            ),
            Call::RegisterMetadata { metadata, .. } => match self.wrapped.mint {
                Some(mint) => if mint.authority != *authority {
                    Err(Refusal::OwnerMismatch)
                } else if self.metadata.is_some() {
                    Err(Refusal::AlreadyInUse)
                } else {
                    self.metadata = Some(*metadata);
                    Ok(())
                },
                None => Err(Refusal::UninitializedAccount),
            },
            _ => Ok(()),
        }
    }

    /// Performs `call` on the bank's ledgers: all of it, or on a refusal none
    /// of it.
    pub fn perform(&mut self, call: &Call) -> (r: Result<(), Refusal>)
        ensures
            applied(r, old(self)@, final(self)@, spec_perform(old(self)@, *call)),
    {
        proof {
            reveal(spec_perform);
        }
        match call {
            Call::CreateVault { key, data } => {
                if self.storage.is_some() {
                    return Err(Refusal::AlreadyInUse);
                }
                self.storage = Some(VaultAccount { key: *key, lamports: 0, data: *data });
                Ok(())
            },
            Call::CreateMint { token, key, mint_authority, decimals } => match token {
                Token::Wrapped => self.wrapped.create_mint(*key, *mint_authority, *decimals),
                Token::Faucet => self.faucet.create_mint(*key, *mint_authority, *decimals),
            },
            Call::OpenAccount { token, owner } => match token {
                Token::Wrapped => self.wrapped.open(*owner),
                Token::Faucet => self.faucet.open(*owner),
            },
            Call::SystemTransfer { from, amount } => {
                let vault = match self.storage {
                    Some(vault) => vault,
                    None => { return Err(Refusal::UninitializedAccount); },
                };
                if lamports(&self.wallets, from) < *amount {
                    return Err(Refusal::InsufficientFunds);
                }
                let sum = match vault.lamports.checked_add(*amount) {
                    Some(sum) => sum,
                    None => { return Err(Refusal::Overflow); },
                };
                let taken = take(&mut self.wallets, from, *amount);
                assert(taken is Ok);
                self.storage = Some(VaultAccount { key: vault.key, lamports: sum, data: vault.data });
                Ok(())
            },
            Call::Payout { to, amount } => {
                let vault = match self.storage {
                    Some(vault) => vault,
                    None => { return Err(Refusal::UninitializedAccount); },
                };
                if vault.lamports < *amount {
                    return Err(Refusal::InsufficientFunds);
                }
                match give(&mut self.wallets, to, *amount) {
                    Ok(()) => {
                        self.storage = Some(
                            VaultAccount {
                                key: vault.key,
                                lamports: vault.lamports - *amount,
                                data: vault.data,
                            },
                        );
                        Ok(())
                    },
                    Err(refusal) => Err(refusal),
                }
            },
            Call::MintTo { authority, .. }
            | Call::Burn { authority, .. }
            | Call::Transfer { authority, .. }
            | Call::Approve { authority, .. }
            | Call::RegisterMetadata { authority, .. } => match authority.resolve(&self.program) {
                Some(identity) => self.perform_as(call, &identity),
                None => Err(Refusal::InvalidSeeds),
            },
        }
    }
}

/// The bank before anything happened to it.
pub open spec fn spec_new(config: Config, program: Identity) -> BankView {
    BankView {
        config,
        program,
        storage: None,
        wrapped: TokenLedgerView { mint: None, holders: Seq::empty() },
        faucet: TokenLedgerView { mint: None, holders: Seq::empty() },
        wallets: Seq::empty(),
        metadata: None,
        log: Seq::empty(),
    }
}

/// The bank after `key`'s wallet is funded with `amount`.
pub open spec fn spec_fund(bank: BankView, key: Identity, amount: u64) -> Result<BankView, Refusal> {
    match spec_give(bank.wallets, key, amount) {
        Ok(wallets) => Ok(BankView { wallets, ..bank }),
        Err(refusal) => Err(refusal),
    }
}

/// The value that the vault accounts for.
pub open spec fn spec_accounted(bank: BankView) -> nat {
    match bank.storage {
        Some(vault) => vault.data.amount as nat,
        None => 0,
    }
}

/// The vault's authority.
pub open spec fn spec_authority(bank: BankView) -> Option<Identity> {
    match bank.storage {
        Some(vault) => Some(vault.data.authority),
        None => None,
    }
}

/// The native value that the vault holds.
pub open spec fn spec_vault_lamports(bank: BankView) -> nat {
    match bank.storage {
        Some(vault) => vault.lamports as nat,
        None => 0,
    }
}

} // verus!
