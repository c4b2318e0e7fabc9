//! The vault's record and the rules that read or change it alone.

use crate::errors::{ErrorCode2, Refusal};
use crate::events::{ChangeAuthorityEvent, DepositEvent, WithdrawEvent};
use crate::identity::Identity;
use vstd::prelude::*;

verus! {

/// The least amount that a vault with a minimum takes as a deposit.
pub const MIN_DEPOSIT: u64 = 1_000_000_000;

/// The vault's record: one per deployment.
#[derive(Clone, Copy, Debug, PartialEq, Eq)]
pub struct InitData {
    /// The value that the vault accounts for: what was deposited and not yet
    /// withdrawn.
    pub amount: u64,
    /// The bump seed that proves the vault's own address.
    pub bump: u8,
    /// The bump seed that proves the address of the wrapped token's mint.
    pub wethbump: u8,
    /// The one identity that may perform privileged operations.
    pub authority: Identity,
}

/// The name under which a deployment knows its privileged role. The name is a
/// label: the rule and its error are the same under both.
#[derive(Clone, Copy, Debug, PartialEq, Eq, Structural)]
pub enum Role {
    Owner,
    Authority,
}

/// Decides whether a caller may perform a privileged operation.
#[derive(Clone, Copy, Debug, PartialEq, Eq)]
pub struct AuthorizationPolicy {
    pub role: Role,
}

/// The descriptive record registered for the wrapped token. It names no
/// creators, no collection and no uses.
#[derive(Clone, Copy, Debug, PartialEq, Eq)]
pub struct TokenMetadata {
    pub name: &'static str,
    pub symbol: &'static str,
    pub uri: &'static str,
    /// The fee on sales, in hundredths of a percent.
    pub seller_fee_basis_points: u16,
    /// Whether the record may be changed later.
    pub is_mutable: bool,
}

/// What distinguishes one deployment of the vault from another.
#[derive(Clone, Copy, Debug)]
pub struct Config {
    /// The seed of the vault's own address.
    pub storage_seed: &'static str,
    /// The seed of the mint's address.
    pub mint_seed: &'static str,
    /// The least deposit taken; 0 where there is no minimum.
    pub min_deposit: u64,
    /// The base58 text of the one identity that may initialize, where
    /// initialization is restricted.
    pub deployer: Option<&'static str>,
    /// The record to register for the wrapped token, where one is registered.
    pub metadata: Option<TokenMetadata>,
}

impl InitData {
    /// The record of a fresh vault: nothing deposited yet.
    pub fn new(authority: Identity, bump: u8, wethbump: u8) -> (r: InitData)
        ensures
            r == (InitData { amount: 0, bump, wethbump, authority }),
    {
        InitData { amount: 0, bump, wethbump, authority }
    }

    /// Hands the authority over to `new_authority`, if `signer` holds it.
    pub fn change_authority(&mut self, signer: &Identity, new_authority: Identity) -> (r: Result<
        ChangeAuthorityEvent,
        ErrorCode2,
    >)
        ensures
            old(self).authority == *signer ==> {
                &&& r == Ok::<ChangeAuthorityEvent, ErrorCode2>(
                    ChangeAuthorityEvent { old: old(self).authority, new: new_authority },
                )
                &&& *final(self) == (InitData { authority: new_authority, ..*old(self) })
            },
            old(self).authority != *signer ==> {
                &&& r == Err::<ChangeAuthorityEvent, ErrorCode2>(ErrorCode2::OnlyAuthority)
                &&& *final(self) == *old(self)
            },
    {
        let old_authority = self.authority;
        if old_authority == *signer {
            self.authority = new_authority;
            Ok(ChangeAuthorityEvent { old: old_authority, new: new_authority })
        } else {
            Err(ErrorCode2::OnlyAuthority)
        }
    }

    /// Whether a deposit of `amount` meets the minimum `min_deposit`.
    pub fn check_deposit(min_deposit: u64, amount: u64) -> (r: Result<(), ErrorCode2>)
        ensures
            r == spec_check_deposit(min_deposit, amount),
    {
        if min_deposit <= amount {
            Ok(())
        } else {
            Err(ErrorCode2::InvalidAmount)
        }
    }

    /// Whether the vault accounts for at least `amount`.
    pub fn check_withdraw(&self, amount: u64) -> (r: Result<(), ErrorCode2>)
        ensures
            r == spec_check_withdraw(*self, amount),
    {
        if amount <= self.amount {
            Ok(())
        } else {
            Err(ErrorCode2::WithdrawFailed)
        }
    }

    /// Accounts for a deposit of `amount` that went through.
    pub fn credit(&mut self, depositor: Identity, vault: Identity, amount: u64) -> (r: Result<
        DepositEvent,
        Refusal,
    >)
        ensures
            r == spec_credit(*old(self), depositor, vault, amount).1,
            *final(self) == spec_credit(*old(self), depositor, vault, amount).0,
    {
        match self.amount.checked_add(amount) {
            Some(sum) => {
                self.amount = sum;
                Ok(DepositEvent { from: depositor, to: vault, amount })
            },
            None => Err(Refusal::Overflow),
        }
    }

    /// Accounts for a withdrawal of `amount` that went through.
    pub fn debit(&mut self, vault: Identity, receiver: Identity, amount: u64) -> (r: Result<
        WithdrawEvent,
        Refusal,
    >)
        ensures
            r == spec_debit(*old(self), vault, receiver, amount).1,
            *final(self) == spec_debit(*old(self), vault, receiver, amount).0,
    {
        match self.amount.checked_sub(amount) {
            Some(rest) => {
                self.amount = rest;
                Ok(WithdrawEvent { from: vault, to: receiver, amount })
            },
            None => Err(Refusal::Overflow),
        }
    }
}

/// A deposit is taken if and only if it is at least the minimum.
pub open spec fn spec_check_deposit(min_deposit: u64, amount: u64) -> Result<(), ErrorCode2> {
    if min_deposit <= amount {
        Ok(())
    } else {
        Err(ErrorCode2::InvalidAmount)
    }
}

/// A withdrawal is taken if and only if the vault accounts for that much.
pub open spec fn spec_check_withdraw(data: InitData, amount: u64) -> Result<(), ErrorCode2> {
    if amount <= data.amount {
        Ok(())
    } else {
        Err(ErrorCode2::WithdrawFailed)
    }
}

/// The record after a deposit of `amount`, and the event; the record as it was
/// and a refusal where the sum does not fit.
pub open spec fn spec_credit(data: InitData, depositor: Identity, vault: Identity, amount: u64) -> (
    InitData,
    Result<DepositEvent, Refusal>,
) {
    if data.amount + amount <= u64::MAX {
        (
            InitData { amount: (data.amount + amount) as u64, ..data },
            Ok(DepositEvent { from: depositor, to: vault, amount }),
        )
    } else {
        (data, Err(Refusal::Overflow))
    }
}

/// The record after a withdrawal of `amount`, and the event; the record as it
/// was and a refusal where the vault accounts for less.
pub open spec fn spec_debit(data: InitData, vault: Identity, receiver: Identity, amount: u64) -> (
    InitData,
    Result<WithdrawEvent, Refusal>,
) {
    if amount <= data.amount {
        (
            InitData { amount: (data.amount - amount) as u64, ..data },
            Ok(WithdrawEvent { from: vault, to: receiver, amount }),
        )
    } else {
        (data, Err(Refusal::Overflow))
    }
}

impl AuthorizationPolicy {
    /// Lets `caller` through if and only if it is the identity that the record
    /// names. Whatever the deployment calls the role, the error is
    /// `OnlyAuthority`.
    pub fn check(&self, caller: &Identity, data: &InitData) -> (r: Result<(), ErrorCode2>)
        ensures
            r == spec_authorize(*self, *caller, *data),
    {
        if data.authority == *caller {
            Ok(())
        } else {
            Err(ErrorCode2::OnlyAuthority)
        }
    }
}

/// The caller passes if and only if the record names it; under either name of
/// the role, any other caller fails with `OnlyAuthority`.
pub open spec fn spec_authorize(policy: AuthorizationPolicy, caller: Identity, data: InitData) -> Result<
    (),
    ErrorCode2,
> {
    if data.authority == caller {
        Ok(())
    } else {
        Err(ErrorCode2::OnlyAuthority)
    }
}

impl Config {
    /// The deployment whose privileged role is the owner.
    pub fn weth() -> (r: Config)
        ensures
            r == Config::spec_weth(),
    {
        Config {
            storage_seed: "bank_pda",
            mint_seed: "weth_mint",
            min_deposit: MIN_DEPOSIT,
            deployer: Some("3hDmGyaiLbav54TkKyrBUmM5WvNQrvdkrB6bwaThCkeu"),
            metadata: None,
        }
    }

    /// The configuration that `weth` returns.
    pub open spec fn spec_weth() -> Config {
        Config {
            storage_seed: "bank_pda",
            mint_seed: "weth_mint",
            min_deposit: MIN_DEPOSIT,
            deployer: Some("3hDmGyaiLbav54TkKyrBUmM5WvNQrvdkrB6bwaThCkeu"),
            metadata: None,
        }
    }

    /// The deployment whose privileged role is the authority, and which
    /// registers a descriptive record for its token.
    pub fn wsol() -> (r: Config)
        ensures
            r == Config::spec_wsol(),
    {
        Config {
            storage_seed: "storage_pda",
            mint_seed: "wsol_mint",
            min_deposit: MIN_DEPOSIT,
            deployer: Some("3hDmGyaiLbav54TkKyrBUmM5WvNQrvdkrB6bwaThCkeu"),
            metadata: Some(
                TokenMetadata {
                    name: "Wrapped Ether",
                    symbol: "WETH",
                    uri: "https://weth.io",
                    seller_fee_basis_points: 0,
                    is_mutable: true,
                },
            ),
        }
    }

    /// The configuration that `wsol` returns.
    pub open spec fn spec_wsol() -> Config {
        Config {
            storage_seed: "storage_pda",
            mint_seed: "wsol_mint",
            min_deposit: MIN_DEPOSIT,
            deployer: Some("3hDmGyaiLbav54TkKyrBUmM5WvNQrvdkrB6bwaThCkeu"),
            metadata: Some(
                TokenMetadata {
                    name: "Wrapped Ether",
                    symbol: "WETH",
                    uri: "https://weth.io",
                    seller_fee_basis_points: 0,
                    is_mutable: true,
                },
            ),
        }
    }

    /// Whether `caller` may initialize under this configuration.
    pub fn admits_deployer(&self, caller: &Identity) -> (r: bool)
        ensures
            r == spec_admits_deployer(*self, *caller),
    {
        match self.deployer {
            None => true,
            Some(text) => match Identity::from_base58(text) {
                Some(allowed) => {
                    proof {
                        crate::identity::lemma_identity_of_bytes(allowed);
                        crate::identity::lemma_identity_of_bytes(*caller);
                    }
                    allowed == *caller
                },
                None => false,
            },
        }
    }
}

/// Anyone may initialize where no deployer is named; else only the identity
/// that the named text stands for.
pub open spec fn spec_admits_deployer(config: Config, caller: Identity) -> bool {
    match config.deployer {
        None => true,
        Some(text) => crate::identity::spec_base58_key(text@) == Some(caller@),
    }
}

} // verus!
