//! What an instruction asks of the ledgers, as plain values.

use crate::errors::{ErrorCode2, Failure, Refusal};
use crate::identity::Identity;
use crate::state::{InitData, TokenMetadata};
use vstd::prelude::*;

verus! {

/// On whose word a call is made.
#[derive(Clone, Copy, Debug, PartialEq, Eq)]
pub enum Authority {
    /// The caller signs for itself.
    Signer(Identity),
    /// The program signs for the address that `seed` and `bump` derive for it.
    Derived { seed: &'static str, bump: u8 },
}

/// The two token types: the wrapped token that the vault backs, and the token
/// that the faucet hands out, which nothing backs.
#[derive(Clone, Copy, Debug, PartialEq, Eq, Structural)]
pub enum Token {
    Wrapped,
    Faucet,
}

/// One call to the platform or to a ledger.
#[derive(Clone, Copy, Debug, PartialEq, Eq)]
pub enum Call {
    /// Create the vault's account at `key` with `data` as its record.
    CreateVault { key: Identity, data: InitData },
    /// Create the mint of `token` at `key`, with `mint_authority` to mint and
    /// to freeze.
    CreateMint { token: Token, key: Identity, mint_authority: Identity, decimals: u8 },
    /// Open `owner`'s holder account of `token` unless it has one.
    OpenAccount { token: Token, owner: Identity },
    /// Move `amount` of native value from `from`'s wallet into the vault, signed
    /// by `from`.
    SystemTransfer { from: Identity, amount: u64 },
    /// Move `amount` of native value out of the vault into `to`'s wallet.
    Payout { to: Identity, amount: u64 },
    /// Mint `amount` of `token` to `to`'s account.
    MintTo { token: Token, to: Identity, amount: u64, authority: Authority },
    /// Burn `amount` of the wrapped token from `from`'s account.
    Burn { from: Identity, amount: u64, authority: Authority },
    /// Move `amount` of the wrapped token from `from`'s account to `to`'s.
    Transfer { from: Identity, to: Identity, amount: u64, authority: Authority },
    /// Let `delegate` move up to `amount` out of `account`'s account.
    Approve { account: Identity, delegate: Identity, amount: u64, authority: Authority },
    /// Register `metadata` for the wrapped token.
    RegisterMetadata { metadata: TokenMetadata, authority: Authority },
}

/// A call together with the error that the instruction reports where the call
/// is refused: the given code, or else the refusal itself.
#[derive(Clone, Copy, Debug, PartialEq, Eq)]
pub struct Step {
    pub call: Call,
    pub on_failure: Option<ErrorCode2>,
}

impl Authority {
    /// The identity on whose word the call is made, if the authority proves
    /// one.
    pub fn resolve(&self, program: &Identity) -> (r: Option<Identity>)
        ensures
            r == spec_resolve(*self, *program),
    {
        match self {
            Authority::Signer(identity) => Some(*identity),
            Authority::Derived { seed, bump } => Identity::derived(seed, *bump, program),
        }
    }
}

/// A signer speaks for itself; seeds speak for the address they derive.
pub open spec fn spec_resolve(authority: Authority, program: Identity) -> Option<Identity> {
    match authority {
        Authority::Signer(identity) => Some(identity),
        Authority::Derived { seed, bump } => Identity::spec_derived(seed@, bump, program),
    }
}

/// What an instruction reports where a step's call fails: the code that the
/// step names, or else the cause of the failure as it came.
#[derive(Clone, Copy, Debug, PartialEq, Eq)]
pub enum Reported<E> {
    Code(ErrorCode2),
    Cause(E),
}

impl Step {
    /// What the instruction reports where this step's call fails for `cause`,
    /// whatever kind of value the cause is.
    pub fn report<E>(&self, cause: E) -> (r: Reported<E>)
        ensures
            r == spec_report(*self, cause),
    {
        match self.on_failure {
            Some(code) => Reported::Code(code),
            None => Reported::Cause(cause),
        }
    }

    /// What the instruction reports where this step's call is refused.
    pub fn failure(&self, refusal: Refusal) -> (r: Failure)
        ensures
            r == spec_failure(*self, refusal),
    {
        match self.report(refusal) {
            Reported::Code(code) => Failure::Code(code),
            Reported::Cause(refusal) => Failure::Refused(refusal),
        }
    }
}

/// The code that the step names, or else the cause itself.
pub open spec fn spec_report<E>(step: Step, cause: E) -> Reported<E> {
    match step.on_failure {
        Some(code) => Reported::Code(code),
        None => Reported::Cause(cause),
    }
}

/// The code that the step names, or else the refusal itself.
pub open spec fn spec_failure(step: Step, refusal: Refusal) -> Failure {
    match spec_report(step, refusal) {
        Reported::Code(code) => Failure::Code(code),
        Reported::Cause(refusal) => Failure::Refused(refusal),
    }
}

} // verus!
