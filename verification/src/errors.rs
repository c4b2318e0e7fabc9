//! Why an instruction did not go through.

use vstd::prelude::*;

verus! {

/// The vault's own error kinds.
#[derive(Clone, Copy, Debug, PartialEq, Eq, Structural)]
pub enum ErrorCode2 {
    /// A deposit below the minimum.
    InvalidAmount,
    /// The native transfer did not go through.
    TransferFailed,
    /// More was asked for than the vault accounts for.
    WithdrawFailed,
    /// Reserved; no instruction returns it.
    DepositFailed,
    /// The caller is not the vault's authority, or owner where the role has
    /// that name.
    OnlyAuthority,
}

/// The same kinds under the names of a deployment that calls the privileged
/// role the owner. No instruction returns them: a caller who is not the owner
/// fails with `ErrorCode2::OnlyAuthority`, which stands for both names of the
/// role.
#[derive(Clone, Copy, Debug, PartialEq, Eq, Structural)]
pub enum ErrorCode {
    InvalidAmount,
    TransferFailed,
    WithdrawFailed,
    DepositFailed,
    OnlyOwner,
}

/// Why the platform or one of the ledgers refused a call.
#[derive(Clone, Copy, Debug, PartialEq, Eq, Structural)]
pub enum Refusal {
    /// The account to create exists already.
    AlreadyInUse,
    /// The account to use does not exist yet.
    UninitializedAccount,
    /// The balance, or the delegate's allowance, is below the amount.
    InsufficientFunds,
    /// The authority presented is not the one the account names.
    OwnerMismatch,
    /// A balance would pass the largest amount.
    Overflow,
    /// The seeds presented derive no address.
    InvalidSeeds,
    /// The caller is not the identity that may deploy.
    AddressMismatch,
}

/// Why an instruction failed. Whatever the reason, it left every account as it
/// was.
#[derive(Clone, Copy, Debug, PartialEq, Eq, Structural)]
pub enum Failure {
    Code(ErrorCode2),
    Refused(Refusal),
}

impl ErrorCode2 {
    /// The message that goes with the error.
    pub fn message(&self) -> (r: &'static str)
        ensures
            r@ == self.spec_message(),
    {
        match self {
            ErrorCode2::InvalidAmount => "Invalid amount",
            ErrorCode2::TransferFailed => "Transfer failed",
            ErrorCode2::WithdrawFailed => "Withdraw failed",
            ErrorCode2::DepositFailed => "Deposit failed",
            ErrorCode2::OnlyAuthority => "Only authority",
        }
    }

    /// The text of `message`.
    pub open spec fn spec_message(&self) -> Seq<char> {
        match self {
            ErrorCode2::InvalidAmount => "Invalid amount"@,
            ErrorCode2::TransferFailed => "Transfer failed"@,
            ErrorCode2::WithdrawFailed => "Withdraw failed"@,
            ErrorCode2::DepositFailed => "Deposit failed"@,
            ErrorCode2::OnlyAuthority => "Only authority"@,
        }
    }
}

impl ErrorCode {
    /// The message that goes with the error.
    pub fn message(&self) -> (r: &'static str)
        ensures
            r@ == self.spec_message(),
    {
        match self {
            ErrorCode::InvalidAmount => "Invalid amount",
            ErrorCode::TransferFailed => "Transfer failed",
            ErrorCode::WithdrawFailed => "Withdraw failed",
            ErrorCode::DepositFailed => "Deposit failed",
            ErrorCode::OnlyOwner => "Only owner",
        }
    }

    /// The text of `message`.
    pub open spec fn spec_message(&self) -> Seq<char> {
        match self {
            ErrorCode::InvalidAmount => "Invalid amount"@,
            ErrorCode::TransferFailed => "Transfer failed"@,
            ErrorCode::WithdrawFailed => "Withdraw failed"@,
            ErrorCode::DepositFailed => "Deposit failed"@,
            ErrorCode::OnlyOwner => "Only owner"@,
        }
    }
}

} // verus!
