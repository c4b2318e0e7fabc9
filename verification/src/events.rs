//! The audit events that successful instructions leave behind.

use crate::identity::Identity;
use vstd::prelude::*;

verus! {

/// The vault's authority changed from `old` to `new`.
#[derive(Clone, Copy, Debug, PartialEq, Eq)]
pub struct ChangeAuthorityEvent {
    pub old: Identity,
    pub new: Identity,
}

/// `amount` of native value went from the depositor into the vault.
#[derive(Clone, Copy, Debug, PartialEq, Eq)]
pub struct DepositEvent {
    pub from: Identity,
    pub to: Identity,
    pub amount: u64,
}

/// `amount` of native value went from the vault to `to`.
#[derive(Clone, Copy, Debug, PartialEq, Eq)]
pub struct WithdrawEvent {
    pub from: Identity,
    pub to: Identity,
    pub amount: u64,
}

/// One entry of the audit log.
#[derive(Clone, Copy, Debug, PartialEq, Eq)]
pub enum Event {
    AuthorityChanged(ChangeAuthorityEvent),
    Deposited(DepositEvent),
    Withdrawn(WithdrawEvent),
}

} // verus!
