//! The vault's instructions: what each one checks, which calls it makes in
//! which order, and what it commits once every call went through.

use crate::bank::{spec_perform, Bank, BankView, VaultAccount};
use crate::call::{spec_failure, Authority, Call, Step, Token};
use crate::errors::{ErrorCode2, Failure, Refusal};
use crate::events::{ChangeAuthorityEvent, DepositEvent, Event, WithdrawEvent};
use crate::identity::Identity;
use crate::laws::{
    changed_by, instruction_effect, law_executed, law_initialized, law_withdraw_beyond_backing,
    well_derived,
};
use crate::state::{
    spec_admits_deployer, spec_authorize, spec_check_deposit, spec_check_withdraw, spec_credit,
    spec_debit, AuthorizationPolicy, Config, InitData, Role,
};
use anchor_lang::solana_program::native_token::LAMPORTS_PER_SOL;
use vstd::pervasive::unreached;
use vstd::prelude::*;

verus! {

/// The decimals of both token types.
pub const DECIMALS: u8 = 9;

/// The seed of the address of the faucet's mint.
pub const FAUCET_SEED: &'static str = "mint_token_2022";

/// What the faucet hands out at once.
pub const FAUCET_AMOUNT: u64 = 10_000_000_000_000_000;

/// The accounts of `initialize`.
#[derive(Clone, Copy, Debug, PartialEq, Eq)]
pub struct Initialize {
    pub signer: Identity,
}

/// The accounts of `change_authority`.
#[derive(Clone, Copy, Debug, PartialEq, Eq)]
pub struct ChangeAuthority {
    pub signer: Identity,
}

/// The accounts of a change of owner: those of `change_authority` where the
/// role is called the owner.
#[derive(Clone, Copy, Debug, PartialEq, Eq)]
pub struct ChangeOwner {
    pub signer: Identity,
}

/// The accounts of `deposit`.
#[derive(Clone, Copy, Debug, PartialEq, Eq)]
pub struct Deposit {
    pub signer: Identity,
}

/// The accounts of `withdraw`.
#[derive(Clone, Copy, Debug, PartialEq, Eq)]
pub struct Withdraw {
    pub signer: Identity,
}

/// The accounts of the two transfers: the caller, whose tokens move, and the
/// identity that receives them.
#[derive(Clone, Copy, Debug, PartialEq, Eq)]
pub struct TransferWeth {
    pub signer: Identity,
    pub to: Identity,
}

/// The accounts of `withdraw_only_authority`.
#[derive(Clone, Copy, Debug, PartialEq, Eq)]
pub struct WithdrawAuthority {
    pub authority: Identity,
}

/// The accounts of `withdraw_only_owner`.
#[derive(Clone, Copy, Debug, PartialEq, Eq)]
pub struct WithdrawOwner {
    pub signer: Identity,
}

/// The accounts of `create_token_2022`.
#[derive(Clone, Copy, Debug, PartialEq, Eq)]
pub struct CreateToken2022 {
    pub user: Identity,
}

/// An instruction with its accounts and arguments.
#[derive(Clone, Copy, Debug, PartialEq, Eq)]
pub enum Instruction {
    Initialize(Initialize),
    ChangeAuthority(ChangeAuthority, Identity),
    Deposit(Deposit, u64),
    Withdraw(Withdraw, u64),
    TransferWeth(TransferWeth, u64),
    ApproveTransferWeth(TransferWeth, u64),
    WithdrawOnlyAuthority(WithdrawAuthority),
    WithdrawOnlyOwner(WithdrawOwner),
    CreateToken2022(CreateToken2022),
}

/// `LAMPORTS_PER_SOL`: the number of lamports in one SOL, a constant of
/// 1_000_000_000.
#[verifier::external_body]
fn lamports_per_sol() -> (r: u64)
    ensures
        r == 1_000_000_000,
{
    LAMPORTS_PER_SOL
}

impl Initialize {
    /// The call that registers the token's descriptive record, signed with the
    /// vault's seeds, where the configuration names a record.
    pub fn create_weth_mint_metadata_account(&self, config: &Config, bump: u8) -> (r: Option<Step>)
        ensures
            r == spec_metadata_step(*config, bump),
    {
        match config.metadata {
            Some(metadata) => Some(
                Step {
                    call: Call::RegisterMetadata {
                        metadata,
                        authority: Authority::Derived { seed: config.storage_seed, bump },
                    },
                    on_failure: None,
                },
            ),
            None => None,
        }
    }
}

/// The step that registers the record that `config` names, signed with the
/// vault's seed and `bump`.
pub open spec fn spec_metadata_step(config: Config, bump: u8) -> Option<Step> {
    match config.metadata {
        Some(metadata) => Some(
            Step {
                call: Call::RegisterMetadata {
                    metadata,
                    authority: Authority::Derived { seed: config.storage_seed, bump },
                },
                on_failure: None,
            },
        ),
        None => None,
    }
}

impl Deposit {
    /// The native transfer from the depositor into the vault; its refusal is
    /// reported as `TransferFailed`.
    pub fn transfer_sol_from_signer(&self, amount: u64) -> (r: Step)
        ensures
            r == spec_transfer_sol_step(*self, amount),
    {
        Step {
            call: Call::SystemTransfer { from: self.signer, amount },
            on_failure: Some(ErrorCode2::TransferFailed),
        }
    }

    /// The minting of `amount` to the depositor, signed with the vault's seeds.
    pub fn weth_mint(&self, config: &Config, data: &InitData, amount: u64) -> (r: Step)
        ensures
            r == spec_weth_mint_step(*self, *config, *data, amount),
    {
        Step {
            call: Call::MintTo {
                token: Token::Wrapped,
                to: self.signer,
                amount,
                authority: Authority::Derived { seed: config.storage_seed, bump: data.bump },
            },
            on_failure: None,
        }
    }
}

/// The native transfer of a deposit, with `TransferFailed` for its refusal.
pub open spec fn spec_transfer_sol_step(ctx: Deposit, amount: u64) -> Step {
    Step {
        call: Call::SystemTransfer { from: ctx.signer, amount },
        on_failure: Some(ErrorCode2::TransferFailed),
    }
}

/// The minting of a deposit, signed with the vault's seed and recorded bump.
pub open spec fn spec_weth_mint_step(ctx: Deposit, config: Config, data: InitData, amount: u64) -> Step {
    Step {
        call: Call::MintTo {
            token: Token::Wrapped,
            to: ctx.signer,
            amount,
            authority: Authority::Derived { seed: config.storage_seed, bump: data.bump },
        },
        on_failure: None,
    }
}

impl Withdraw {
    /// The burning of `amount` from the caller's account, signed by the caller.
    pub fn weth_burn(&self, amount: u64) -> (r: Step)
        ensures
            r == spec_weth_burn_step(*self, amount),
    {
        Step {
            call: Call::Burn {
                from: self.signer,
                amount,
                authority: Authority::Signer(self.signer),
            },
            on_failure: None,
        }
    }

    /// The native payout to the caller; its refusal is reported as
    /// `TransferFailed`.
    pub fn pay_out(&self, amount: u64) -> (r: Step)
        ensures
            r == spec_payout_step(self.signer, amount),
    {
        Step {
            call: Call::Payout { to: self.signer, amount },
            on_failure: Some(ErrorCode2::TransferFailed),
        }
    }
}

/// The burning of a withdrawal, signed by the caller.
pub open spec fn spec_weth_burn_step(ctx: Withdraw, amount: u64) -> Step {
    Step {
        call: Call::Burn { from: ctx.signer, amount, authority: Authority::Signer(ctx.signer) },
        on_failure: None,
    }
}

/// The payout of `amount` to `to`, with `TransferFailed` for its refusal.
pub open spec fn spec_payout_step(to: Identity, amount: u64) -> Step {
    Step { call: Call::Payout { to, amount }, on_failure: Some(ErrorCode2::TransferFailed) }
}

impl TransferWeth {
    /// The plain transfer, signed by the caller.
    pub fn transfer_by_signer(&self, amount: u64) -> (r: Step)
        ensures
            r == spec_transfer_by_signer_step(*self, amount),
    {
        Step {
            call: Call::Transfer {
                from: self.signer,
                to: self.to,
                amount,
                authority: Authority::Signer(self.signer),
            },
            on_failure: None,
        }
    }

    /// The caller's approval of the vault as delegate for `amount`.
    pub fn approve_to_storage_account(&self, vault: &VaultAccount, amount: u64) -> (r: Step)
        ensures
            r == spec_approve_step(*self, *vault, amount),
    {
        Step {
            call: Call::Approve {
                account: self.signer,
                delegate: vault.key,
                amount,
                authority: Authority::Signer(self.signer),
            },
            on_failure: None,
        }
    }

    /// The transfer that the vault makes as delegate, signed with its seeds.
    pub fn transfer_weth_with_seeds(&self, config: &Config, data: &InitData, amount: u64) -> (r:
        Step)
        ensures
            r == spec_transfer_with_seeds_step(*self, *config, *data, amount),
    {
        Step {
            call: Call::Transfer {
                from: self.signer,
                to: self.to,
                amount,
                authority: Authority::Derived { seed: config.storage_seed, bump: data.bump },
            },
            on_failure: None,
        }
    }
}

/// The transfer that the caller signs.
pub open spec fn spec_transfer_by_signer_step(ctx: TransferWeth, amount: u64) -> Step {
    Step {
        call: Call::Transfer {
            from: ctx.signer,
            to: ctx.to,
            amount,
            authority: Authority::Signer(ctx.signer),
        },
        on_failure: None,
    }
}

/// The approval of the vault as the caller's delegate.
pub open spec fn spec_approve_step(ctx: TransferWeth, vault: VaultAccount, amount: u64) -> Step {
    Step {
        call: Call::Approve {
            account: ctx.signer,
            delegate: vault.key,
            amount,
            authority: Authority::Signer(ctx.signer),
        },
        on_failure: None,
    }
}

/// The transfer that the vault signs with its seed and recorded bump.
pub open spec fn spec_transfer_with_seeds_step(
    ctx: TransferWeth,
    config: Config,
    data: InitData,
    amount: u64,
) -> Step {
    Step {
        call: Call::Transfer {
            from: ctx.signer,
            to: ctx.to,
            amount,
            authority: Authority::Derived { seed: config.storage_seed, bump: data.bump },
        },
        on_failure: None,
    }
}

impl CreateToken2022 {
    /// The minting of `amount` of the faucet's token to the caller, who is its
    /// mint's authority.
    pub fn mint_to(&self, amount: u64) -> (r: Step)
        ensures
            r == spec_faucet_mint_step(*self, amount),
    {
        Step {
            call: Call::MintTo {
                token: Token::Faucet,
                to: self.user,
                amount,
                authority: Authority::Signer(self.user),
            },
            on_failure: None,
        }
    }
}

/// The minting of the faucet's token, signed by the caller.
pub open spec fn spec_faucet_mint_step(ctx: CreateToken2022, amount: u64) -> Step {
    Step {
        call: Call::MintTo {
            token: Token::Faucet,
            to: ctx.user,
            amount,
            authority: Authority::Signer(ctx.user),
        },
        on_failure: None,
    }
}

/// The steps of `initialize`, given the two addresses found.
pub open spec fn spec_initialize_steps(
    config: Config,
    signer: Identity,
    vault: (Identity, u8),
    mint: (Identity, u8),
) -> Seq<Step> {
    let create = seq![
        Step {
            call: Call::CreateVault {
                key: vault.0,
                data: InitData { amount: 0, bump: vault.1, wethbump: mint.1, authority: signer },
            },
            on_failure: None,
        },
        Step {
            call: Call::CreateMint {
                token: Token::Wrapped,
                key: mint.0,
                mint_authority: vault.0,
                decimals: DECIMALS,
            },
            on_failure: None,
        },
    ];
    match spec_metadata_step(config, vault.1) {
        Some(step) => create.push(step),
        None => create,
    }
}

/// What `instruction` checks before anything is touched, and the steps it takes
/// when the checks pass.
pub open spec fn spec_plan(
    config: Config,
    program: Identity,
    storage: Option<VaultAccount>,
    instruction: Instruction,
) -> Result<Seq<Step>, Failure> {
    match instruction {
        Instruction::Initialize(ctx) => match (
            Identity::spec_found(config.storage_seed@, program),
            Identity::spec_found(config.mint_seed@, program),
        ) {
            (Some(vault), Some(mint)) => if storage is Some {
                Err(Failure::Refused(Refusal::AlreadyInUse))
            } else if !spec_admits_deployer(config, ctx.signer) {
                Err(Failure::Refused(Refusal::AddressMismatch))
            } else {
                Ok(spec_initialize_steps(config, ctx.signer, vault, mint))
            },
            _ => Err(Failure::Refused(Refusal::InvalidSeeds)),
        },
        Instruction::CreateToken2022(ctx) => match Identity::spec_found(FAUCET_SEED@, program) {
            Some(mint) => Ok(
                seq![
                    Step {
                        call: Call::CreateMint {
                            token: Token::Faucet,
                            key: mint.0,
                            mint_authority: ctx.user,
                            decimals: DECIMALS,
                        },
                        on_failure: None,
                    },
                    Step {
                        call: Call::OpenAccount { token: Token::Faucet, owner: ctx.user },
                        on_failure: None,
                    },
                    spec_faucet_mint_step(ctx, FAUCET_AMOUNT),
                ],
            ),
            None => Err(Failure::Refused(Refusal::InvalidSeeds)),
        },
        _ => match storage {
            Some(vault) => spec_plan_on(config, vault, instruction),
            None => Err(Failure::Refused(Refusal::UninitializedAccount)),
        },
    }
}

/// The same for the instructions that work on an initialized vault.
pub open spec fn spec_plan_on(config: Config, vault: VaultAccount, instruction: Instruction) -> Result<
    Seq<Step>,
    Failure,
> {
    match instruction {
        Instruction::ChangeAuthority(ctx, _) => match spec_authorize(
            AuthorizationPolicy { role: Role::Authority },
            ctx.signer,
            vault.data,
        ) {
            Ok(()) => Ok(Seq::empty()),
            Err(code) => Err(Failure::Code(code)),
        },
        Instruction::Deposit(ctx, amount) => match spec_check_deposit(config.min_deposit, amount) {
            Ok(()) => Ok(
                seq![
                    Step {
                        call: Call::OpenAccount { token: Token::Wrapped, owner: ctx.signer },
                        on_failure: None,
                    },
                    spec_transfer_sol_step(ctx, amount),
                    spec_weth_mint_step(ctx, config, vault.data, amount),
                ],
            ),
            Err(code) => Err(Failure::Code(code)),
        },
        Instruction::Withdraw(ctx, amount) => match spec_check_withdraw(vault.data, amount) {
            Ok(()) => Ok(
                seq![spec_weth_burn_step(ctx, amount), spec_payout_step(ctx.signer, amount)],
            ),
            Err(code) => Err(Failure::Code(code)),
        },
        Instruction::TransferWeth(ctx, amount) => Ok(
            seq![
                Step {
                    call: Call::OpenAccount { token: Token::Wrapped, owner: ctx.to },
                    on_failure: None,
                },
                spec_transfer_by_signer_step(ctx, amount),
            ],
        ),
        Instruction::ApproveTransferWeth(ctx, amount) => Ok(
            seq![
                Step {
                    call: Call::OpenAccount { token: Token::Wrapped, owner: ctx.to },
                    on_failure: None,
                },
                spec_approve_step(ctx, vault, amount),
                spec_transfer_with_seeds_step(ctx, config, vault.data, amount),
            ],
        ),
        Instruction::WithdrawOnlyAuthority(ctx) => match spec_authorize(
            AuthorizationPolicy { role: Role::Authority },
            ctx.authority,
            vault.data,
        ) {
            Ok(()) => Ok(seq![spec_payout_step(ctx.authority, vault.data.amount)]),
            Err(code) => Err(Failure::Code(code)),
        },
        Instruction::WithdrawOnlyOwner(ctx) => match spec_authorize(
            AuthorizationPolicy { role: Role::Owner },
            ctx.signer,
            vault.data,
        ) {
            Ok(()) => Ok(seq![spec_payout_step(ctx.signer, vault.data.amount)]),
            Err(code) => Err(Failure::Code(code)),
        },
        _ => Ok(Seq::empty()),
    }
}

/// The bank after `steps`, taken in order: the first refusal ends the run with
/// the failure that its step names.
pub open spec fn spec_run(bank: BankView, steps: Seq<Step>) -> Result<BankView, Failure>
    decreases steps.len(),
{
    if steps.len() == 0 {
        Ok(bank)
    } else {
        match spec_perform(bank, steps[0].call) {
            Ok(next) => spec_run(next, steps.drop_first()),
            Err(refusal) => Err(spec_failure(steps[0], refusal)),
        }
    }
}

/// The bank with `data` as the vault's record.
pub open spec fn with_data(bank: BankView, vault: VaultAccount, data: InitData) -> BankView {
    BankView { storage: Some(VaultAccount { data, ..vault }), ..bank }
}

/// What `instruction` commits in the vault's record once its steps went
/// through, and the event to log.
pub open spec fn spec_commit_record(vault: VaultAccount, instruction: Instruction) -> Result<
    (InitData, Option<Event>),
    Failure,
> {
    match instruction {
        Instruction::Initialize(ctx) => Ok(
            (
                vault.data,
                Some(
                    Event::AuthorityChanged(
                        ChangeAuthorityEvent { old: Identity::spec_null(), new: ctx.signer },
                    ),
                ),
            ),
        ),
        Instruction::ChangeAuthority(ctx, new_authority) => if vault.data.authority == ctx.signer {
            Ok(
                (
                    InitData { authority: new_authority, ..vault.data },
                    Some(
                        Event::AuthorityChanged(
                            ChangeAuthorityEvent { old: vault.data.authority, new: new_authority },
                        ),
                    ),
                ),
            )
        } else {
            Err(Failure::Code(ErrorCode2::OnlyAuthority))
        },
        Instruction::Deposit(ctx, amount) => match spec_credit(
            vault.data,
            ctx.signer,
            vault.key,
            amount,
        ) {
            (data, Ok(event)) => Ok((data, Some(Event::Deposited(event)))),
            (_, Err(refusal)) => Err(Failure::Refused(refusal)),
        },
        Instruction::Withdraw(ctx, amount) => match spec_debit(
            vault.data,
            vault.key,
            ctx.signer,
            amount,
        ) {
            (data, Ok(event)) => Ok((data, Some(Event::Withdrawn(event)))),
            (_, Err(refusal)) => Err(Failure::Refused(refusal)),
        },
        Instruction::WithdrawOnlyAuthority(ctx) => Ok(
            (
                vault.data,
                Some(
                    Event::Withdrawn(
                        WithdrawEvent {
                            from: vault.key,
                            to: ctx.authority,
                            amount: vault.data.amount,
                        },
                    ),
                ),
            ),
        ),
        Instruction::WithdrawOnlyOwner(ctx) => Ok(
            (
                vault.data,
                Some(
                    Event::Withdrawn(
                        WithdrawEvent { from: vault.key, to: ctx.signer, amount: vault.data.amount },
                    ),
                ),
            ),
        ),
        _ => Ok((vault.data, None)),
    }
}

/// The bank after `instruction` commits: the faucet commits nothing; every
/// other instruction commits in the record of the vault, which must exist.
pub open spec fn spec_commit(bank: BankView, instruction: Instruction) -> Result<
    (BankView, Option<Event>),
    Failure,
> {
    match instruction {
        Instruction::CreateToken2022(_) => Ok((bank, None)),
        _ => match bank.storage {
            Some(vault) => match spec_commit_record(vault, instruction) {
                Ok((data, event)) => Ok((with_data(bank, vault, data), event)),
                Err(failure) => Err(failure),
            },
            None => Err(Failure::Refused(Refusal::UninitializedAccount)),
        },
    }
}

/// The bank with `event` at the end of its log.
pub open spec fn logged(bank: BankView, event: Option<Event>) -> BankView {
    match event {
        Some(event) => BankView { log: bank.log.push(event), ..bank },
        None => bank,
    }
}

/// The whole of an instruction: its checks, its steps, its commit and its
/// event; or, where any of them fails, the failure and the bank as it was.
pub open spec fn spec_execute(bank: BankView, instruction: Instruction) -> (
    BankView,
    Result<Option<Event>, Failure>,
) {
    match spec_plan(bank.config, bank.program, bank.storage, instruction) {
        Ok(steps) => match spec_run(bank, steps) {
            Ok(reached) => match spec_commit(reached, instruction) {
                Ok((committed, event)) => (logged(committed, event), Ok(event)),
                Err(failure) => (bank, Err(failure)),
            },
            Err(failure) => (bank, Err(failure)),
        },
        Err(failure) => (bank, Err(failure)),
    }
}

/// What the faucet hands out at once: ten million SOL's worth of lamports.
pub fn faucet_amount() -> (r: u64)
    ensures
        r == FAUCET_AMOUNT,
{
    lamports_per_sol() * 10_000_000
}

/// The checks of an instruction on an initialized vault, and its steps.
pub fn plan_on(config: &Config, vault: &VaultAccount, instruction: &Instruction) -> (r: Result<
    Vec<Step>,
    Failure,
>)
    ensures
        match r {
            Ok(steps) => spec_plan_on(*config, *vault, *instruction) == Ok::<Seq<Step>, Failure>(
                steps@,
            ),
            Err(failure) => spec_plan_on(*config, *vault, *instruction) == Err::<
                Seq<Step>,
                Failure,
            >(failure),
        },
{
    let mut steps: Vec<Step> = Vec::new();
    match instruction {
        Instruction::ChangeAuthority(ctx, _) => {
            let policy = AuthorizationPolicy { role: Role::Authority };
            match policy.check(&ctx.signer, &vault.data) {
                Ok(()) => {},
                Err(code) => { return Err(Failure::Code(code)); },
            }
        },
        Instruction::Deposit(ctx, amount) => {
            match InitData::check_deposit(config.min_deposit, *amount) {
                Ok(()) => {},
                Err(code) => { return Err(Failure::Code(code)); },
            }
            steps.push(
                Step {
                    call: Call::OpenAccount { token: Token::Wrapped, owner: ctx.signer },
                    on_failure: None,
                },
            );
            steps.push(ctx.transfer_sol_from_signer(*amount));
            steps.push(ctx.weth_mint(config, &vault.data, *amount));
        },
        Instruction::Withdraw(ctx, amount) => {
            match vault.data.check_withdraw(*amount) {
                Ok(()) => {},
                Err(code) => { return Err(Failure::Code(code)); },
            }
            steps.push(ctx.weth_burn(*amount));
            steps.push(ctx.pay_out(*amount));
        },
        Instruction::TransferWeth(ctx, amount) => {
            steps.push(
                Step {
                    call: Call::OpenAccount { token: Token::Wrapped, owner: ctx.to },
                    on_failure: None,
                },
            );
            steps.push(ctx.transfer_by_signer(*amount));
        },
        Instruction::ApproveTransferWeth(ctx, amount) => {
            steps.push(
                Step {
                    call: Call::OpenAccount { token: Token::Wrapped, owner: ctx.to },
                    on_failure: None,
                },
            );
            steps.push(ctx.approve_to_storage_account(vault, *amount));
            steps.push(ctx.transfer_weth_with_seeds(config, &vault.data, *amount));
        },
        Instruction::WithdrawOnlyAuthority(ctx) => {
            let policy = AuthorizationPolicy { role: Role::Authority };
            match policy.check(&ctx.authority, &vault.data) {
                Ok(()) => {},
                Err(code) => { return Err(Failure::Code(code)); },
            }
            steps.push(
                Step {
                    call: Call::Payout { to: ctx.authority, amount: vault.data.amount },
                    on_failure: Some(ErrorCode2::TransferFailed),
                },
            );
        },
        Instruction::WithdrawOnlyOwner(ctx) => {
            let policy = AuthorizationPolicy { role: Role::Owner };
            match policy.check(&ctx.signer, &vault.data) {
                Ok(()) => {},
                Err(code) => { return Err(Failure::Code(code)); },
            }
            steps.push(
                Step {
                    call: Call::Payout { to: ctx.signer, amount: vault.data.amount },
                    on_failure: Some(ErrorCode2::TransferFailed),
                },
            );
        },
        _ => {},
    }
    assert(steps@ =~= spec_plan_on(*config, *vault, *instruction)->Ok_0);
    Ok(steps)
}

/// The checks that `instruction` makes before anything is touched, and the
/// steps that it takes when they pass.
pub fn plan(
    config: &Config,
    program: &Identity,
    storage: &Option<VaultAccount>,
    instruction: &Instruction,
) -> (r: Result<Vec<Step>, Failure>)
    ensures
        match r {
            Ok(steps) => spec_plan(*config, *program, *storage, *instruction) == Ok::<
                Seq<Step>,
                Failure,
            >(steps@),
            Err(failure) => spec_plan(*config, *program, *storage, *instruction) == Err::<
                Seq<Step>,
                Failure,
            >(failure),
        },
        *instruction is Initialize ==> Identity::found_is_derived(config.storage_seed@, *program),
{
    match instruction {
        Instruction::Initialize(ctx) => {
            let vault = Identity::find_derived(config.storage_seed, program);
            let mint = Identity::find_derived(config.mint_seed, program);
            match (vault, mint) {
                (Some((vault_key, bump)), Some((mint_key, wethbump))) => {
                    if storage.is_some() {
                        return Err(Failure::Refused(Refusal::AlreadyInUse));
                    }
                    if !config.admits_deployer(&ctx.signer) {
                        return Err(Failure::Refused(Refusal::AddressMismatch));
                    }
                    let mut steps: Vec<Step> = Vec::new();
                    steps.push(
                        Step {
                            call: Call::CreateVault {
                                key: vault_key,
                                data: InitData::new(ctx.signer, bump, wethbump),
                            },
                            on_failure: None,
                        },
                    );
                    steps.push(
                        Step {
                            call: Call::CreateMint {
                                token: Token::Wrapped,
                                key: mint_key,
                                mint_authority: vault_key,
                                decimals: DECIMALS,
                            },
                            on_failure: None,
                        },
                    );
                    match ctx.create_weth_mint_metadata_account(config, bump) {
                        Some(step) => { steps.push(step); },
                        None => {},
                    }
                    assert(steps@ =~= spec_initialize_steps(
                        *config,
                        ctx.signer,
                        (vault_key, bump),
                        (mint_key, wethbump),
                    ));
                    Ok(steps)
                },
                _ => Err(Failure::Refused(Refusal::InvalidSeeds)),
            }
        },
        Instruction::CreateToken2022(ctx) => {
            match Identity::find_derived(FAUCET_SEED, program) {
                Some((mint_key, _)) => {
                    let mut steps: Vec<Step> = Vec::new();
                    steps.push(
                        Step {
                            call: Call::CreateMint {
                                token: Token::Faucet,
                                key: mint_key,
                                mint_authority: ctx.user,
                                decimals: DECIMALS,
                            },
                            on_failure: None,
                        },
                    );
                    steps.push(
                        Step {
                            call: Call::OpenAccount { token: Token::Faucet, owner: ctx.user },
                            on_failure: None,
                        },
                    );
                    steps.push(ctx.mint_to(faucet_amount()));
                    assert(steps@ =~= spec_plan(*config, *program, *storage, *instruction)->Ok_0);
                    Ok(steps)
                },
                None => Err(Failure::Refused(Refusal::InvalidSeeds)),
            }
        },
        _ => match storage {
            Some(vault) => plan_on(config, vault, instruction),
            None => Err(Failure::Refused(Refusal::UninitializedAccount)),
        },
    }
}

impl Bank {
    /// Takes `steps` in order and stops at the first refusal, with the bank as
    /// the steps before it left it.
    pub fn run(&mut self, steps: &Vec<Step>) -> (r: Result<(), Failure>)
        ensures
            match r {
                Ok(()) => spec_run(old(self)@, steps@) == Ok::<BankView, Failure>(final(self)@),
                Err(failure) => spec_run(old(self)@, steps@) == Err::<BankView, Failure>(failure),
            },
    {
        let mut k: usize = 0;
        assert(steps@.skip(0) =~= steps@);
        while k < steps.len()
            invariant
                k <= steps.len(),
                spec_run(old(self)@, steps@) == spec_run(self@, steps@.skip(k as int)),
            decreases steps.len() - k,
        {
            let step = steps[k];
            assert(steps@.skip(k as int)[0] == step);
            assert(steps@.skip(k as int).drop_first() =~= steps@.skip(k + 1));
            match self.perform(&step.call) {
                Ok(()) => {},
                Err(refusal) => { return Err(step.failure(refusal)); },
            }
            k += 1;
        }
        Ok(())
    }

    /// Commits what `instruction` changes in the vault's record once its steps
    /// went through, and hands back the event to log.
    pub fn commit(&mut self, instruction: &Instruction) -> (r: Result<Option<Event>, Failure>)
        ensures
            match r {
                Ok(event) => spec_commit(old(self)@, *instruction) == Ok::<
                    (BankView, Option<Event>),
                    Failure,
                >((final(self)@, event)),
                Err(failure) => spec_commit(old(self)@, *instruction) == Err::<
                    (BankView, Option<Event>),
                    Failure,
                >(failure) && final(self)@ == old(self)@,
            },
    {
        if let Instruction::CreateToken2022(_) = instruction {
            return Ok(None);
        }
        let vault = match self.storage {
            Some(vault) => vault,
            None => { return Err(Failure::Refused(Refusal::UninitializedAccount)); },
        };
        match commit_record(&vault, instruction) {
            Ok((data, event)) => {
                self.storage = Some(
                    VaultAccount { key: vault.key, lamports: vault.lamports, data },
                );
                assert(final(self)@ =~= spec_commit(old(self)@, *instruction)->Ok_0.0);
                Ok(event)
            },
            Err(failure) => Err(failure),
        }
    }
}

/// What `instruction` commits in the record of `vault` once its steps went
/// through: the new record and the event to log.
pub fn commit_record(vault: &VaultAccount, instruction: &Instruction) -> (r: Result<
    (InitData, Option<Event>),
    Failure,
>)
    ensures
        r == spec_commit_record(*vault, *instruction),
{
    let mut data = vault.data;
    let event = match instruction {
        Instruction::Initialize(ctx) => Some(
            Event::AuthorityChanged(ChangeAuthorityEvent { old: Identity::null(), new: ctx.signer }),
        ),
        Instruction::ChangeAuthority(ctx, new_authority) => match data.change_authority(
            &ctx.signer,
            *new_authority,
        ) {
            Ok(event) => Some(Event::AuthorityChanged(event)),
            Err(code) => { return Err(Failure::Code(code)); },
        },
        Instruction::Deposit(ctx, amount) => match data.credit(ctx.signer, vault.key, *amount) {
            Ok(event) => Some(Event::Deposited(event)),
            Err(refusal) => { return Err(Failure::Refused(refusal)); },
        },
        Instruction::Withdraw(ctx, amount) => match data.debit(vault.key, ctx.signer, *amount) {
            Ok(event) => Some(Event::Withdrawn(event)),
            Err(refusal) => { return Err(Failure::Refused(refusal)); },
        },
        Instruction::WithdrawOnlyAuthority(ctx) => Some(
            Event::Withdrawn(
                WithdrawEvent { from: vault.key, to: ctx.authority, amount: data.amount },
            ),
        ),
        Instruction::WithdrawOnlyOwner(ctx) => Some(
            Event::Withdrawn(WithdrawEvent { from: vault.key, to: ctx.signer, amount: data.amount }),
        ),
        _ => None,
    };
    Ok((data, event))
}

/// Executes `instruction` on `bank`: all of it, or none of it.
///
/// The steps run on a copy, which takes the bank's place only when the checks,
/// every step and the commit went through.
pub fn execute(bank: &mut Bank, instruction: &Instruction) -> (r: Result<Option<Event>, Failure>)
    ensures
        (final(bank)@, r) == spec_execute(old(bank)@, *instruction),
        r is Err ==> *final(bank) == *old(bank),
        *instruction is Initialize ==> Identity::found_is_derived(
            old(bank).config.storage_seed@,
            old(bank).program,
        ),
{
    let steps = match plan(&bank.config, &bank.program, &bank.storage, instruction) {
        Ok(steps) => steps,
        Err(failure) => { return Err(failure); },
    };
    let mut work = bank.duplicate();
    match work.run(&steps) {
        Ok(()) => {},
        Err(failure) => { return Err(failure); },
    }
    let event = match work.commit(instruction) {
        Ok(event) => event,
        Err(failure) => { return Err(failure); },
    };
    match event {
        Some(entry) => { work.log.push(entry); },
        None => {},
    }
    *bank = work;
    assert(final(bank)@ =~= spec_execute(old(bank)@, *instruction).0);
    Ok(event)
}

/// What an instruction that logs an authority change returns for the outcome
/// `outcome` of its execution.
pub open spec fn authority_changed(outcome: Result<Option<Event>, Failure>) -> Result<
    ChangeAuthorityEvent,
    Failure,
> {
    match outcome {
        Ok(Some(Event::AuthorityChanged(event))) => Ok(event),
        Ok(_) => arbitrary(),
        Err(failure) => Err(failure),
    }
}

/// The same for an instruction that logs a deposit.
pub open spec fn deposited(outcome: Result<Option<Event>, Failure>) -> Result<
    DepositEvent,
    Failure,
> {
    match outcome {
        Ok(Some(Event::Deposited(event))) => Ok(event),
        Ok(_) => arbitrary(),
        Err(failure) => Err(failure),
    }
}

/// The same for an instruction that logs a withdrawal.
pub open spec fn withdrawn(outcome: Result<Option<Event>, Failure>) -> Result<
    WithdrawEvent,
    Failure,
> {
    match outcome {
        Ok(Some(Event::Withdrawn(event))) => Ok(event),
        Ok(_) => arbitrary(),
        Err(failure) => Err(failure),
    }
}

/// The same for an instruction that logs nothing.
pub open spec fn unlogged(outcome: Result<Option<Event>, Failure>) -> Result<(), Failure> {
    match outcome {
        Ok(_) => Ok(()),
        Err(failure) => Err(failure),
    }
}

/// Creates the vault and the wrapped token's mint, with the caller as the
/// vault's authority and nothing accounted for.
///
/// Fails where the vault exists already, where the configuration names a
/// deployer and the caller is another identity, and where the program finds no
/// address under one of its seeds.
pub fn initialize(bank: &mut Bank, ctx: &Initialize) -> (r: Result<ChangeAuthorityEvent, Failure>)
    ensures
        final(bank)@ == spec_execute(old(bank)@, Instruction::Initialize(*ctx)).0,
        r == authority_changed(spec_execute(old(bank)@, Instruction::Initialize(*ctx)).1),
        spec_execute(old(bank)@, Instruction::Initialize(*ctx)).1 matches Ok(logged) ==> logged
            == Some(
            Event::AuthorityChanged(
                ChangeAuthorityEvent { old: Identity::spec_null(), new: ctx.signer },
            ),
        ),
        old(bank).storage is Some ==> r is Err,
        r is Ok ==> {
            &&& old(bank).storage is None
            &&& crate::bank::spec_accounted(final(bank)@) == 0
            &&& crate::bank::spec_authority(final(bank)@) == Some(ctx.signer)
            &&& well_derived(final(bank)@)
        },
        r is Err ==> *final(bank) == *old(bank),
{
    let ghost before = bank@;
    let outcome = execute(bank, &Instruction::Initialize(*ctx));
    proof {
        if outcome is Ok {
            law_initialized(before, ctx.signer);
        }
    }
    match outcome {
        Ok(Some(Event::AuthorityChanged(event))) => Ok(event),
        Ok(_) => unreached(),
        Err(failure) => Err(failure),
    }
}

/// Hands the vault's authority over to `new_authority`.
///
/// Fails with `OnlyAuthority`, and changes nothing, where the caller is not the
/// authority.
pub fn change_authority(bank: &mut Bank, ctx: &ChangeAuthority, new_authority: Identity) -> (r:
    Result<ChangeAuthorityEvent, Failure>)
    ensures
        final(bank)@ == spec_execute(
            old(bank)@,
            Instruction::ChangeAuthority(*ctx, new_authority),
        ).0,
        r == authority_changed(
            spec_execute(old(bank)@, Instruction::ChangeAuthority(*ctx, new_authority)).1,
        ),
        match old(bank).storage {
            Some(vault) => if vault.data.authority == ctx.signer {
                &&& r == Ok::<ChangeAuthorityEvent, Failure>(
                    ChangeAuthorityEvent { old: vault.data.authority, new: new_authority },
                )
                &&& final(bank)@ == logged(
                    with_data(
                        old(bank)@,
                        vault,
                        InitData { authority: new_authority, ..vault.data },
                    ),
                    Some(
                        Event::AuthorityChanged(
                            ChangeAuthorityEvent { old: vault.data.authority, new: new_authority },
                        ),
                    ),
                )
            } else {
                r == Err::<ChangeAuthorityEvent, Failure>(Failure::Code(ErrorCode2::OnlyAuthority))
            },
            None => r == Err::<ChangeAuthorityEvent, Failure>(
                Failure::Refused(Refusal::UninitializedAccount),
            ),
        },
        r is Err ==> *final(bank) == *old(bank),
{
    proof {
        assert(spec_run(old(bank)@, Seq::<Step>::empty()) == Ok::<BankView, Failure>(old(bank)@));
    }
    match execute(bank, &Instruction::ChangeAuthority(*ctx, new_authority)) {
        Ok(Some(Event::AuthorityChanged(event))) => Ok(event),
        Ok(_) => unreached(),
        Err(failure) => Err(failure),
    }
}

/// Takes `amount` of native value from the caller into the vault, mints the
/// same amount of the wrapped token to the caller, and accounts for it.
///
/// Fails with `InvalidAmount` where `amount` is below the configured minimum,
/// before anything is moved; with `TransferFailed` where the native transfer is
/// refused.
pub fn deposit(bank: &mut Bank, ctx: &Deposit, amount: u64) -> (r: Result<DepositEvent, Failure>)
    ensures
        final(bank)@ == spec_execute(old(bank)@, Instruction::Deposit(*ctx, amount)).0,
        r == deposited(spec_execute(old(bank)@, Instruction::Deposit(*ctx, amount)).1),
        old(bank).storage is Some && amount < old(bank).config.min_deposit ==> r == Err::<
            DepositEvent,
            Failure,
        >(Failure::Code(ErrorCode2::InvalidAmount)),
        r matches Ok(event) ==> old(bank).storage matches Some(vault) && event == (DepositEvent {
            from: ctx.signer,
            to: vault.key,
            amount,
        }),
        r is Ok ==> forall|who: Identity|
            changed_by(
                old(bank)@,
                final(bank)@,
                #[trigger] instruction_effect(old(bank)@, Instruction::Deposit(*ctx, amount), who),
                who,
            ),
        r is Err ==> *final(bank) == *old(bank),
{
    proof {
        law_executed(bank@, Instruction::Deposit(*ctx, amount));
    }
    match execute(bank, &Instruction::Deposit(*ctx, amount)) {
        Ok(Some(Event::Deposited(event))) => Ok(event),
        Ok(_) => unreached(),
        Err(failure) => Err(failure),
    }
}

/// Burns `amount` of the wrapped token from the caller's account, pays the
/// same amount of native value out of the vault to the caller, and takes it off
/// what the vault accounts for.
///
/// Fails with `WithdrawFailed`, and changes nothing, where `amount` is more
/// than the vault accounts for.
pub fn withdraw(bank: &mut Bank, ctx: &Withdraw, amount: u64) -> (r: Result<WithdrawEvent, Failure>)
    ensures
        final(bank)@ == spec_execute(old(bank)@, Instruction::Withdraw(*ctx, amount)).0,
        r == withdrawn(spec_execute(old(bank)@, Instruction::Withdraw(*ctx, amount)).1),
        old(bank).storage matches Some(vault) && amount > vault.data.amount ==> r == Err::<
            WithdrawEvent,
            Failure,
        >(Failure::Code(ErrorCode2::WithdrawFailed)),
        old(bank).storage matches Some(vault) && amount > vault.lamports ==> r is Err,
        old(bank).storage matches Some(vault) && amount <= vault.data.amount && amount
            > vault.lamports && crate::token::spec_burn(
            old(bank)@.wrapped,
            ctx.signer,
            amount,
            ctx.signer,
        ) is Ok ==> r == Err::<WithdrawEvent, Failure>(Failure::Code(ErrorCode2::TransferFailed)),
        r matches Ok(event) ==> old(bank).storage matches Some(vault) && event == (WithdrawEvent {
            from: vault.key,
            to: ctx.signer,
            amount,
        }),
        r is Ok ==> forall|who: Identity|
            changed_by(
                old(bank)@,
                final(bank)@,
                #[trigger] instruction_effect(old(bank)@, Instruction::Withdraw(*ctx, amount), who),
                who,
            ),
        r is Err ==> *final(bank) == *old(bank),
{
    proof {
        law_executed(bank@, Instruction::Withdraw(*ctx, amount));
        if bank.storage matches Some(vault) && amount > vault.lamports {
            law_withdraw_beyond_backing(bank@, ctx.signer, amount);
        }
    }
    match execute(bank, &Instruction::Withdraw(*ctx, amount)) {
        Ok(Some(Event::Withdrawn(event))) => Ok(event),
        Ok(_) => unreached(),
        Err(failure) => Err(failure),
    }
}

/// Moves `amount` of the wrapped token from the caller's account to that of
/// `ctx.to`, which is opened if need be. The vault's record stays as it is.
pub fn transfer_weth(bank: &mut Bank, ctx: &TransferWeth, amount: u64) -> (r: Result<(), Failure>)
    ensures
        final(bank)@ == spec_execute(old(bank)@, Instruction::TransferWeth(*ctx, amount)).0,
        r == unlogged(spec_execute(old(bank)@, Instruction::TransferWeth(*ctx, amount)).1),
        r is Ok ==> final(bank)@.storage == old(bank)@.storage && final(bank)@.log == old(bank)@.log,
        r is Ok ==> forall|who: Identity|
            changed_by(
                old(bank)@,
                final(bank)@,
                #[trigger] instruction_effect(old(bank)@, Instruction::TransferWeth(*ctx, amount), who),
                who,
            ),
        r is Err ==> *final(bank) == *old(bank),
{
    proof {
        law_executed(bank@, Instruction::TransferWeth(*ctx, amount));
    }
    match execute(bank, &Instruction::TransferWeth(*ctx, amount)) {
        Ok(_) => Ok(()),
        Err(failure) => Err(failure),
    }
}

/// Has the caller approve the vault as delegate for `amount`, and the vault
/// move that amount from the caller's account to that of `ctx.to`. Where the
/// approval is refused the transfer is not attempted; where the transfer is
/// refused the approval does not stand.
pub fn approve_transfer_weth(bank: &mut Bank, ctx: &TransferWeth, amount: u64) -> (r: Result<
    (),
    Failure,
>)
    ensures
        final(bank)@ == spec_execute(old(bank)@, Instruction::ApproveTransferWeth(*ctx, amount)).0,
        r == unlogged(spec_execute(old(bank)@, Instruction::ApproveTransferWeth(*ctx, amount)).1),
        r is Ok ==> final(bank)@.storage == old(bank)@.storage && final(bank)@.log == old(bank)@.log,
        r is Ok ==> forall|who: Identity|
            changed_by(
                old(bank)@,
                final(bank)@,
                #[trigger] instruction_effect(old(bank)@, Instruction::ApproveTransferWeth(*ctx, amount), who),
                who,
            ),
        r is Err ==> *final(bank) == *old(bank),
{
    proof {
        law_executed(bank@, Instruction::ApproveTransferWeth(*ctx, amount));
    }
    match execute(bank, &Instruction::ApproveTransferWeth(*ctx, amount)) {
        Ok(_) => Ok(()),
        Err(failure) => Err(failure),
    }
}

/// Pays all that the vault accounts for out of the vault to its authority.
///
/// What the vault accounts for stays as it is: the sweep takes the backing and
/// leaves the claims. Until the backing is restored, a withdrawal of more than
/// the vault still holds fails at its payout and changes nothing
/// (`law_sweep_policy`).
///
/// Fails with `OnlyAuthority` where the caller is not the authority.
pub fn withdraw_only_authority(bank: &mut Bank, ctx: &WithdrawAuthority) -> (r: Result<
    WithdrawEvent,
    Failure,
>)
    ensures
        final(bank)@ == spec_execute(old(bank)@, Instruction::WithdrawOnlyAuthority(*ctx)).0,
        r == withdrawn(spec_execute(old(bank)@, Instruction::WithdrawOnlyAuthority(*ctx)).1),
        old(bank).storage matches Some(vault) && vault.data.authority != ctx.authority ==> r
            == Err::<WithdrawEvent, Failure>(Failure::Code(ErrorCode2::OnlyAuthority)),
        r matches Ok(event) ==> old(bank).storage matches Some(vault) && event == (WithdrawEvent {
            from: vault.key,
            to: ctx.authority,
            amount: vault.data.amount,
        }) && final(bank)@.storage == Some(
            VaultAccount { lamports: (vault.lamports - vault.data.amount) as u64, ..vault },
        ),
        r is Ok ==> forall|who: Identity|
            changed_by(
                old(bank)@,
                final(bank)@,
                #[trigger] instruction_effect(old(bank)@, Instruction::WithdrawOnlyAuthority(*ctx), who),
                who,
            ),
        r is Err ==> *final(bank) == *old(bank),
{
    proof {
        law_executed(bank@, Instruction::WithdrawOnlyAuthority(*ctx));
    }
    match execute(bank, &Instruction::WithdrawOnlyAuthority(*ctx)) {
        Ok(Some(Event::Withdrawn(event))) => Ok(event),
        Ok(_) => unreached(),
        Err(failure) => Err(failure),
    }
}

/// The sweep of a deployment whose privileged role is the owner: as
/// `withdraw_only_authority` in everything, the error of a caller who is not
/// the owner included, which is `OnlyAuthority`.
pub fn withdraw_only_owner(bank: &mut Bank, ctx: &WithdrawOwner) -> (r: Result<
    WithdrawEvent,
    Failure,
>)
    ensures
        final(bank)@ == spec_execute(old(bank)@, Instruction::WithdrawOnlyOwner(*ctx)).0,
        r == withdrawn(spec_execute(old(bank)@, Instruction::WithdrawOnlyOwner(*ctx)).1),
        old(bank).storage matches Some(vault) && vault.data.authority != ctx.signer ==> r == Err::<
            WithdrawEvent,
            Failure,
        >(Failure::Code(ErrorCode2::OnlyAuthority)),
        r matches Ok(event) ==> old(bank).storage matches Some(vault) && event == (WithdrawEvent {
            from: vault.key,
            to: ctx.signer,
            amount: vault.data.amount,
        }) && final(bank)@.storage == Some(
            VaultAccount { lamports: (vault.lamports - vault.data.amount) as u64, ..vault },
        ),
        r is Ok ==> forall|who: Identity|
            changed_by(
                old(bank)@,
                final(bank)@,
                #[trigger] instruction_effect(old(bank)@, Instruction::WithdrawOnlyOwner(*ctx), who),
                who,
            ),
        r is Err ==> *final(bank) == *old(bank),
{
    proof {
        law_executed(bank@, Instruction::WithdrawOnlyOwner(*ctx));
    }
    match execute(bank, &Instruction::WithdrawOnlyOwner(*ctx)) {
        Ok(Some(Event::Withdrawn(event))) => Ok(event),
        Ok(_) => unreached(),
        Err(failure) => Err(failure),
    }
}

/// Creates the faucet's mint with the caller as its authority and mints
/// `FAUCET_AMOUNT` of its token to the caller. The wrapped token and the vault
/// stay as they are.
pub fn create_token_2022(bank: &mut Bank, ctx: &CreateToken2022) -> (r: Result<(), Failure>)
    ensures
        final(bank)@ == spec_execute(old(bank)@, Instruction::CreateToken2022(*ctx)).0,
        r == unlogged(spec_execute(old(bank)@, Instruction::CreateToken2022(*ctx)).1),
        r is Ok ==> forall|who: Identity|
            changed_by(
                old(bank)@,
                final(bank)@,
                #[trigger] instruction_effect(old(bank)@, Instruction::CreateToken2022(*ctx), who),
                who,
            ),
        r is Err ==> *final(bank) == *old(bank),
{
    proof {
        law_executed(bank@, Instruction::CreateToken2022(*ctx));
    }
    match execute(bank, &Instruction::CreateToken2022(*ctx)) {
        Ok(_) => Ok(()),
        Err(failure) => Err(failure),
    }
}

} // verus!
