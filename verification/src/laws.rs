//! What holds of the vault whatever is done with it.

use crate::bank::{
    spec_accounted, spec_authority, spec_new, spec_perform, spec_vault_lamports, BankView,
    VaultAccount,
};
use crate::call::{spec_resolve, Authority, Call, Step, Token};
use crate::errors::{ErrorCode2, Failure, Refusal};
use crate::identity::Identity;
use crate::instructions::{
    logged, spec_commit, spec_commit_record, spec_execute, spec_plan, spec_run, Deposit,
    Instruction, Withdraw,
};
use crate::native::{lamports_of, lemma_give_effect, lemma_take_effect};
use crate::state::{Config, InitData};
use crate::token::{
    balance_of, holder_index, lemma_approve_effect, lemma_burn_effect, lemma_mint_effect,
    lemma_open_effect, lemma_transfer_effect, spec_burn, spec_spend, spec_supply, total,
    TokenAccount,
};
use vstd::prelude::*;

verus! {

/// What one call changes, in numbers: the sum of the wrapped balances, `who`'s
/// wrapped balance, the vault's native value, the native value in `who`'s
/// wallet, and what the vault accounts for.
pub struct Effect {
    pub minted: int,
    pub received: int,
    pub vault_gain: int,
    pub wallet_gain: int,
    pub accounted_gain: int,
}

/// The effect of a call that goes through, as `who` sees it.
pub open spec fn effect_of(call: Call, who: Identity) -> Effect {
    let none = Effect { minted: 0, received: 0, vault_gain: 0, wallet_gain: 0, accounted_gain: 0 };
    match call {
        Call::CreateVault { data, .. } => Effect { accounted_gain: data.amount as int, ..none },
        Call::SystemTransfer { from, amount } => Effect {
            vault_gain: amount as int,
            wallet_gain: if who == from {
                -(amount as int)
            } else {
                0
            },
            ..none
        },
        Call::Payout { to, amount } => Effect {
            vault_gain: -(amount as int),
            wallet_gain: if who == to {
                amount as int
            } else {
                0
            },
            ..none
        },
        Call::MintTo { token: Token::Wrapped, to, amount, .. } => Effect {
            minted: amount as int,
            received: if who == to {
                amount as int
            } else {
                0
            },
            ..none
        },
        Call::Burn { from, amount, .. } => Effect {
            minted: -(amount as int),
            received: if who == from {
                -(amount as int)
            } else {
                0
            },
            ..none
        },
        Call::Transfer { from, to, amount, .. } => Effect {
            received: (if who == to && from != to {
                amount as int
            } else {
                0
            }) - (if who == from && from != to {
                amount as int
            } else {
                0
            }),
            ..none
        },
        _ => none,
    }
}

/// `after` is `before` changed by `effect`, as `who` sees it, with the same
/// configuration and program, and the vault at the same address.
pub open spec fn changed_by(before: BankView, after: BankView, effect: Effect, who: Identity) -> bool {
    &&& after.config == before.config
    &&& after.program == before.program
    &&& total(after.wrapped.holders) == total(before.wrapped.holders) + effect.minted
    &&& spec_supply(after.wrapped) == spec_supply(before.wrapped) + effect.minted
    &&& balance_of(after.wrapped.holders, who) == balance_of(before.wrapped.holders, who)
        + effect.received
    &&& spec_vault_lamports(after) == spec_vault_lamports(before) + effect.vault_gain
    &&& lamports_of(after.wallets, who) == lamports_of(before.wallets, who) + effect.wallet_gain
    &&& spec_accounted(after) == spec_accounted(before) + effect.accounted_gain
    &&& before.storage matches Some(vault) ==> after.storage matches Some(kept) && kept.key
        == vault.key
    &&& before.wrapped.mint matches Some(mint) ==> after.wrapped.mint matches Some(kept)
        && kept.authority == mint.authority
}

/// `after` has the log of `before`, and the vault's record where `before` has
/// a vault.
pub open spec fn record_kept(before: BankView, after: BankView) -> bool {
    &&& after.log == before.log
    &&& before.storage matches Some(vault) ==> after.storage matches Some(kept) && kept.data
        == vault.data
}

/// A call that goes through changes the bank by its effect.
pub proof fn lemma_perform_effect(bank: BankView, call: Call, who: Identity)
    requires
        spec_perform(bank, call) is Ok,
    ensures
        changed_by(bank, spec_perform(bank, call)->Ok_0, effect_of(call, who), who),
        record_kept(bank, spec_perform(bank, call)->Ok_0),
{
    reveal(spec_perform);
    match call {
        Call::CreateMint { token, .. } => {},
        Call::OpenAccount { token, owner } => {
            lemma_open_effect(crate::bank::ledger_of(bank, token), owner, who);
        },
        Call::SystemTransfer { from, amount } => {
            lemma_take_effect(bank.wallets, from, amount, who);
        },
        Call::Payout { to, amount } => {
            lemma_give_effect(bank.wallets, to, amount, who);
        },
        Call::MintTo { token, to, amount, authority } => {
            let signer = spec_resolve(authority, bank.program).unwrap();
            lemma_mint_effect(crate::bank::ledger_of(bank, token), to, amount, signer, who);
        },
        Call::Burn { from, amount, authority } => {
            let signer = spec_resolve(authority, bank.program).unwrap();
            lemma_burn_effect(bank.wrapped, from, amount, signer, who);
        },
        Call::Transfer { from, to, amount, authority } => {
            let signer = spec_resolve(authority, bank.program).unwrap();
            lemma_transfer_effect(bank.wrapped, from, to, amount, signer, who);
        },
        Call::Approve { account, delegate, amount, authority } => {
            let signer = spec_resolve(authority, bank.program).unwrap();
            lemma_approve_effect(bank.wrapped, account, delegate, amount, signer, who);
        },
        _ => {},
    }
}

/// Two effects, one after the other.
pub open spec fn plus(first: Effect, second: Effect) -> Effect {
    Effect {
        minted: first.minted + second.minted,
        received: first.received + second.received,
        vault_gain: first.vault_gain + second.vault_gain,
        wallet_gain: first.wallet_gain + second.wallet_gain,
        accounted_gain: first.accounted_gain + second.accounted_gain,
    }
}

/// The effect of steps that all go through, as `who` sees it.
pub open spec fn run_effect(steps: Seq<Step>, who: Identity) -> Effect
    decreases steps.len(),
{
    if steps.len() == 0 {
        Effect { minted: 0, received: 0, vault_gain: 0, wallet_gain: 0, accounted_gain: 0 }
    } else {
        plus(effect_of(steps[0].call, who), run_effect(steps.drop_first(), who))
    }
}

/// Steps that all go through change the bank by their effects together, and
/// keep the log and the vault's record.
pub proof fn lemma_run_effect(bank: BankView, steps: Seq<Step>, who: Identity)
    requires
        spec_run(bank, steps) is Ok,
    ensures
        changed_by(bank, spec_run(bank, steps)->Ok_0, run_effect(steps, who), who),
        record_kept(bank, spec_run(bank, steps)->Ok_0),
    decreases steps.len(),
{
    if steps.len() > 0 {
        let next = spec_perform(bank, steps[0].call)->Ok_0;
        lemma_perform_effect(bank, steps[0].call, who);
        lemma_run_effect(next, steps.drop_first(), who);
    }
}

/// The effect of up to three steps is the sum of their effects.
pub proof fn lemma_run_effect_unfolded(a: Step, b: Step, c: Step, who: Identity)
    ensures
        run_effect(Seq::empty(), who) == (Effect {
            minted: 0,
            received: 0,
            vault_gain: 0,
            wallet_gain: 0,
            accounted_gain: 0,
        }),
        run_effect(seq![a], who) == effect_of(a.call, who),
        run_effect(seq![a, b], who) == plus(effect_of(a.call, who), effect_of(b.call, who)),
        run_effect(seq![a, b, c], who) == plus(
            effect_of(a.call, who),
            plus(effect_of(b.call, who), effect_of(c.call, who)),
        ),
{
    reveal_with_fuel(run_effect, 4);
    assert(seq![a].drop_first() =~= Seq::<Step>::empty());
    assert(seq![b].drop_first() =~= Seq::<Step>::empty());
    assert(seq![c].drop_first() =~= Seq::<Step>::empty());
    assert(seq![a, b].drop_first() =~= seq![b]);
    assert(seq![b, c].drop_first() =~= seq![c]);
    assert(seq![a, b, c].drop_first() =~= seq![b, c]);
}

/// What an instruction that goes through changes, in numbers, as `who` sees
/// it.
pub open spec fn instruction_effect(bank: BankView, instruction: Instruction, who: Identity) -> Effect {
    let none = Effect { minted: 0, received: 0, vault_gain: 0, wallet_gain: 0, accounted_gain: 0 };
    match instruction {
        Instruction::Deposit(ctx, amount) => Effect {
            minted: amount as int,
            received: if who == ctx.signer {
                amount as int
            } else {
                0
            },
            vault_gain: amount as int,
            wallet_gain: if who == ctx.signer {
                -(amount as int)
            } else {
                0
            },
            accounted_gain: amount as int,
        },
        Instruction::Withdraw(ctx, amount) => Effect {
            minted: -(amount as int),
            received: if who == ctx.signer {
                -(amount as int)
            } else {
                0
            },
            vault_gain: -(amount as int),
            wallet_gain: if who == ctx.signer {
                amount as int
            } else {
                0
            },
            accounted_gain: -(amount as int),
        },
        Instruction::TransferWeth(ctx, amount) | Instruction::ApproveTransferWeth(ctx, amount) => Effect {
            received: (if who == ctx.to && ctx.signer != ctx.to {
                amount as int
            } else {
                0
            }) - (if who == ctx.signer && ctx.signer != ctx.to {
                amount as int
            } else {
                0
            }),
            ..none
        },
        Instruction::WithdrawOnlyAuthority(ctx) => Effect {
            vault_gain: -(spec_accounted(bank) as int),
            wallet_gain: if who == ctx.authority {
                spec_accounted(bank) as int
            } else {
                0
            },
            ..none
        },
        Instruction::WithdrawOnlyOwner(ctx) => Effect {
            vault_gain: -(spec_accounted(bank) as int),
            wallet_gain: if who == ctx.signer {
                spec_accounted(bank) as int
            } else {
                0
            },
            ..none
        },
        _ => none,
    }
}

/// Every instruction that goes through changes the balances, the vault's
/// native value and what it accounts for by exactly its effect, and adds its
/// event, if it has one, to the log.
pub proof fn law_instruction_effect(bank: BankView, instruction: Instruction, who: Identity)
    requires
        spec_execute(bank, instruction).1 is Ok,
    ensures
        changed_by(
            bank,
            spec_execute(bank, instruction).0,
            instruction_effect(bank, instruction, who),
            who,
        ),
        spec_execute(bank, instruction).0.log == logged(
            bank,
            spec_execute(bank, instruction).1->Ok_0,
        ).log,
{
    let steps = spec_plan(bank.config, bank.program, bank.storage, instruction)->Ok_0;
    let reached = spec_run(bank, steps)->Ok_0;
    lemma_run_effect(bank, steps, who);
    match instruction {
        Instruction::Initialize(ctx) => {
            let vault = Identity::spec_found(bank.config.storage_seed@, bank.program).unwrap();
            let mint = Identity::spec_found(bank.config.mint_seed@, bank.program).unwrap();
            let full = crate::instructions::spec_initialize_steps(
                bank.config,
                ctx.signer,
                vault,
                mint,
            );
            assert(steps == full);
            match crate::instructions::spec_metadata_step(bank.config, vault.1) {
                Some(step) => {
                    assert(full =~= seq![full[0], full[1], step]);
                    lemma_run_effect_unfolded(full[0], full[1], step, who);
                },
                None => {
                    assert(full =~= seq![full[0], full[1]]);
                    lemma_run_effect_unfolded(full[0], full[1], full[1], who);
                },
            }
        },
        Instruction::CreateToken2022(_) => {
            assert(steps =~= seq![steps[0], steps[1], steps[2]]);
            lemma_run_effect_unfolded(steps[0], steps[1], steps[2], who);
        },
        Instruction::Deposit(_, _) | Instruction::ApproveTransferWeth(_, _) => {
            assert(steps =~= seq![steps[0], steps[1], steps[2]]);
            lemma_run_effect_unfolded(steps[0], steps[1], steps[2], who);
        },
        Instruction::Withdraw(_, _) | Instruction::TransferWeth(_, _) => {
            assert(steps =~= seq![steps[0], steps[1]]);
            lemma_run_effect_unfolded(steps[0], steps[1], steps[1], who);
        },
        Instruction::WithdrawOnlyAuthority(_) | Instruction::WithdrawOnlyOwner(_) => {
            assert(steps =~= seq![steps[0]]);
            lemma_run_effect_unfolded(steps[0], steps[0], steps[0], who);
        },
        Instruction::ChangeAuthority(_, _) => {
            assert(steps =~= Seq::<Step>::empty());
        },
    }
}

/// The instruction went through with the event and the record that it commits
/// on the vault's record as it was before, at the vault's own address.
pub open spec fn committed_on_old_record(bank: BankView, instruction: Instruction) -> bool {
    match (
        bank.storage,
        spec_commit_record(bank.storage->Some_0, instruction),
        spec_execute(bank, instruction).0.storage,
    ) {
        (Some(before), Ok((data, event)), Some(vault)) => {
            &&& spec_execute(bank, instruction).1 == Ok::<Option<crate::events::Event>, Failure>(
                event,
            )
            &&& vault.data == data
            &&& vault.key == before.key
        },
        _ => false,
    }
}

/// An instruction on an initialized vault that goes through commits what it
/// commits in the record as it was before: no step touches the record, and the
/// event names the vault's own address.
pub proof fn law_commit_on_old_record(bank: BankView, instruction: Instruction)
    requires
        spec_execute(bank, instruction).1 is Ok,
        bank.storage is Some,
        !(instruction is CreateToken2022),
    ensures
        committed_on_old_record(bank, instruction),
{
    let steps = spec_plan(bank.config, bank.program, bank.storage, instruction)->Ok_0;
    lemma_run_effect(bank, steps, Identity::spec_null());
}

/// What the instruction functions state of an instruction that goes through,
/// in one place: its effect as every identity sees it, its event at the end
/// of the log, and, on an initialized vault, the commit on the record as it
/// was.
pub proof fn law_executed(bank: BankView, instruction: Instruction)
    ensures
        spec_execute(bank, instruction).1 is Ok ==> {
            &&& forall|who: Identity|
                changed_by(
                    bank,
                    spec_execute(bank, instruction).0,
                    #[trigger] instruction_effect(bank, instruction, who),
                    who,
                )
            &&& spec_execute(bank, instruction).0.log == logged(
                bank,
                spec_execute(bank, instruction).1->Ok_0,
            ).log
            &&& spec_vault_lamports(spec_execute(bank, instruction).0) == spec_vault_lamports(bank)
                + instruction_effect(bank, instruction, Identity::spec_null()).vault_gain
            &&& bank.storage is Some && !(instruction is CreateToken2022) ==> committed_on_old_record(
                bank,
                instruction,
            )
        },
{
    if spec_execute(bank, instruction).1 is Ok {
        assert forall|who: Identity|
            changed_by(
                bank,
                spec_execute(bank, instruction).0,
                #[trigger] instruction_effect(bank, instruction, who),
                who,
            ) by {
            law_instruction_effect(bank, instruction, who);
        }
        law_instruction_effect(bank, instruction, Identity::spec_null());
        if bank.storage is Some && !(instruction is CreateToken2022) {
            law_commit_on_old_record(bank, instruction);
        }
    }
}

/// The vault accounts for exactly the wrapped tokens that exist: the sum of all
/// holders' balances, which is also the mint's supply.
pub open spec fn backed(bank: BankView) -> bool {
    &&& spec_accounted(bank) == total(bank.wrapped.holders)
    &&& spec_supply(bank.wrapped) == total(bank.wrapped.holders)
}

/// The vault holds at least the native value that it accounts for.
pub open spec fn covered(bank: BankView) -> bool {
    spec_accounted(bank) <= spec_vault_lamports(bank)
}

/// Whether `instruction` is one of the two sweeps.
pub open spec fn is_sweep(instruction: Instruction) -> bool {
    instruction is WithdrawOnlyAuthority || instruction is WithdrawOnlyOwner
}

/// The bank after `instructions`, executed in order; one that fails leaves the
/// bank as it was.
pub open spec fn spec_execute_all(bank: BankView, instructions: Seq<Instruction>) -> BankView
    decreases instructions.len(),
{
    if instructions.len() == 0 {
        bank
    } else {
        spec_execute_all(spec_execute(bank, instructions[0]).0, instructions.drop_first())
    }
}

/// A bank before anything happened to it is backed and covered.
pub proof fn law_new_is_backed(config: Config, program: Identity)
    ensures
        backed(spec_new(config, program)),
        covered(spec_new(config, program)),
{
}

/// No instruction, whether it goes through or fails, takes a backed bank to one
/// that is not: what the vault accounts for stays the sum of the wrapped
/// balances.
pub proof fn law_backing_kept(bank: BankView, instruction: Instruction)
    requires
        backed(bank),
    ensures
        backed(spec_execute(bank, instruction).0),
{
    if spec_execute(bank, instruction).1 is Ok {
        law_instruction_effect(bank, instruction, Identity::spec_null());
    }
}

/// No instruction but a sweep takes a covered bank to one that is not: the
/// vault keeps holding the native value that it accounts for.
pub proof fn law_cover_kept(bank: BankView, instruction: Instruction)
    requires
        covered(bank),
        !is_sweep(instruction),
    ensures
        covered(spec_execute(bank, instruction).0),
{
    if spec_execute(bank, instruction).1 is Ok {
        law_instruction_effect(bank, instruction, Identity::spec_null());
    }
}

/// In every state that instructions reach from a backed bank, the vault
/// accounts for exactly the sum of the wrapped balances.
pub proof fn law_backed_always(bank: BankView, instructions: Seq<Instruction>)
    requires
        backed(bank),
    ensures
        backed(spec_execute_all(bank, instructions)),
    decreases instructions.len(),
{
    if instructions.len() > 0 {
        law_backing_kept(bank, instructions[0]);
        law_backed_always(spec_execute(bank, instructions[0]).0, instructions.drop_first());
    }
}

/// In every state that instructions other than sweeps reach from a covered
/// bank, the vault holds the native value that it accounts for.
pub proof fn law_covered_always(bank: BankView, instructions: Seq<Instruction>)
    requires
        covered(bank),
        forall|i: int| 0 <= i < instructions.len() ==> !is_sweep(#[trigger] instructions[i]),
    ensures
        covered(spec_execute_all(bank, instructions)),
    decreases instructions.len(),
{
    if instructions.len() > 0 {
        law_cover_kept(bank, instructions[0]);
        let rest = instructions.drop_first();
        assert forall|i: int| 0 <= i < rest.len() implies !is_sweep(#[trigger] rest[i]) by {
            assert(rest[i] == instructions[i + 1]);
        }
        law_covered_always(spec_execute(bank, instructions[0]).0, rest);
    }
}

/// A deposit followed at once by a withdrawal of the same amount by the same
/// identity, both of which go through, puts back what the vault accounts for,
/// the identity's wrapped balance and native value, the vault's native value,
/// and every other identity's balances.
pub proof fn law_round_trip(bank: BankView, user: Identity, amount: u64, who: Identity)
    requires
        spec_execute(bank, Instruction::Deposit(Deposit { signer: user }, amount)).1 is Ok,
        spec_execute(
            spec_execute(bank, Instruction::Deposit(Deposit { signer: user }, amount)).0,
            Instruction::Withdraw(Withdraw { signer: user }, amount),
        ).1 is Ok,
    ensures
        ({
            let after = spec_execute(
                spec_execute(bank, Instruction::Deposit(Deposit { signer: user }, amount)).0,
                Instruction::Withdraw(Withdraw { signer: user }, amount),
            ).0;
            &&& spec_accounted(after) == spec_accounted(bank)
            &&& balance_of(after.wrapped.holders, who) == balance_of(bank.wrapped.holders, who)
            &&& lamports_of(after.wallets, who) == lamports_of(bank.wallets, who)
            &&& spec_vault_lamports(after) == spec_vault_lamports(bank)
            &&& total(after.wrapped.holders) == total(bank.wrapped.holders)
        }),
{
    let deposit = Instruction::Deposit(Deposit { signer: user }, amount);
    let withdraw = Instruction::Withdraw(Withdraw { signer: user }, amount);
    let middle = spec_execute(bank, deposit).0;
    law_instruction_effect(bank, deposit, who);
    law_instruction_effect(middle, withdraw, who);
}

/// The vault's address is the one that its seed and its recorded bump derive
/// for the program, and the wrapped mint answers to the vault: so the vault's
/// seeds sign where the instructions present them.
pub open spec fn well_derived(bank: BankView) -> bool {
    bank.storage matches Some(vault) ==> {
        &&& Identity::spec_derived(bank.config.storage_seed@, vault.data.bump, bank.program)
            == Some(vault.key)
        &&& bank.wrapped.mint matches Some(mint) && mint.authority == vault.key
    }
}

/// A run of at least one step is its first call, and then, where that call
/// goes through, the run of the rest from where the call leaves the bank; where
/// the call is refused, the failure that its step names.
pub proof fn lemma_run_first(bank: BankView, steps: Seq<Step>)
    requires
        steps.len() > 0,
    ensures
        spec_run(bank, steps) == match spec_perform(bank, steps[0].call) {
            Ok(next) => spec_run(next, steps.drop_first()),
            Err(refusal) => Err(crate::call::spec_failure(steps[0], refusal)),
        },
{
}

/// What the three calls of an initialization do where they go through: the
/// first creates the vault where there is none, the second the wrapped mint,
/// and the third leaves both as they are.
pub proof fn lemma_initializing_calls(bank: BankView, call: Call)
    requires
        spec_perform(bank, call) is Ok,
    ensures
        ({
            let after = spec_perform(bank, call)->Ok_0;
            match call {
                Call::CreateVault { key, data } => {
                    &&& bank.storage is None
                    &&& after.storage == Some(VaultAccount { key, lamports: 0, data })
                },
                Call::CreateMint { token: Token::Wrapped, mint_authority, .. } => {
                    &&& after.storage == bank.storage
                    &&& after.wrapped.mint matches Some(mint) && mint.authority == mint_authority
                },
                Call::RegisterMetadata { .. } => {
                    &&& after.storage == bank.storage
                    &&& after.wrapped == bank.wrapped
                },
                _ => true,
            }
        }),
{
    reveal(spec_perform);
}

/// An initialization that goes through starts the vault with nothing accounted
/// for, the caller as its authority, a mint that answers to the vault, and an
/// address that its recorded bump derives.
pub proof fn law_initialized(bank: BankView, signer: Identity)
    requires
        spec_execute(bank, Instruction::Initialize(crate::instructions::Initialize { signer })).1
            is Ok,
        Identity::found_is_derived(bank.config.storage_seed@, bank.program),
    ensures
        ({
            let after = spec_execute(
                bank,
                Instruction::Initialize(crate::instructions::Initialize { signer }),
            ).0;
            &&& bank.storage is None
            &&& spec_accounted(after) == 0
            &&& spec_authority(after) == Some(signer)
            &&& well_derived(after)
        }),
{
    let instruction = Instruction::Initialize(crate::instructions::Initialize { signer });
    let steps = spec_plan(bank.config, bank.program, bank.storage, instruction)->Ok_0;
    let vault = Identity::spec_found(bank.config.storage_seed@, bank.program).unwrap();
    let mint = Identity::spec_found(bank.config.mint_seed@, bank.program).unwrap();
    assert(steps == crate::instructions::spec_initialize_steps(bank.config, signer, vault, mint));
    let reached = spec_run(bank, steps)->Ok_0;
    lemma_run_first(bank, steps);
    let first = spec_perform(bank, steps[0].call)->Ok_0;
    lemma_initializing_calls(bank, steps[0].call);
    let rest = steps.drop_first();
    lemma_run_first(first, rest);
    let second = spec_perform(first, rest[0].call)->Ok_0;
    lemma_initializing_calls(first, rest[0].call);
    let last = rest.drop_first();
    if last.len() > 0 {
        lemma_run_first(second, last);
        lemma_initializing_calls(second, last[0].call);
        assert(last.drop_first().len() == 0);
    }
    assert(reached.storage == first.storage);
    assert(reached.wrapped.mint == second.wrapped.mint);
    let after = spec_execute(bank, instruction).0;
    assert(steps[0].call == Call::CreateVault {
        key: vault.0,
        data: InitData { amount: 0, bump: vault.1, wethbump: mint.1, authority: signer },
    });
    assert(rest[0].call == Call::CreateMint {
        token: Token::Wrapped,
        key: mint.0,
        mint_authority: vault.0,
        decimals: crate::instructions::DECIMALS,
    });
    assert(spec_commit(reached, instruction) is Ok);
    assert(after.storage == reached.storage);
    assert(after.wrapped == reached.wrapped);
    lemma_run_effect(bank, steps, signer);
    assert(after.config == bank.config && after.program == bank.program);
}

/// No instruction on an initialized vault changes its address, the bump that
/// derives it, or whom the wrapped mint answers to.
pub proof fn law_derivation_kept(bank: BankView, instruction: Instruction)
    requires
        well_derived(bank),
        bank.storage is Some,
    ensures
        well_derived(spec_execute(bank, instruction).0),
{
    if spec_execute(bank, instruction).1 is Ok {
        let steps = spec_plan(bank.config, bank.program, bank.storage, instruction)->Ok_0;
        law_instruction_effect(bank, instruction, Identity::spec_null());
        lemma_run_effect(bank, steps, Identity::spec_null());
    }
}

/// `after` differs from `before` in the ledger of the wrapped token alone.
pub open spec fn only_wrapped_changed(before: BankView, after: BankView) -> bool {
    after == (BankView { wrapped: after.wrapped, ..before })
}

/// When the five calls of a deposit and of a withdrawal are owed success: each
/// goes through where what it needs is there, and leaves the rest of the bank
/// as it was.
pub proof fn lemma_call_goes_through(bank: BankView, call: Call)
    ensures
        ({
            let after = spec_perform(bank, call)->Ok_0;
            match call {
                Call::OpenAccount { token: Token::Wrapped, owner } => bank.wrapped.mint is Some ==> {
                    &&& spec_perform(bank, call) is Ok
                    &&& only_wrapped_changed(bank, after)
                    &&& after.wrapped.mint == bank.wrapped.mint
                    &&& holder_index(after.wrapped.holders, owner) is Some
                },
                Call::SystemTransfer { from, amount } => bank.storage matches Some(vault)
                    && lamports_of(bank.wallets, from) >= amount && vault.lamports + amount
                    <= u64::MAX ==> {
                    &&& spec_perform(bank, call) is Ok
                    &&& after == (BankView {
                        storage: after.storage,
                        wallets: after.wallets,
                        ..bank
                    })
                },
                Call::Payout { to, amount } => bank.storage matches Some(vault) && vault.lamports
                    >= amount && lamports_of(bank.wallets, to) + amount <= u64::MAX ==> {
                    &&& spec_perform(bank, call) is Ok
                    &&& after == (BankView {
                        storage: after.storage,
                        wallets: after.wallets,
                        ..bank
                    })
                },
                Call::MintTo { token: Token::Wrapped, to, amount, authority } => ({
                    &&& bank.wrapped.mint matches Some(mint)
                    &&& spec_resolve(authority, bank.program) == Some(mint.authority)
                    &&& holder_index(bank.wrapped.holders, to) is Some
                    &&& balance_of(bank.wrapped.holders, to) + amount <= u64::MAX
                    &&& mint.supply + amount <= u64::MAX
                }) ==> {
                    &&& spec_perform(bank, call) is Ok
                    &&& only_wrapped_changed(bank, after)
                },
                Call::Burn { from, amount, authority } => ({
                    &&& bank.wrapped.mint matches Some(mint)
                    &&& holder_index(bank.wrapped.holders, from) matches Some(i)
                    &&& spec_spend(bank.wrapped.holders[i], amount, from) is Ok
                    &&& authority == Authority::Signer(from)
                    &&& mint.supply >= amount
                }) ==> {
                    &&& spec_perform(bank, call) is Ok
                    &&& only_wrapped_changed(bank, after)
                },
                _ => true,
            }
        }),
{
    reveal(spec_perform);
    match call {
        Call::OpenAccount { token: Token::Wrapped, owner } => {
            if bank.wrapped.mint is Some {
                lemma_open_effect(bank.wrapped, owner, owner);
            }
        },
        Call::SystemTransfer { from, amount } => {},
        Call::Payout { to, amount } => {
            crate::native::lemma_wallet_index_is(bank.wallets, to);
        },
        _ => {},
    }
}

/// A deposit is owed success where the vault is initialized and well derived,
/// the amount is at least the minimum, the depositor's wallet holds it, and
/// no balance that it raises would pass the largest amount.
pub proof fn law_deposit_goes_through(bank: BankView, user: Identity, amount: u64)
    requires
        well_derived(bank),
        bank.storage is Some,
        bank.config.min_deposit <= amount,
        lamports_of(bank.wallets, user) >= amount,
        spec_vault_lamports(bank) + amount <= u64::MAX,
        spec_accounted(bank) + amount <= u64::MAX,
        spec_supply(bank.wrapped) + amount <= u64::MAX,
        balance_of(bank.wrapped.holders, user) + amount <= u64::MAX,
    ensures
        spec_execute(bank, Instruction::Deposit(Deposit { signer: user }, amount)).1 is Ok,
{
    let instruction = Instruction::Deposit(Deposit { signer: user }, amount);
    let steps = spec_plan(bank.config, bank.program, bank.storage, instruction)->Ok_0;
    assert(steps.len() == 3);
    lemma_call_goes_through(bank, steps[0].call);
    lemma_perform_effect(bank, steps[0].call, user);
    lemma_run_first(bank, steps);
    let first = spec_perform(bank, steps[0].call)->Ok_0;
    let rest = steps.drop_first();
    assert(rest[0] == steps[1]);
    lemma_call_goes_through(first, rest[0].call);
    lemma_perform_effect(first, rest[0].call, user);
    lemma_run_first(first, rest);
    let second = spec_perform(first, rest[0].call)->Ok_0;
    let last = rest.drop_first();
    assert(last[0] == steps[2]);
    assert(second.wrapped == first.wrapped);
    lemma_call_goes_through(second, last[0].call);
    lemma_perform_effect(second, last[0].call, user);
    lemma_run_first(second, last);
    let third = spec_perform(second, last[0].call)->Ok_0;
    assert(last.drop_first().len() == 0);
    assert(spec_run(bank, steps) == Ok::<BankView, Failure>(third));
}

/// A withdrawal is owed success where the vault is initialized and accounts
/// for the amount, the caller's account holds it and the caller may take it,
/// the supply and the vault's native value cover it, and the caller's wallet
/// has room for it.
pub proof fn law_withdraw_goes_through(bank: BankView, user: Identity, amount: u64)
    requires
        bank.storage is Some,
        amount <= spec_accounted(bank),
        holder_index(bank.wrapped.holders, user) matches Some(i) && spec_spend(
            bank.wrapped.holders[i],
            amount,
            user,
        ) is Ok,
        bank.wrapped.mint is Some,
        amount <= spec_supply(bank.wrapped),
        amount <= spec_vault_lamports(bank),
        lamports_of(bank.wallets, user) + amount <= u64::MAX,
    ensures
        spec_execute(bank, Instruction::Withdraw(Withdraw { signer: user }, amount)).1 is Ok,
{
    let instruction = Instruction::Withdraw(Withdraw { signer: user }, amount);
    let steps = spec_plan(bank.config, bank.program, bank.storage, instruction)->Ok_0;
    assert(steps.len() == 2);
    lemma_call_goes_through(bank, steps[0].call);
    lemma_run_first(bank, steps);
    let first = spec_perform(bank, steps[0].call)->Ok_0;
    let rest = steps.drop_first();
    assert(rest[0] == steps[1]);
    lemma_call_goes_through(first, rest[0].call);
    lemma_perform_effect(first, rest[0].call, user);
    lemma_run_first(first, rest);
    let second = spec_perform(first, rest[0].call)->Ok_0;
    assert(rest.drop_first().len() == 0);
    assert(spec_run(bank, steps) == Ok::<BankView, Failure>(second));
}

/// The two calls of a withdrawal, written out: the burning is the ledger's,
/// signed by the holder, and leaves the vault as it is; the payout is refused
/// where the vault holds less than the amount.
pub proof fn lemma_withdrawal_calls(bank: BankView, user: Identity, amount: u64)
    ensures
        spec_perform(
            bank,
            Call::Burn { from: user, amount, authority: Authority::Signer(user) },
        ) == crate::bank::on_ledger(bank, Token::Wrapped, spec_burn(bank.wrapped, user, amount, user)),
        bank.storage matches Some(vault) && vault.lamports < amount ==> spec_perform(
            bank,
            Call::Payout { to: user, amount },
        ) == Err::<BankView, Refusal>(Refusal::InsufficientFunds),
{
    reveal(spec_perform);
}

/// A withdrawal of more than the vault's native value fails and changes
/// nothing; it fails with `TransferFailed` where the vault accounts for the
/// amount and the burning goes through, so that the payout is what fails.
pub proof fn law_withdraw_beyond_backing(bank: BankView, user: Identity, amount: u64)
    requires
        bank.storage matches Some(vault) && amount > vault.lamports,
    ensures
        spec_execute(bank, Instruction::Withdraw(Withdraw { signer: user }, amount)).0 == bank,
        spec_execute(bank, Instruction::Withdraw(Withdraw { signer: user }, amount)).1 is Err,
        amount <= spec_accounted(bank) && spec_burn(bank.wrapped, user, amount, user) is Ok
            ==> spec_execute(bank, Instruction::Withdraw(Withdraw { signer: user }, amount)).1
            == Err::<Option<crate::events::Event>, Failure>(
            Failure::Code(ErrorCode2::TransferFailed),
        ),
{
    let instruction = Instruction::Withdraw(Withdraw { signer: user }, amount);
    if amount <= spec_accounted(bank) {
        let steps = spec_plan(bank.config, bank.program, bank.storage, instruction)->Ok_0;
        assert(steps.len() == 2);
        lemma_withdrawal_calls(bank, user, amount);
        lemma_run_first(bank, steps);
        if spec_perform(bank, steps[0].call) is Ok {
            let burnt = spec_perform(bank, steps[0].call)->Ok_0;
            let rest = steps.drop_first();
            assert(rest[0] == steps[1]);
            lemma_withdrawal_calls(burnt, user, amount);
            lemma_run_first(burnt, rest);
        }
    }
}

/// The policy of the sweep. A sweep that goes through leaves the vault's
/// record as it was, what it accounts for included, and takes exactly that
/// much native value out of the vault. The claims stay without their backing:
/// until it is restored, a withdrawal of more than the vault still holds fails
/// and changes nothing, with `TransferFailed` where the vault accounts for the
/// amount and the burning goes through.
pub proof fn law_sweep_policy(bank: BankView, sweep: Instruction, user: Identity, amount: u64)
    requires
        is_sweep(sweep),
        spec_execute(bank, sweep).1 is Ok,
    ensures
        ({
            let swept = spec_execute(bank, sweep).0;
            let withdraw = Instruction::Withdraw(Withdraw { signer: user }, amount);
            &&& bank.storage matches Some(vault) && swept.storage == Some(
                VaultAccount { lamports: (vault.lamports - vault.data.amount) as u64, ..vault },
            )
            &&& total(swept.wrapped.holders) == total(bank.wrapped.holders)
            &&& amount > spec_vault_lamports(swept) ==> {
                &&& spec_execute(swept, withdraw).0 == swept
                &&& spec_execute(swept, withdraw).1 is Err
                &&& amount <= spec_accounted(swept) && spec_burn(swept.wrapped, user, amount, user)
                    is Ok ==> spec_execute(swept, withdraw).1 == Err::<
                    Option<crate::events::Event>,
                    Failure,
                >(Failure::Code(ErrorCode2::TransferFailed))
            }
        }),
{
    law_executed(bank, sweep);
    let swept = spec_execute(bank, sweep).0;
    if amount > spec_vault_lamports(swept) {
        law_withdraw_beyond_backing(swept, user, amount);
    }
}

/// The delegate that `owner`'s account names, if it has an account and the
/// account names one.
pub open spec fn delegate_of(holders: Seq<TokenAccount>, owner: Identity) -> Option<Identity> {
    match holder_index(holders, owner) {
        Some(i) => holders[i].delegate,
        None => None,
    }
}

/// The three calls of a deposit keep every account's delegate, keep every
/// account that there is, and keep the mint; the opening leaves the owner with
/// an account, and the minting finds the mint there.
pub proof fn lemma_deposit_call_keeps_delegate(bank: BankView, call: Call, user: Identity)
    requires
        spec_perform(bank, call) is Ok,
        call matches Call::OpenAccount { token: Token::Wrapped, .. } || call is SystemTransfer
            || call matches Call::MintTo { token: Token::Wrapped, .. },
    ensures
        ({
            let after = spec_perform(bank, call)->Ok_0;
            &&& delegate_of(after.wrapped.holders, user) == delegate_of(bank.wrapped.holders, user)
            &&& holder_index(bank.wrapped.holders, user) is Some ==> holder_index(
                after.wrapped.holders,
                user,
            ) is Some
            &&& call matches Call::OpenAccount { owner, .. } ==> holder_index(
                after.wrapped.holders,
                owner,
            ) is Some
            &&& after.wrapped.mint is Some == bank.wrapped.mint is Some
            &&& call is MintTo ==> after.wrapped.mint is Some
        }),
{
    reveal(spec_perform);
    match call {
        Call::OpenAccount { owner, .. } => {
            lemma_open_effect(bank.wrapped, owner, user);
            if holder_index(bank.wrapped.holders, owner) is None {
                crate::token::lemma_push_places(
                    bank.wrapped.holders,
                    crate::token::empty_account(owner),
                    user,
                );
                crate::token::lemma_holder_index_is(bank.wrapped.holders, user);
            }
        },
        Call::MintTo { to, amount, .. } => {
            let i = holder_index(bank.wrapped.holders, to).unwrap();
            let account = bank.wrapped.holders[i];
            let credited = TokenAccount { amount: (account.amount + amount) as u64, ..account };
            crate::token::lemma_holder_index_is(bank.wrapped.holders, to);
            crate::token::lemma_holder_index_is(bank.wrapped.holders, user);
            crate::token::lemma_update_keeps_places(bank.wrapped.holders, i, credited, user);
        },
        _ => {},
    }
}

/// After a deposit that went through, the withdrawal of the same amount by the
/// same identity is owed success, unless the identity's own account names the
/// identity itself as its delegate.
pub proof fn law_round_trip_goes_through(bank: BankView, user: Identity, amount: u64)
    requires
        spec_execute(bank, Instruction::Deposit(Deposit { signer: user }, amount)).1 is Ok,
        delegate_of(bank.wrapped.holders, user) != Some(user),
    ensures
        spec_execute(
            spec_execute(bank, Instruction::Deposit(Deposit { signer: user }, amount)).0,
            Instruction::Withdraw(Withdraw { signer: user }, amount),
        ).1 is Ok,
{
    let deposit = Instruction::Deposit(Deposit { signer: user }, amount);
    let middle = spec_execute(bank, deposit).0;
    let steps = spec_plan(bank.config, bank.program, bank.storage, deposit)->Ok_0;
    assert(steps.len() == 3);
    lemma_run_first(bank, steps);
    let first = spec_perform(bank, steps[0].call)->Ok_0;
    lemma_deposit_call_keeps_delegate(bank, steps[0].call, user);
    let rest = steps.drop_first();
    assert(rest[0] == steps[1]);
    lemma_run_first(first, rest);
    let second = spec_perform(first, rest[0].call)->Ok_0;
    lemma_deposit_call_keeps_delegate(first, rest[0].call, user);
    let last = rest.drop_first();
    assert(last[0] == steps[2]);
    lemma_run_first(second, last);
    let third = spec_perform(second, last[0].call)->Ok_0;
    lemma_deposit_call_keeps_delegate(second, last[0].call, user);
    assert(last.drop_first().len() == 0);
    assert(spec_run(bank, steps) == Ok::<BankView, Failure>(third));
    assert(middle.wrapped == third.wrapped);
    law_executed(bank, deposit);
    assert(instruction_effect(bank, deposit, user).received == amount);
    crate::token::lemma_holder_index_is(middle.wrapped.holders, user);
    law_withdraw_goes_through(middle, user, amount);
}

} // verus!
