use wsol_vault::bank::Bank;
use wsol_vault::errors::{ErrorCode2, Failure, Refusal};
use wsol_vault::events::{ChangeAuthorityEvent, DepositEvent, Event, WithdrawEvent};
use wsol_vault::identity::Identity;
use wsol_vault::instructions::{
    approve_transfer_weth, change_authority, create_token_2022, deposit, initialize,
    transfer_weth, withdraw, withdraw_only_authority, withdraw_only_owner, ChangeAuthority,
    CreateToken2022, Deposit, Initialize, TransferWeth, Withdraw, WithdrawAuthority,
    WithdrawOwner, FAUCET_AMOUNT,
};
use wsol_vault::state::{Config, MIN_DEPOSIT};

fn id(n: u8) -> Identity {
    Identity { bytes: [n; 32] }
}

fn open_config() -> Config {
    Config { deployer: None, ..Config::wsol() }
}

/// A bank initialized by identity 1, with identity 2 holding 10 SOL.
fn started() -> Bank {
    let mut bank = Bank::new(open_config(), id(9));
    initialize(&mut bank, &Initialize { signer: id(1) }).unwrap();
    bank.fund(&id(2), 10_000_000_000).unwrap();
    bank
}

fn sum_of_balances(bank: &Bank) -> u64 {
    bank.wrapped.holders.iter().map(|holder| holder.amount).sum()
}

#[test]
fn scenario_initialize_starts_at_zero() {
    let mut bank = Bank::new(open_config(), id(9));
    let event = initialize(&mut bank, &Initialize { signer: id(1) }).unwrap();
    assert_eq!(event, ChangeAuthorityEvent { old: Identity::null(), new: id(1) });
    assert_eq!(bank.accounted_amount(), 0);
    assert_eq!(bank.authority(), Some(id(1)));
    assert_eq!(bank.vault_lamports(), 0);
    assert_eq!(bank.log, vec![Event::AuthorityChanged(event)]);
    let mint = bank.wrapped.mint.unwrap();
    let vault = bank.storage.unwrap();
    assert_eq!(mint.authority, vault.key);
    assert_eq!(mint.freeze_authority, vault.key);
    assert_eq!(mint.decimals, 9);
    assert_eq!(mint.supply, 0);
}

#[test]
fn scenario_deposit_two_sol() {
    let mut bank = started();
    let event = deposit(&mut bank, &Deposit { signer: id(2) }, 2_000_000_000).unwrap();
    let vault = bank.storage.unwrap();
    assert_eq!(event, DepositEvent { from: id(2), to: vault.key, amount: 2_000_000_000 });
    assert_eq!(bank.accounted_amount(), 2_000_000_000);
    assert_eq!(bank.balance(&id(2)), 2_000_000_000);
    assert_eq!(bank.vault_lamports(), 2_000_000_000);
    assert_eq!(bank.lamports(&id(2)), 8_000_000_000);
    assert_eq!(bank.wrapped.supply(), 2_000_000_000);
    assert_eq!(bank.log.last(), Some(&Event::Deposited(event)));
}

#[test]
fn scenario_withdraw_one_sol() {
    let mut bank = started();
    deposit(&mut bank, &Deposit { signer: id(2) }, 2_000_000_000).unwrap();
    let event = withdraw(&mut bank, &Withdraw { signer: id(2) }, 1_000_000_000).unwrap();
    let vault = bank.storage.unwrap();
    assert_eq!(event, WithdrawEvent { from: vault.key, to: id(2), amount: 1_000_000_000 });
    assert_eq!(bank.accounted_amount(), 1_000_000_000);
    assert_eq!(bank.balance(&id(2)), 1_000_000_000);
    assert_eq!(bank.lamports(&id(2)), 9_000_000_000);
    assert_eq!(bank.vault_lamports(), 1_000_000_000);
    assert_eq!(bank.log.last(), Some(&Event::Withdrawn(event)));
}

#[test]
fn scenario_withdraw_more_than_accounted() {
    let mut bank = started();
    deposit(&mut bank, &Deposit { signer: id(2) }, 2_000_000_000).unwrap();
    withdraw(&mut bank, &Withdraw { signer: id(2) }, 1_000_000_000).unwrap();
    let before = bank.duplicate();
    let outcome = withdraw(&mut bank, &Withdraw { signer: id(2) }, 5_000_000_000);
    assert_eq!(outcome, Err(Failure::Code(ErrorCode2::WithdrawFailed)));
    assert_eq!(bank.storage, before.storage);
    assert_eq!(bank.wrapped.holders, before.wrapped.holders);
    assert_eq!(bank.wrapped.mint, before.wrapped.mint);
    assert_eq!(bank.wallets, before.wallets);
    assert_eq!(bank.log, before.log);
}

#[test]
fn scenario_approve_and_transfer() {
    let mut bank = started();
    deposit(&mut bank, &Deposit { signer: id(2) }, 2_000_000_000).unwrap();
    let ctx = TransferWeth { signer: id(2), to: id(3) };
    assert_eq!(approve_transfer_weth(&mut bank, &ctx, 500_000_000), Ok(()));
    assert_eq!(bank.balance(&id(3)), 500_000_000);
    assert_eq!(bank.balance(&id(2)), 1_500_000_000);
    assert_eq!(bank.accounted_amount(), 2_000_000_000);
    let source = bank.wrapped.holders[bank.wrapped.find(&id(2)).unwrap()];
    assert_eq!(source.delegate, None);
    assert_eq!(source.delegated_amount, 0);
}

#[test]
fn scenario_change_authority_by_stranger() {
    let mut bank = started();
    let before = bank.duplicate();
    let outcome = change_authority(&mut bank, &ChangeAuthority { signer: id(5) }, id(5));
    assert_eq!(outcome, Err(Failure::Code(ErrorCode2::OnlyAuthority)));
    assert_eq!(bank.authority(), Some(id(1)));
    assert_eq!(bank.storage, before.storage);
    assert_eq!(bank.log, before.log);
}

#[test]
fn change_authority_by_the_authority() {
    let mut bank = started();
    let event = change_authority(&mut bank, &ChangeAuthority { signer: id(1) }, id(4)).unwrap();
    assert_eq!(event, ChangeAuthorityEvent { old: id(1), new: id(4) });
    assert_eq!(bank.authority(), Some(id(4)));
    assert_eq!(bank.accounted_amount(), 0);
    assert_eq!(bank.log.last(), Some(&Event::AuthorityChanged(event)));
    let again = change_authority(&mut bank, &ChangeAuthority { signer: id(1) }, id(1));
    assert_eq!(again, Err(Failure::Code(ErrorCode2::OnlyAuthority)));
}

#[test]
fn accounted_amount_is_the_sum_of_balances() {
    let mut bank = started();
    bank.fund(&id(3), 7_000_000_000).unwrap();
    assert_eq!(bank.accounted_amount(), sum_of_balances(&bank));
    deposit(&mut bank, &Deposit { signer: id(2) }, 3_000_000_000).unwrap();
    assert_eq!(bank.accounted_amount(), sum_of_balances(&bank));
    deposit(&mut bank, &Deposit { signer: id(3) }, 1_500_000_000).unwrap();
    assert_eq!(bank.accounted_amount(), sum_of_balances(&bank));
    transfer_weth(&mut bank, &TransferWeth { signer: id(2), to: id(4) }, 1_000_000_000).unwrap();
    assert_eq!(bank.accounted_amount(), sum_of_balances(&bank));
    withdraw(&mut bank, &Withdraw { signer: id(4) }, 250_000_000).unwrap();
    assert_eq!(bank.accounted_amount(), sum_of_balances(&bank));
    withdraw(&mut bank, &Withdraw { signer: id(3) }, 1_500_000_000).unwrap();
    assert_eq!(bank.accounted_amount(), 2_750_000_000);
    assert_eq!(sum_of_balances(&bank), 2_750_000_000);
    assert_eq!(bank.wrapped.supply(), 2_750_000_000);
    assert_eq!(bank.vault_lamports(), 2_750_000_000);
}

#[test]
fn deposit_then_withdraw_restores() {
    let mut bank = started();
    deposit(&mut bank, &Deposit { signer: id(2) }, 1_000_000_000).unwrap();
    let before = bank.duplicate();
    deposit(&mut bank, &Deposit { signer: id(2) }, 4_000_000_000).unwrap();
    withdraw(&mut bank, &Withdraw { signer: id(2) }, 4_000_000_000).unwrap();
    assert_eq!(bank.accounted_amount(), before.accounted_amount());
    assert_eq!(bank.balance(&id(2)), before.balance(&id(2)));
    assert_eq!(bank.lamports(&id(2)), before.lamports(&id(2)));
    assert_eq!(bank.vault_lamports(), before.vault_lamports());
}

#[test]
fn deposit_below_the_minimum() {
    let mut bank = started();
    let before = bank.duplicate();
    let outcome = deposit(&mut bank, &Deposit { signer: id(2) }, MIN_DEPOSIT - 1);
    assert_eq!(outcome, Err(Failure::Code(ErrorCode2::InvalidAmount)));
    assert_eq!(bank.lamports(&id(2)), 10_000_000_000);
    assert_eq!(bank.vault_lamports(), 0);
    assert_eq!(bank.wallets, before.wallets);
    assert_eq!(bank.wrapped.holders, before.wrapped.holders);
    assert_eq!(deposit(&mut bank, &Deposit { signer: id(2) }, MIN_DEPOSIT).is_ok(), true);
}

#[test]
fn deposit_without_a_minimum() {
    let config = Config { deployer: None, min_deposit: 0, ..Config::wsol() };
    let mut bank = Bank::new(config, id(9));
    initialize(&mut bank, &Initialize { signer: id(1) }).unwrap();
    bank.fund(&id(2), 10).unwrap();
    deposit(&mut bank, &Deposit { signer: id(2) }, 3).unwrap();
    assert_eq!(bank.accounted_amount(), 3);
    assert_eq!(bank.balance(&id(2)), 3);
}

#[test]
fn deposit_of_more_than_the_wallet_holds() {
    let mut bank = started();
    let before = bank.duplicate();
    let outcome = deposit(&mut bank, &Deposit { signer: id(2) }, 10_000_000_001);
    assert_eq!(outcome, Err(Failure::Code(ErrorCode2::TransferFailed)));
    assert_eq!(bank.wallets, before.wallets);
    assert_eq!(bank.wrapped.holders, before.wrapped.holders);
    assert_eq!(bank.storage, before.storage);
    let stranger = deposit(&mut bank, &Deposit { signer: id(7) }, 1_000_000_000);
    assert_eq!(stranger, Err(Failure::Code(ErrorCode2::TransferFailed)));
    assert_eq!(bank.wrapped.holders, before.wrapped.holders);
}

#[test]
fn instructions_before_initialization() {
    let mut bank = Bank::new(open_config(), id(9));
    bank.fund(&id(2), 10_000_000_000).unwrap();
    let refused = Failure::Refused(Refusal::UninitializedAccount);
    assert_eq!(deposit(&mut bank, &Deposit { signer: id(2) }, 2_000_000_000), Err(refused));
    assert_eq!(withdraw(&mut bank, &Withdraw { signer: id(2) }, 1), Err(refused));
    assert_eq!(
        transfer_weth(&mut bank, &TransferWeth { signer: id(2), to: id(3) }, 1),
        Err(refused)
    );
    assert_eq!(
        withdraw_only_authority(&mut bank, &WithdrawAuthority { authority: id(2) }),
        Err(refused)
    );
    assert_eq!(
        change_authority(&mut bank, &ChangeAuthority { signer: id(2) }, id(3)),
        Err(Failure::Refused(Refusal::UninitializedAccount))
    );
    assert_eq!(bank.accounted_amount(), 0);
    assert_eq!(bank.authority(), None);
}

#[test]
fn initialize_twice() {
    let mut bank = started();
    let before = bank.duplicate();
    let outcome = initialize(&mut bank, &Initialize { signer: id(5) });
    assert_eq!(outcome, Err(Failure::Refused(Refusal::AlreadyInUse)));
    assert_eq!(bank.storage, before.storage);
    assert_eq!(bank.authority(), Some(id(1)));
}

#[test]
fn initialize_by_the_named_deployer_only() {
    let deployer = Identity::from_base58("3hDmGyaiLbav54TkKyrBUmM5WvNQrvdkrB6bwaThCkeu").unwrap();
    let mut bank = Bank::new(Config::wsol(), id(9));
    let outcome = initialize(&mut bank, &Initialize { signer: id(1) });
    assert_eq!(outcome, Err(Failure::Refused(Refusal::AddressMismatch)));
    assert_eq!(bank.storage, None);
    let event = initialize(&mut bank, &Initialize { signer: deployer }).unwrap();
    assert_eq!(event.new, deployer);
    assert_eq!(bank.authority(), Some(deployer));
    let mut weth = Bank::new(Config::weth(), id(9));
    assert_eq!(
        initialize(&mut weth, &Initialize { signer: id(1) }),
        Err(Failure::Refused(Refusal::AddressMismatch))
    );
    assert_eq!(initialize(&mut weth, &Initialize { signer: deployer }).is_ok(), true);
}

#[test]
fn initialize_with_an_unreadable_deployer() {
    let config = Config { deployer: Some("not base58 0OIl"), ..Config::wsol() };
    let mut bank = Bank::new(config, id(9));
    assert_eq!(
        initialize(&mut bank, &Initialize { signer: id(1) }),
        Err(Failure::Refused(Refusal::AddressMismatch))
    );
}

#[test]
fn initialize_with_a_seed_that_is_too_long() {
    let config = Config {
        deployer: None,
        storage_seed: "a seed of more than thirty-two bytes",
        ..Config::wsol()
    };
    let mut bank = Bank::new(config, id(9));
    assert_eq!(
        initialize(&mut bank, &Initialize { signer: id(1) }),
        Err(Failure::Refused(Refusal::InvalidSeeds))
    );
    assert_eq!(bank.storage, None);
}

#[test]
fn metadata_is_registered_where_configured() {
    let bank = started();
    let metadata = bank.metadata.unwrap();
    assert_eq!(metadata.name, "Wrapped Ether");
    assert_eq!(metadata.symbol, "WETH");
    assert_eq!(metadata.uri, "https://weth.io");
    assert_eq!(metadata.seller_fee_basis_points, 0);
    assert_eq!(metadata.is_mutable, true);
    let mut weth = Bank::new(Config { deployer: None, ..Config::weth() }, id(9));
    initialize(&mut weth, &Initialize { signer: id(1) }).unwrap();
    assert_eq!(weth.metadata, None);
}

#[test]
fn sweep_by_the_authority() {
    let mut bank = started();
    deposit(&mut bank, &Deposit { signer: id(2) }, 2_000_000_000).unwrap();
    let stranger = withdraw_only_authority(&mut bank, &WithdrawAuthority { authority: id(2) });
    assert_eq!(stranger, Err(Failure::Code(ErrorCode2::OnlyAuthority)));
    assert_eq!(bank.vault_lamports(), 2_000_000_000);
    let event = withdraw_only_authority(&mut bank, &WithdrawAuthority { authority: id(1) }).unwrap();
    let vault = bank.storage.unwrap();
    assert_eq!(event, WithdrawEvent { from: vault.key, to: id(1), amount: 2_000_000_000 });
    assert_eq!(bank.lamports(&id(1)), 2_000_000_000);
    assert_eq!(bank.vault_lamports(), 0);
    assert_eq!(bank.accounted_amount(), 2_000_000_000);
    assert_eq!(bank.balance(&id(2)), 2_000_000_000);
}

#[test]
fn withdraw_after_a_sweep_changes_nothing() {
    let mut bank = started();
    deposit(&mut bank, &Deposit { signer: id(2) }, 2_000_000_000).unwrap();
    withdraw_only_authority(&mut bank, &WithdrawAuthority { authority: id(1) }).unwrap();
    let before = bank.duplicate();
    let outcome = withdraw(&mut bank, &Withdraw { signer: id(2) }, 1_000_000_000);
    assert_eq!(outcome, Err(Failure::Code(ErrorCode2::TransferFailed)));
    assert_eq!(bank.balance(&id(2)), 2_000_000_000);
    assert_eq!(bank.wrapped.holders, before.wrapped.holders);
    assert_eq!(bank.wrapped.mint, before.wrapped.mint);
    assert_eq!(bank.storage, before.storage);
    let sweep_again = withdraw_only_authority(&mut bank, &WithdrawAuthority { authority: id(1) });
    assert_eq!(sweep_again, Err(Failure::Code(ErrorCode2::TransferFailed)));
}

#[test]
fn sweep_by_the_owner() {
    let mut bank = Bank::new(Config { deployer: None, ..Config::weth() }, id(9));
    initialize(&mut bank, &Initialize { signer: id(1) }).unwrap();
    bank.fund(&id(2), 5_000_000_000).unwrap();
    deposit(&mut bank, &Deposit { signer: id(2) }, 1_000_000_000).unwrap();
    let stranger = withdraw_only_owner(&mut bank, &WithdrawOwner { signer: id(2) });
    assert_eq!(stranger, Err(Failure::Code(ErrorCode2::OnlyAuthority)));
    assert_eq!(bank.vault_lamports(), 1_000_000_000);
    assert_eq!(bank.accounted_amount(), 1_000_000_000);
    assert_eq!(bank.authority(), Some(id(1)));
    assert_eq!(bank.log.len(), 2);
    let event = withdraw_only_owner(&mut bank, &WithdrawOwner { signer: id(1) }).unwrap();
    assert_eq!(event.amount, 1_000_000_000);
    assert_eq!(event.to, id(1));
    assert_eq!(bank.lamports(&id(1)), 1_000_000_000);
    assert_eq!(bank.accounted_amount(), 1_000_000_000);
}

#[test]
fn transfer_between_holders() {
    let mut bank = started();
    deposit(&mut bank, &Deposit { signer: id(2) }, 2_000_000_000).unwrap();
    let ctx = TransferWeth { signer: id(2), to: id(3) };
    assert_eq!(transfer_weth(&mut bank, &ctx, 700_000_000), Ok(()));
    assert_eq!(bank.balance(&id(2)), 1_300_000_000);
    assert_eq!(bank.balance(&id(3)), 700_000_000);
    assert_eq!(bank.accounted_amount(), 2_000_000_000);
    let itself = TransferWeth { signer: id(2), to: id(2) };
    assert_eq!(transfer_weth(&mut bank, &itself, 300_000_000), Ok(()));
    assert_eq!(bank.balance(&id(2)), 1_300_000_000);
    let before = bank.duplicate();
    assert_eq!(
        transfer_weth(&mut bank, &ctx, 1_300_000_001),
        Err(Failure::Refused(Refusal::InsufficientFunds))
    );
    assert_eq!(bank.wrapped.holders, before.wrapped.holders);
    let nobody = TransferWeth { signer: id(6), to: id(3) };
    assert_eq!(
        transfer_weth(&mut bank, &nobody, 1),
        Err(Failure::Refused(Refusal::UninitializedAccount))
    );
}

#[test]
fn failed_delegated_transfer_leaves_no_approval() {
    let mut bank = started();
    deposit(&mut bank, &Deposit { signer: id(2) }, 2_000_000_000).unwrap();
    let before = bank.duplicate();
    let ctx = TransferWeth { signer: id(2), to: id(3) };
    assert_eq!(
        approve_transfer_weth(&mut bank, &ctx, 2_000_000_001),
        Err(Failure::Refused(Refusal::InsufficientFunds))
    );
    assert_eq!(bank.wrapped.holders, before.wrapped.holders);
    assert_eq!(bank.wrapped.find(&id(3)), None);
    let source = bank.wrapped.holders[bank.wrapped.find(&id(2)).unwrap()];
    assert_eq!(source.delegate, None);
}

#[test]
fn delegated_transfer_with_a_wrong_bump() {
    let mut bank = started();
    deposit(&mut bank, &Deposit { signer: id(2) }, 2_000_000_000).unwrap();
    let mut vault = bank.storage.unwrap();
    vault.data.bump = vault.data.bump.wrapping_sub(1);
    bank.storage = Some(vault);
    let before = bank.duplicate();
    let ctx = TransferWeth { signer: id(2), to: id(3) };
    let outcome = approve_transfer_weth(&mut bank, &ctx, 500_000_000);
    assert_eq!(
        matches!(
            outcome,
            Err(Failure::Refused(Refusal::InvalidSeeds))
                | Err(Failure::Refused(Refusal::OwnerMismatch))
        ),
        true
    );
    assert_eq!(bank.wrapped.holders, before.wrapped.holders);
    let minted = deposit(&mut bank, &Deposit { signer: id(2) }, 1_000_000_000);
    assert_eq!(minted.is_err(), true);
    assert_eq!(bank.lamports(&id(2)), 8_000_000_000);
}

#[test]
fn faucet_mints_its_own_token() {
    let mut bank = started();
    deposit(&mut bank, &Deposit { signer: id(2) }, 2_000_000_000).unwrap();
    assert_eq!(create_token_2022(&mut bank, &CreateToken2022 { user: id(5) }), Ok(()));
    assert_eq!(FAUCET_AMOUNT, 10_000_000_000_000_000);
    assert_eq!(bank.faucet.balance(&id(5)), 10_000_000_000_000_000);
    assert_eq!(bank.faucet.supply(), 10_000_000_000_000_000);
    assert_eq!(bank.faucet.mint.unwrap().authority, id(5));
    assert_eq!(bank.balance(&id(5)), 0);
    assert_eq!(bank.accounted_amount(), 2_000_000_000);
    assert_eq!(bank.wrapped.supply(), 2_000_000_000);
    assert_eq!(
        create_token_2022(&mut bank, &CreateToken2022 { user: id(6) }),
        Err(Failure::Refused(Refusal::AlreadyInUse))
    );
    assert_eq!(bank.faucet.balance(&id(6)), 0);
}

#[test]
fn every_event_is_logged_in_order() {
    let mut bank = started();
    let first = deposit(&mut bank, &Deposit { signer: id(2) }, 2_000_000_000).unwrap();
    let _ = withdraw(&mut bank, &Withdraw { signer: id(2) }, 9_000_000_000);
    let second = withdraw(&mut bank, &Withdraw { signer: id(2) }, 1_000_000_000).unwrap();
    transfer_weth(&mut bank, &TransferWeth { signer: id(2), to: id(3) }, 1).unwrap();
    let third = change_authority(&mut bank, &ChangeAuthority { signer: id(1) }, id(4)).unwrap();
    assert_eq!(
        bank.log,
        vec![
            Event::AuthorityChanged(ChangeAuthorityEvent { old: Identity::null(), new: id(1) }),
            Event::Deposited(first),
            Event::Withdrawn(second),
            Event::AuthorityChanged(third),
        ]
    );
}

#[test]
fn withdrawals_after_a_sweep_follow_the_backing() {
    let mut bank = started();
    bank.fund(&id(3), 5_000_000_000).unwrap();
    deposit(&mut bank, &Deposit { signer: id(2) }, 2_000_000_000).unwrap();
    let record = bank.storage.unwrap().data;
    withdraw_only_authority(&mut bank, &WithdrawAuthority { authority: id(1) }).unwrap();
    assert_eq!(bank.storage.unwrap().data, record);
    assert_eq!(bank.vault_lamports(), 0);
    deposit(&mut bank, &Deposit { signer: id(3) }, 1_000_000_000).unwrap();
    assert_eq!(bank.vault_lamports(), 1_000_000_000);
    assert_eq!(bank.accounted_amount(), 3_000_000_000);
    let before = bank.duplicate();
    let beyond = withdraw(&mut bank, &Withdraw { signer: id(2) }, 1_000_000_001);
    assert_eq!(beyond, Err(Failure::Code(ErrorCode2::TransferFailed)));
    assert_eq!(bank.storage, before.storage);
    assert_eq!(bank.wrapped.holders, before.wrapped.holders);
    assert_eq!(bank.wallets, before.wallets);
    assert_eq!(bank.log, before.log);
    assert_eq!(withdraw(&mut bank, &Withdraw { signer: id(2) }, 1_000_000_000).is_ok(), true);
    assert_eq!(bank.vault_lamports(), 0);
    assert_eq!(bank.accounted_amount(), 2_000_000_000);
    assert_eq!(bank.balance(&id(2)), 1_000_000_000);
}

#[test]
fn a_holder_who_is_its_own_delegate_is_held_to_its_allowance() {
    let mut bank = started();
    deposit(&mut bank, &Deposit { signer: id(2) }, 2_000_000_000).unwrap();
    bank.wrapped.approve(&id(2), id(2), 500_000_000, &id(2)).unwrap();
    let before = bank.duplicate();
    let outcome = withdraw(&mut bank, &Withdraw { signer: id(2) }, 1_000_000_000);
    assert_eq!(outcome, Err(Failure::Refused(Refusal::InsufficientFunds)));
    assert_eq!(bank.wrapped.holders, before.wrapped.holders);
    assert_eq!(bank.storage, before.storage);
    assert_eq!(withdraw(&mut bank, &Withdraw { signer: id(2) }, 500_000_000).is_ok(), true);
    assert_eq!(bank.balance(&id(2)), 1_500_000_000);
    assert_eq!(withdraw(&mut bank, &Withdraw { signer: id(2) }, 1_500_000_000).is_ok(), true);
    assert_eq!(bank.accounted_amount(), 0);
}
