use anchor_lang::prelude::Pubkey;
use wsol_vault::bank::{Bank, VaultAccount};
use wsol_vault::call::{Authority, Call, Reported, Step, Token};
use wsol_vault::errors::{ErrorCode, ErrorCode2, Failure, Refusal};
use wsol_vault::events::{ChangeAuthorityEvent, DepositEvent, WithdrawEvent};
use wsol_vault::identity::Identity;
use wsol_vault::instructions::{
    execute, faucet_amount, plan, CreateToken2022, Deposit, Initialize, Instruction,
    TransferWeth, Withdraw, WithdrawAuthority,
};
use wsol_vault::native::{give, lamports, take, Wallet};
use wsol_vault::state::{AuthorizationPolicy, Config, InitData, Role, TokenMetadata};
use wsol_vault::token::{spend, TokenAccount, TokenLedger};

fn key(n: u8) -> Identity {
    Identity { bytes: [n; 32] }
}

fn record() -> InitData {
    InitData { amount: 5, bump: 254, wethbump: 253, authority: key(1) }
}

fn vault_account() -> VaultAccount {
    VaultAccount { key: key(8), lamports: 5, data: record() }
}

#[test]
fn null_identity_is_all_zero() {
    assert_eq!(Identity::null().bytes, [0u8; 32]);
    assert_eq!(Identity::from_base58("11111111111111111111111111111111"), Some(Identity::null()));
}

#[test]
fn base58_text_is_decoded() {
    let text = "3hDmGyaiLbav54TkKyrBUmM5WvNQrvdkrB6bwaThCkeu";
    let decoded = Identity::from_base58(text).unwrap();
    assert_eq!(Pubkey::new_from_array(decoded.bytes).to_string(), text);
    assert_ne!(decoded, Identity::null());
    assert_eq!(Identity::from_base58("0OIl"), None);
    assert_eq!(Identity::from_base58("abc"), None);
    assert_eq!(Identity::from_base58(""), None);
}

#[test]
fn found_address_is_the_platform_s() {
    let program = key(9);
    let (address, bump) = Identity::find_derived("storage_pda", &program).unwrap();
    let (expected, expected_bump) =
        Pubkey::find_program_address(&[b"storage_pda"], &Pubkey::new_from_array(program.bytes));
    assert_eq!(address.bytes, expected.to_bytes());
    assert_eq!(bump, expected_bump);
    assert_ne!(address, program);
    assert_eq!(Identity::derived("storage_pda", bump, &program), Some(address));
    let (other, _) = Identity::find_derived("wsol_mint", &program).unwrap();
    assert_ne!(other, address);
    assert_eq!(Identity::find_derived("a seed of more than thirty-two bytes", &program), None);
}

#[test]
fn derived_address_is_the_platform_s() {
    let program = key(9);
    let program_id = Pubkey::new_from_array(program.bytes);
    let mut some = 0;
    let mut none = 0;
    for bump in 0..=255u8 {
        let expected = Pubkey::create_program_address(&[b"bank_pda", &[bump]], &program_id).ok();
        let derived = Identity::derived("bank_pda", bump, &program);
        assert_eq!(derived.map(|address| address.bytes), expected.map(|k| k.to_bytes()));
        match derived {
            Some(address) => {
                assert_ne!(address, program);
                some += 1;
            }
            None => none += 1,
        }
    }
    assert_eq!(some + none, 256);
    assert_eq!(some > 0, true);
    assert_eq!(none > 0, true);
    assert_eq!(Identity::derived("a seed of more than thirty-two bytes", 255, &program), None);
}

#[test]
fn authority_resolves() {
    let program = key(9);
    assert_eq!(Authority::Signer(key(3)).resolve(&program), Some(key(3)));
    let (address, bump) = Identity::find_derived("bank_pda", &program).unwrap();
    assert_eq!(Authority::Derived { seed: "bank_pda", bump }.resolve(&program), Some(address));
    let other = Authority::Derived { seed: "bank_pda", bump }.resolve(&key(10));
    assert_ne!(other, Some(address));
}

#[test]
fn error_messages() {
    assert_eq!(ErrorCode2::InvalidAmount.message(), "Invalid amount");
    assert_eq!(ErrorCode2::TransferFailed.message(), "Transfer failed");
    assert_eq!(ErrorCode2::WithdrawFailed.message(), "Withdraw failed");
    assert_eq!(ErrorCode2::DepositFailed.message(), "Deposit failed");
    assert_eq!(ErrorCode2::OnlyAuthority.message(), "Only authority");
    assert_eq!(ErrorCode::InvalidAmount.message(), "Invalid amount");
    assert_eq!(ErrorCode::TransferFailed.message(), "Transfer failed");
    assert_eq!(ErrorCode::WithdrawFailed.message(), "Withdraw failed");
    assert_eq!(ErrorCode::DepositFailed.message(), "Deposit failed");
    assert_eq!(ErrorCode::OnlyOwner.message(), "Only owner");
}

#[test]
fn record_starts_empty() {
    assert_eq!(
        InitData::new(key(1), 7, 8),
        InitData { amount: 0, bump: 7, wethbump: 8, authority: key(1) }
    );
}

#[test]
fn record_changes_authority() {
    let mut data = record();
    assert_eq!(data.change_authority(&key(2), key(2)), Err(ErrorCode2::OnlyAuthority));
    assert_eq!(data, record());
    assert_eq!(
        data.change_authority(&key(1), key(2)),
        Ok(ChangeAuthorityEvent { old: key(1), new: key(2) })
    );
    assert_eq!(data, InitData { authority: key(2), ..record() });
}

#[test]
fn record_checks_amounts() {
    assert_eq!(InitData::check_deposit(1_000_000_000, 999_999_999), Err(ErrorCode2::InvalidAmount));
    assert_eq!(InitData::check_deposit(1_000_000_000, 1_000_000_000), Ok(()));
    assert_eq!(InitData::check_deposit(0, 0), Ok(()));
    assert_eq!(record().check_withdraw(5), Ok(()));
    assert_eq!(record().check_withdraw(6), Err(ErrorCode2::WithdrawFailed));
    assert_eq!(record().check_withdraw(0), Ok(()));
}

#[test]
fn record_credits_and_debits() {
    let mut data = record();
    assert_eq!(
        data.credit(key(2), key(8), 10),
        Ok(DepositEvent { from: key(2), to: key(8), amount: 10 })
    );
    assert_eq!(data.amount, 15);
    assert_eq!(data.credit(key(2), key(8), u64::MAX - 14), Err(Refusal::Overflow));
    assert_eq!(data.amount, 15);
    assert_eq!(
        data.debit(key(8), key(2), 15),
        Ok(WithdrawEvent { from: key(8), to: key(2), amount: 15 })
    );
    assert_eq!(data.amount, 0);
    assert_eq!(data.debit(key(8), key(2), 1), Err(Refusal::Overflow));
    assert_eq!(data, InitData { amount: 0, ..record() });
}

#[test]
fn policy_gives_one_error_under_both_names() {
    let data = record();
    let authority = AuthorizationPolicy { role: Role::Authority };
    let owner = AuthorizationPolicy { role: Role::Owner };
    assert_eq!(authority.check(&key(1), &data), Ok(()));
    assert_eq!(owner.check(&key(1), &data), Ok(()));
    assert_eq!(authority.check(&key(2), &data), Err(ErrorCode2::OnlyAuthority));
    assert_eq!(owner.check(&key(2), &data), Err(ErrorCode2::OnlyAuthority));
}

#[test]
fn configurations() {
    let weth = Config::weth();
    assert_eq!(weth.storage_seed, "bank_pda");
    assert_eq!(weth.mint_seed, "weth_mint");
    assert_eq!(weth.min_deposit, 1_000_000_000);
    assert_eq!(weth.deployer, Some("3hDmGyaiLbav54TkKyrBUmM5WvNQrvdkrB6bwaThCkeu"));
    assert_eq!(weth.metadata, None);
    let wsol = Config::wsol();
    assert_eq!(wsol.storage_seed, "storage_pda");
    assert_eq!(wsol.mint_seed, "wsol_mint");
    assert_eq!(wsol.min_deposit, 1_000_000_000);
    assert_eq!(
        wsol.metadata,
        Some(TokenMetadata {
            name: "Wrapped Ether",
            symbol: "WETH",
            uri: "https://weth.io",
            seller_fee_basis_points: 0,
            is_mutable: true,
        })
    );
    let deployer = Identity::from_base58("3hDmGyaiLbav54TkKyrBUmM5WvNQrvdkrB6bwaThCkeu").unwrap();
    assert_eq!(wsol.admits_deployer(&deployer), true);
    assert_eq!(wsol.admits_deployer(&key(1)), false);
    assert_eq!(Config { deployer: None, ..wsol }.admits_deployer(&key(1)), true);
}

#[test]
fn spending_from_an_account() {
    let account =
        TokenAccount { owner: key(1), amount: 10, delegate: Some(key(2)), delegated_amount: 4 };
    assert_eq!(spend(account, 11, &key(1)), Err(Refusal::InsufficientFunds));
    assert_eq!(spend(account, 10, &key(1)), Ok(TokenAccount { amount: 0, ..account }));
    assert_eq!(spend(account, 5, &key(2)), Err(Refusal::InsufficientFunds));
    assert_eq!(
        spend(account, 3, &key(2)),
        Ok(TokenAccount { amount: 7, delegated_amount: 1, ..account })
    );
    assert_eq!(
        spend(account, 4, &key(2)),
        Ok(TokenAccount { amount: 6, delegate: None, delegated_amount: 0, ..account })
    );
    assert_eq!(spend(account, 1, &key(3)), Err(Refusal::OwnerMismatch));
    assert_eq!(spend(account, 0, &key(1)), Ok(account));
}

#[test]
fn token_ledger_operations() {
    let mut ledger = TokenLedger::new();
    assert_eq!(ledger.supply(), 0);
    assert_eq!(ledger.open(key(1)), Err(Refusal::UninitializedAccount));
    assert_eq!(ledger.mint_to(&key(1), 1, &key(7)), Err(Refusal::UninitializedAccount));
    assert_eq!(ledger.create_mint(key(6), key(7), 9), Ok(()));
    assert_eq!(ledger.create_mint(key(6), key(7), 9), Err(Refusal::AlreadyInUse));
    assert_eq!(ledger.mint_to(&key(1), 1, &key(7)), Err(Refusal::UninitializedAccount));
    assert_eq!(ledger.open(key(1)), Ok(()));
    assert_eq!(ledger.open(key(1)), Ok(()));
    assert_eq!(ledger.holders.len(), 1);
    assert_eq!(ledger.open(key(2)), Ok(()));
    assert_eq!(ledger.find(&key(1)), Some(0));
    assert_eq!(ledger.find(&key(2)), Some(1));
    assert_eq!(ledger.find(&key(3)), None);
    assert_eq!(ledger.mint_to(&key(1), 100, &key(1)), Err(Refusal::OwnerMismatch));
    assert_eq!(ledger.mint_to(&key(1), 100, &key(7)), Ok(()));
    assert_eq!(ledger.mint_to(&key(2), u64::MAX - 99, &key(7)), Err(Refusal::Overflow));
    assert_eq!(ledger.mint_to(&key(1), u64::MAX - 99, &key(7)), Err(Refusal::Overflow));
    assert_eq!(ledger.balance(&key(1)), 100);
    assert_eq!(ledger.supply(), 100);
    assert_eq!(ledger.transfer(&key(1), &key(2), 30, &key(2)), Err(Refusal::OwnerMismatch));
    assert_eq!(ledger.transfer(&key(1), &key(3), 30, &key(1)), Err(Refusal::UninitializedAccount));
    assert_eq!(ledger.transfer(&key(1), &key(2), 30, &key(1)), Ok(()));
    assert_eq!((ledger.balance(&key(1)), ledger.balance(&key(2))), (70, 30));
    assert_eq!(ledger.approve(&key(1), key(2), 20, &key(2)), Err(Refusal::OwnerMismatch));
    assert_eq!(ledger.approve(&key(3), key(2), 20, &key(3)), Err(Refusal::UninitializedAccount));
    assert_eq!(ledger.approve(&key(1), key(2), 20, &key(1)), Ok(()));
    assert_eq!(ledger.holders[0].delegate, Some(key(2)));
    assert_eq!(ledger.holders[0].delegated_amount, 20);
    assert_eq!(ledger.transfer(&key(1), &key(2), 21, &key(2)), Err(Refusal::InsufficientFunds));
    assert_eq!(ledger.transfer(&key(1), &key(2), 15, &key(2)), Ok(()));
    assert_eq!((ledger.balance(&key(1)), ledger.balance(&key(2))), (55, 45));
    assert_eq!(ledger.holders[0].delegated_amount, 5);
    assert_eq!(ledger.burn(&key(1), 5, &key(2)), Ok(()));
    assert_eq!(ledger.holders[0].delegate, None);
    assert_eq!(ledger.burn(&key(1), 1, &key(2)), Err(Refusal::OwnerMismatch));
    assert_eq!(ledger.burn(&key(1), 51, &key(1)), Err(Refusal::InsufficientFunds));
    assert_eq!(ledger.burn(&key(3), 1, &key(3)), Err(Refusal::UninitializedAccount));
    assert_eq!(ledger.burn(&key(1), 50, &key(1)), Ok(()));
    assert_eq!(ledger.balance(&key(1)), 0);
    assert_eq!(ledger.supply(), 45);
    assert_eq!(ledger.balance(&key(3)), 0);
    let copy = ledger.duplicate();
    assert_eq!(copy.mint, ledger.mint);
    assert_eq!(copy.holders, ledger.holders);
}

#[test]
fn first_account_of_an_owner_counts() {
    let first = TokenAccount { owner: key(1), amount: 3, delegate: None, delegated_amount: 0 };
    let second = TokenAccount { amount: 9, ..first };
    let mut ledger = TokenLedger::new();
    ledger.create_mint(key(6), key(7), 9).unwrap();
    ledger.holders = vec![first, second];
    assert_eq!(ledger.find(&key(1)), Some(0));
    assert_eq!(ledger.balance(&key(1)), 3);
    assert_eq!(ledger.burn(&key(1), 4, &key(1)), Err(Refusal::InsufficientFunds));
}

#[test]
fn wallets() {
    let mut wallets: Vec<Wallet> = Vec::new();
    assert_eq!(lamports(&wallets, &key(1)), 0);
    assert_eq!(take(&mut wallets, &key(1), 0), Ok(()));
    assert_eq!(wallets.len(), 0);
    assert_eq!(take(&mut wallets, &key(1), 1), Err(Refusal::InsufficientFunds));
    assert_eq!(give(&mut wallets, &key(1), 10), Ok(()));
    assert_eq!(give(&mut wallets, &key(2), 20), Ok(()));
    assert_eq!(give(&mut wallets, &key(1), 5), Ok(()));
    assert_eq!(
        wallets,
        vec![Wallet { key: key(1), lamports: 15 }, Wallet { key: key(2), lamports: 20 }]
    );
    assert_eq!(give(&mut wallets, &key(1), u64::MAX - 14), Err(Refusal::Overflow));
    assert_eq!(take(&mut wallets, &key(2), 21), Err(Refusal::InsufficientFunds));
    assert_eq!(take(&mut wallets, &key(2), 20), Ok(()));
    assert_eq!(lamports(&wallets, &key(2)), 0);
    assert_eq!(lamports(&wallets, &key(1)), 15);
}

#[test]
fn steps_of_a_deposit() {
    let ctx = Deposit { signer: key(2) };
    let config = Config::weth();
    assert_eq!(
        ctx.transfer_sol_from_signer(7),
        Step {
            call: Call::SystemTransfer { from: key(2), amount: 7 },
            on_failure: Some(ErrorCode2::TransferFailed),
        }
    );
    assert_eq!(
        ctx.weth_mint(&config, &record(), 7),
        Step {
            call: Call::MintTo {
                token: Token::Wrapped,
                to: key(2),
                amount: 7,
                authority: Authority::Derived { seed: "bank_pda", bump: 254 },
            },
            on_failure: None,
        }
    );
    let steps = plan(
        &config,
        &key(9),
        &Some(vault_account()),
        &Instruction::Deposit(ctx, 1_000_000_000),
    )
    .unwrap();
    assert_eq!(
        steps,
        vec![
            Step {
                call: Call::OpenAccount { token: Token::Wrapped, owner: key(2) },
                on_failure: None,
            },
            ctx.transfer_sol_from_signer(1_000_000_000),
            ctx.weth_mint(&config, &record(), 1_000_000_000),
        ]
    );
    assert_eq!(
        plan(&config, &key(9), &Some(vault_account()), &Instruction::Deposit(ctx, 999_999_999)),
        Err(Failure::Code(ErrorCode2::InvalidAmount))
    );
    assert_eq!(
        plan(&config, &key(9), &None, &Instruction::Deposit(ctx, 1_000_000_000)),
        Err(Failure::Refused(Refusal::UninitializedAccount))
    );
}

#[test]
fn steps_of_a_withdrawal() {
    let ctx = Withdraw { signer: key(2) };
    assert_eq!(
        ctx.weth_burn(3),
        Step {
            call: Call::Burn { from: key(2), amount: 3, authority: Authority::Signer(key(2)) },
            on_failure: None,
        }
    );
    assert_eq!(
        ctx.pay_out(3),
        Step {
            call: Call::Payout { to: key(2), amount: 3 },
            on_failure: Some(ErrorCode2::TransferFailed),
        }
    );
    let config = Config::wsol();
    assert_eq!(
        plan(&config, &key(9), &Some(vault_account()), &Instruction::Withdraw(ctx, 5)),
        Ok(vec![ctx.weth_burn(5), ctx.pay_out(5)])
    );
    assert_eq!(
        plan(&config, &key(9), &Some(vault_account()), &Instruction::Withdraw(ctx, 6)),
        Err(Failure::Code(ErrorCode2::WithdrawFailed))
    );
}

#[test]
fn steps_of_the_transfers() {
    let ctx = TransferWeth { signer: key(2), to: key(3) };
    let config = Config::wsol();
    let open = Step {
        call: Call::OpenAccount { token: Token::Wrapped, owner: key(3) },
        on_failure: None,
    };
    let approve = Step {
        call: Call::Approve {
            account: key(2),
            delegate: key(8),
            amount: 4,
            authority: Authority::Signer(key(2)),
        },
        on_failure: None,
    };
    let by_vault = Step {
        call: Call::Transfer {
            from: key(2),
            to: key(3),
            amount: 4,
            authority: Authority::Derived { seed: "storage_pda", bump: 254 },
        },
        on_failure: None,
    };
    let by_signer = Step {
        call: Call::Transfer {
            from: key(2),
            to: key(3),
            amount: 4,
            authority: Authority::Signer(key(2)),
        },
        on_failure: None,
    };
    assert_eq!(ctx.approve_to_storage_account(&vault_account(), 4), approve);
    assert_eq!(ctx.transfer_weth_with_seeds(&config, &record(), 4), by_vault);
    assert_eq!(ctx.transfer_by_signer(4), by_signer);
    assert_eq!(
        plan(&config, &key(9), &Some(vault_account()), &Instruction::ApproveTransferWeth(ctx, 4)),
        Ok(vec![open, approve, by_vault])
    );
    assert_eq!(
        plan(&config, &key(9), &Some(vault_account()), &Instruction::TransferWeth(ctx, 4)),
        Ok(vec![open, by_signer])
    );
}

#[test]
fn steps_of_the_sweep_and_of_initialization() {
    let config = Config { deployer: None, ..Config::wsol() };
    let sweep = Instruction::WithdrawOnlyAuthority(WithdrawAuthority { authority: key(1) });
    assert_eq!(
        plan(&config, &key(9), &Some(vault_account()), &sweep),
        Ok(vec![Step {
            call: Call::Payout { to: key(1), amount: 5 },
            on_failure: Some(ErrorCode2::TransferFailed),
        }])
    );
    let ctx = Initialize { signer: key(1) };
    let (vault, bump) = Identity::find_derived("storage_pda", &key(9)).unwrap();
    let (mint, wethbump) = Identity::find_derived("wsol_mint", &key(9)).unwrap();
    let metadata = ctx.create_weth_mint_metadata_account(&config, bump).unwrap();
    assert_eq!(
        metadata,
        Step {
            call: Call::RegisterMetadata {
                metadata: TokenMetadata {
                    name: "Wrapped Ether",
                    symbol: "WETH",
                    uri: "https://weth.io",
                    seller_fee_basis_points: 0,
                    is_mutable: true,
                },
                authority: Authority::Derived { seed: "storage_pda", bump },
            },
            on_failure: None,
        }
    );
    assert_eq!(ctx.create_weth_mint_metadata_account(&Config::weth(), bump), None);
    assert_eq!(
        plan(&config, &key(9), &None, &Instruction::Initialize(ctx)),
        Ok(vec![
            Step {
                call: Call::CreateVault {
                    key: vault,
                    data: InitData { amount: 0, bump, wethbump, authority: key(1) },
                },
                on_failure: None,
            },
            Step {
                call: Call::CreateMint {
                    token: Token::Wrapped,
                    key: mint,
                    mint_authority: vault,
                    decimals: 9,
                },
                on_failure: None,
            },
            metadata,
        ])
    );
}

#[test]
fn steps_of_the_faucet() {
    let ctx = CreateToken2022 { user: key(4) };
    assert_eq!(faucet_amount(), 10_000_000_000_000_000);
    assert_eq!(
        ctx.mint_to(12),
        Step {
            call: Call::MintTo {
                token: Token::Faucet,
                to: key(4),
                amount: 12,
                authority: Authority::Signer(key(4)),
            },
            on_failure: None,
        }
    );
    let (mint, _) = Identity::find_derived("mint_token_2022", &key(9)).unwrap();
    assert_eq!(
        plan(&Config::wsol(), &key(9), &None, &Instruction::CreateToken2022(ctx)),
        Ok(vec![
            Step {
                call: Call::CreateMint {
                    token: Token::Faucet,
                    key: mint,
                    mint_authority: key(4),
                    decimals: 9,
                },
                on_failure: None,
            },
            Step {
                call: Call::OpenAccount { token: Token::Faucet, owner: key(4) },
                on_failure: None,
            },
            ctx.mint_to(10_000_000_000_000_000),
        ])
    );
}

#[test]
fn step_failures() {
    let mapped = Deposit { signer: key(2) }.transfer_sol_from_signer(1);
    let passed = Withdraw { signer: key(2) }.weth_burn(1);
    assert_eq!(mapped.report("cause"), Reported::Code(ErrorCode2::TransferFailed));
    assert_eq!(passed.report("cause"), Reported::Cause("cause"));
    assert_eq!(mapped.failure(Refusal::InsufficientFunds), Failure::Code(ErrorCode2::TransferFailed));
    assert_eq!(passed.failure(Refusal::InsufficientFunds), Failure::Refused(Refusal::InsufficientFunds));
}

#[test]
fn calls_on_the_bank() {
    let program = key(9);
    let mut bank = Bank::new(Config::wsol(), program);
    let (vault, bump) = Identity::find_derived("storage_pda", &program).unwrap();
    assert_eq!(
        bank.perform(&Call::SystemTransfer { from: key(2), amount: 0 }),
        Err(Refusal::UninitializedAccount)
    );
    assert_eq!(bank.perform(&Call::CreateVault { key: vault, data: record() }), Ok(()));
    assert_eq!(
        bank.perform(&Call::CreateVault { key: vault, data: record() }),
        Err(Refusal::AlreadyInUse)
    );
    bank.fund(&key(2), 50).unwrap();
    assert_eq!(bank.perform(&Call::SystemTransfer { from: key(2), amount: 51 }), Err(Refusal::InsufficientFunds));
    assert_eq!(bank.perform(&Call::SystemTransfer { from: key(2), amount: 20 }), Ok(()));
    assert_eq!((bank.vault_lamports(), bank.lamports(&key(2))), (20, 30));
    assert_eq!(bank.perform(&Call::Payout { to: key(3), amount: 21 }), Err(Refusal::InsufficientFunds));
    assert_eq!(bank.perform(&Call::Payout { to: key(3), amount: 5 }), Ok(()));
    assert_eq!((bank.vault_lamports(), bank.lamports(&key(3))), (15, 5));
    let create = Call::CreateMint {
        token: Token::Wrapped,
        key: key(6),
        mint_authority: vault,
        decimals: 9,
    };
    assert_eq!(bank.perform(&create), Ok(()));
    assert_eq!(bank.perform(&Call::OpenAccount { token: Token::Wrapped, owner: key(2) }), Ok(()));
    let by_seeds = Authority::Derived { seed: "storage_pda", bump };
    let mint = Call::MintTo { token: Token::Wrapped, to: key(2), amount: 8, authority: by_seeds };
    assert_eq!(bank.perform(&mint), Ok(()));
    assert_eq!(bank.balance(&key(2)), 8);
    let by_other_seed = Authority::Derived { seed: "wsol_mint", bump };
    let refused = bank.perform(&Call::MintTo {
        token: Token::Wrapped,
        to: key(2),
        amount: 8,
        authority: by_other_seed,
    });
    assert_eq!(
        matches!(refused, Err(Refusal::InvalidSeeds) | Err(Refusal::OwnerMismatch)),
        true
    );
    let too_long = Authority::Derived { seed: "a seed of more than thirty-two bytes", bump };
    assert_eq!(
        bank.perform(&Call::Burn { from: key(2), amount: 1, authority: too_long }),
        Err(Refusal::InvalidSeeds)
    );
    assert_eq!(bank.perform_as(&mint, &key(2)), Err(Refusal::OwnerMismatch));
    assert_eq!(bank.perform_as(&mint, &vault), Ok(()));
    assert_eq!(bank.balance(&key(2)), 16);
    let metadata = TokenMetadata {
        name: "n",
        symbol: "s",
        uri: "u",
        seller_fee_basis_points: 0,
        is_mutable: false,
    };
    let register = Call::RegisterMetadata { metadata, authority: Authority::Signer(key(2)) };
    assert_eq!(bank.perform(&register), Err(Refusal::OwnerMismatch));
    let register = Call::RegisterMetadata { metadata, authority: by_seeds };
    assert_eq!(bank.perform(&register), Ok(()));
    assert_eq!(bank.metadata, Some(metadata));
    assert_eq!(bank.perform(&register), Err(Refusal::AlreadyInUse));
}

#[test]
fn run_stops_at_the_first_refusal() {
    let mut bank = Bank::new(Config { deployer: None, ..Config::wsol() }, key(9));
    execute(&mut bank, &Instruction::Initialize(Initialize { signer: key(1) })).unwrap();
    bank.fund(&key(2), 50).unwrap();
    let ctx = Deposit { signer: key(2) };
    let steps = vec![ctx.transfer_sol_from_signer(20), ctx.transfer_sol_from_signer(40)];
    assert_eq!(bank.run(&steps), Err(Failure::Code(ErrorCode2::TransferFailed)));
    assert_eq!((bank.vault_lamports(), bank.lamports(&key(2))), (20, 30));
    assert_eq!(bank.run(&vec![]), Ok(()));
    assert_eq!(bank.commit(&Instruction::Deposit(ctx, 20)).is_ok(), true);
    assert_eq!(bank.accounted_amount(), 20);
    assert_eq!(
        bank.commit(&Instruction::Deposit(ctx, u64::MAX)),
        Err(Failure::Refused(Refusal::Overflow))
    );
    assert_eq!(bank.accounted_amount(), 20);
}
