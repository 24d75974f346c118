use tokentransfer::ledger::{derive_address, Ledger};
use tokentransfer::transfer::{transfer_token, ErrorCode, TransferEvent, TransferToken};

const MINT: u64 = 5;
const OWNER_1: u64 = 1;
const OWNER_2: u64 = 2;

fn funded_ledger(owner: u64, balance: u64) -> Ledger {
    let mut ledger = Ledger::new();
    ledger.create_account(owner, MINT);
    ledger.credit(derive_address(owner, MINT), balance);
    ledger
}

fn request(authority: u64, target: u64) -> TransferToken {
    TransferToken {
        token_mint: MINT,
        authority,
        target,
        from: derive_address(authority, MINT),
        to: derive_address(target, MINT),
    }
}

#[test]
fn success_creates_destination() {
    let mut ledger = funded_ledger(OWNER_1, 100);
    let accounts = request(OWNER_1, OWNER_2);
    let result = transfer_token(&mut ledger, &accounts, OWNER_1, true, 40);
    assert_eq!(
        result,
        Ok(TransferEvent { from: OWNER_1, to: OWNER_2, amount: 40 })
    );
    assert_eq!(ledger.balance_of(accounts.from), 60);
    assert!(ledger.has_account(accounts.to));
    assert_eq!(ledger.balance_of(accounts.to), 40);
}

#[test]
fn insufficient_funds_changes_nothing() {
    let mut ledger = funded_ledger(OWNER_1, 10);
    let accounts = request(OWNER_1, OWNER_2);
    let result = transfer_token(&mut ledger, &accounts, OWNER_1, true, 50);
    assert_eq!(result, Err(ErrorCode::InsufficientFunds));
    assert_eq!(ledger.balance_of(accounts.from), 10);
    assert!(!ledger.has_account(accounts.to));
}

#[test]
fn unauthorized_signer_aborts() {
    let mut ledger = funded_ledger(OWNER_1, 100);
    let accounts = request(OWNER_1, OWNER_2);
    let impostor: u64 = 9;
    let result = transfer_token(&mut ledger, &accounts, impostor, true, 40);
    assert_eq!(result, Err(ErrorCode::Unauthorized));
    assert_eq!(ledger.balance_of(accounts.from), 100);
    assert!(!ledger.has_account(accounts.to));
}

#[test]
fn unsigned_request_aborts() {
    let mut ledger = funded_ledger(OWNER_1, 100);
    let accounts = request(OWNER_1, OWNER_2);
    let result = transfer_token(&mut ledger, &accounts, OWNER_1, false, 40);
    assert_eq!(result, Err(ErrorCode::Unauthorized));
    assert_eq!(ledger.balance_of(accounts.from), 100);
}

#[test]
fn unauthorized_outranks_insufficient_funds() {
    let mut ledger = funded_ledger(OWNER_1, 10);
    let accounts = request(OWNER_1, OWNER_2);
    let impostor: u64 = 9;
    let result = transfer_token(&mut ledger, &accounts, impostor, true, 50);
    assert_eq!(result, Err(ErrorCode::Unauthorized));
}

#[test]
fn zero_amount_is_rejected() {
    let mut ledger = funded_ledger(OWNER_1, 100);
    let accounts = request(OWNER_1, OWNER_2);
    let result = transfer_token(&mut ledger, &accounts, OWNER_1, true, 0);
    assert_eq!(result, Err(ErrorCode::InvalidAmount));
    assert_eq!(ledger.balance_of(accounts.from), 100);
}

#[test]
fn mismatched_source_address_aborts() {
    let mut ledger = funded_ledger(OWNER_1, 100);
    let mut accounts = request(OWNER_1, OWNER_2);
    accounts.from = derive_address(OWNER_2, MINT);
    let result = transfer_token(&mut ledger, &accounts, OWNER_1, true, 40);
    assert_eq!(result, Err(ErrorCode::AddressMismatch));
    assert_eq!(ledger.balance_of(derive_address(OWNER_1, MINT)), 100);
}

#[test]
fn mismatched_destination_address_aborts() {
    let mut ledger = funded_ledger(OWNER_1, 100);
    let mut accounts = request(OWNER_1, OWNER_2);
    accounts.to = derive_address(OWNER_2, MINT + 1);
    let result = transfer_token(&mut ledger, &accounts, OWNER_1, true, 40);
    assert_eq!(result, Err(ErrorCode::AddressMismatch));
    assert_eq!(ledger.balance_of(accounts.from), 100);
}

#[test]
fn overflowing_credit_is_a_ledger_failure() {
    let mut ledger = funded_ledger(OWNER_1, 100);
    ledger.create_account(OWNER_2, MINT);
    let destination = derive_address(OWNER_2, MINT);
    ledger.credit(destination, u64::MAX - 10);
    let accounts = request(OWNER_1, OWNER_2);
    let result = transfer_token(&mut ledger, &accounts, OWNER_1, true, 40);
    assert_eq!(result, Err(ErrorCode::LedgerFailure));
    assert_eq!(ledger.balance_of(accounts.from), 100);
    assert_eq!(ledger.balance_of(destination), u64::MAX - 10);
}

#[test]
fn transfer_conserves_the_two_balances() {
    let mut ledger = funded_ledger(OWNER_1, 70);
    ledger.create_account(OWNER_2, MINT);
    ledger.credit(derive_address(OWNER_2, MINT), 50);
    let accounts = request(OWNER_1, OWNER_2);
    let before = ledger.balance_of(accounts.from) + ledger.balance_of(accounts.to);
    let result = transfer_token(&mut ledger, &accounts, OWNER_1, true, 30);
    assert!(result.is_ok());
    assert_eq!(ledger.balance_of(accounts.from), 40);
    assert_eq!(ledger.balance_of(accounts.to), 80);
    assert_eq!(
        ledger.balance_of(accounts.from) + ledger.balance_of(accounts.to),
        before
    );
}

#[test]
fn transfer_leaves_other_accounts_alone() {
    let mut ledger = funded_ledger(OWNER_1, 70);
    let bystander: u64 = 7;
    ledger.create_account(bystander, MINT);
    ledger.credit(derive_address(bystander, MINT), 11);
    let accounts = request(OWNER_1, OWNER_2);
    let result = transfer_token(&mut ledger, &accounts, OWNER_1, true, 30);
    assert!(result.is_ok());
    assert_eq!(ledger.balance_of(derive_address(bystander, MINT)), 11);
}

#[test]
fn identical_requests_commit_twice() {
    let mut ledger = funded_ledger(OWNER_1, 100);
    let accounts = request(OWNER_1, OWNER_2);
    let first = transfer_token(&mut ledger, &accounts, OWNER_1, true, 40);
    let second = transfer_token(&mut ledger, &accounts, OWNER_1, true, 40);
    assert_eq!(
        first,
        Ok(TransferEvent { from: OWNER_1, to: OWNER_2, amount: 40 })
    );
    assert_eq!(first, second);
    assert_eq!(ledger.balance_of(accounts.from), 20);
    assert_eq!(ledger.balance_of(accounts.to), 80);
}

#[test]
fn corrected_resubmission_commits_exactly_once() {
    let mut ledger = funded_ledger(OWNER_1, 100);
    let accounts = request(OWNER_1, OWNER_2);
    let aborted = transfer_token(&mut ledger, &accounts, OWNER_1, true, 500);
    assert_eq!(aborted, Err(ErrorCode::InsufficientFunds));
    assert_eq!(ledger.balance_of(accounts.from), 100);
    let corrected = transfer_token(&mut ledger, &accounts, OWNER_1, true, 60);
    assert_eq!(
        corrected,
        Ok(TransferEvent { from: OWNER_1, to: OWNER_2, amount: 60 })
    );
    assert_eq!(ledger.balance_of(accounts.from), 40);
    assert_eq!(ledger.balance_of(accounts.to), 60);
}

#[test]
fn self_transfer_commits_without_change() {
    let mut ledger = funded_ledger(OWNER_1, 100);
    let accounts = request(OWNER_1, OWNER_1);
    let result = transfer_token(&mut ledger, &accounts, OWNER_1, true, 40);
    assert_eq!(
        result,
        Ok(TransferEvent { from: OWNER_1, to: OWNER_1, amount: 40 })
    );
    assert_eq!(ledger.balance_of(accounts.from), 100);
}

#[test]
fn destination_with_balance_is_credited() {
    let mut ledger = funded_ledger(OWNER_1, 100);
    ledger.create_account(OWNER_2, MINT);
    ledger.credit(derive_address(OWNER_2, MINT), 5);
    let accounts = request(OWNER_1, OWNER_2);
    let result = transfer_token(&mut ledger, &accounts, OWNER_1, true, 40);
    assert!(result.is_ok());
    assert_eq!(ledger.balance_of(accounts.to), 45);
}

#[test]
fn exact_balance_transfers_to_zero() {
    let mut ledger = funded_ledger(OWNER_1, 40);
    let accounts = request(OWNER_1, OWNER_2);
    let result = transfer_token(&mut ledger, &accounts, OWNER_1, true, 40);
    assert!(result.is_ok());
    assert_eq!(ledger.balance_of(accounts.from), 0);
    assert_eq!(ledger.balance_of(accounts.to), 40);
}
