//! The transfer-instruction handler: account resolution, authorization,
//! balance validation, atomic execution with lazy destination creation, and
//! event emission, all pinned to one mathematical transition function.

use vstd::prelude::*;
use crate::ledger::{Address, Ledger, derived_address, derive_address, spec_balance};

verus! {

/// The caller-supplied account bundle for one transfer instruction: the
/// asset's mint, the declared authority (the source owner, expected to have
/// signed), the destination owner, and the supplied holding-account
/// addresses for source and destination.
#[derive(Clone, Copy, PartialEq, Eq, Structural, Debug)]
pub struct TransferToken {
    /// Identity of the fungible asset being transferred.
    pub token_mint: u64,
    /// The signing identity declared to own the source account.
    pub authority: u64,
    /// The identity receiving the tokens.
    pub target: u64,
    /// Supplied address of the source holding account.
    pub from: Address,
    /// Supplied address of the destination holding account.
    pub to: Address,
}

/// The immutable record published for a committed transfer, and only then.
#[derive(Clone, Copy, PartialEq, Eq, Structural, Debug)]
pub struct TransferEvent {
    pub from: u64,
    pub to: u64,
    pub amount: u64,
}

/// The closed failure taxonomy. Every failure aborts the whole operation
/// with exactly one of these; no partial state survives.
#[derive(Clone, Copy, PartialEq, Eq, Structural, Debug)]
pub enum ErrorCode {
    /// The source balance does not cover the requested amount.
    InsufficientFunds,
    /// The request was not signed by the source account's owner.
    Unauthorized,
    /// A supplied account address disagrees with the derived one.
    AddressMismatch,
    /// The requested amount is zero.
    InvalidAmount,
    /// The balance book itself refused the mutation: the credit would
    /// overflow the destination balance.
    LedgerFailure,
}

/// Account resolution: both supplied addresses equal the canonical ones
/// derived from the declared owners and the mint.
pub open spec fn spec_accounts_resolve(acc: TransferToken) -> bool {
    &&& acc.from == derived_address(acc.authority, acc.token_mint)
    &&& acc.to == derived_address(acc.target, acc.token_mint)
}

/// Authorization: the declared authority has signed the request, and the
/// signer is that authority. Together with resolution this makes the signer
/// the source account's recorded owner (see
/// `lemma_authorized_signer_owns_source`).
pub open spec fn spec_authorized(acc: TransferToken, signer: u64, signed: bool) -> bool {
    signed && signer == acc.authority
}

/// The event a committed transfer publishes.
pub open spec fn spec_event(acc: TransferToken, amount: u64) -> TransferEvent {
    TransferEvent { from: acc.authority, to: acc.target, amount }
}

/// The balance book after a committed transfer: the source debited and the
/// destination credited (created at `amount` where it did not exist).
/// Moving an amount from an account to itself leaves the book unchanged.
pub open spec fn spec_apply(
    l: Map<Address, u64>,
    from: Address,
    to: Address,
    amount: u64,
) -> Map<Address, u64> {
    if from == to {
        l
    } else {
        l.insert(from, (spec_balance(l, from) - amount) as u64).insert(
            to,
            (spec_balance(l, to) + amount) as u64,
        )
    }
}

/// The transition function of the whole handler: from the balance book and
/// one request to either the committed book with its event, or the one
/// error that aborts the request. The checks run in the handler's order:
/// resolution, authorization, amount validation, funds validation, then the
/// ledger mutation itself.
pub open spec fn spec_transfer(
    l: Map<Address, u64>,
    acc: TransferToken,
    signer: u64,
    signed: bool,
    amount: u64,
) -> Result<(Map<Address, u64>, TransferEvent), ErrorCode> {
    if !spec_accounts_resolve(acc) {
        Err(ErrorCode::AddressMismatch)
    } else if !spec_authorized(acc, signer, signed) {
        Err(ErrorCode::Unauthorized)
    } else if amount == 0 {
        Err(ErrorCode::InvalidAmount)
    } else if spec_balance(l, acc.from) < amount {
        Err(ErrorCode::InsufficientFunds)
    } else if acc.from != acc.to && spec_balance(l, acc.to) + amount > u64::MAX {
        Err(ErrorCode::LedgerFailure)
    } else {
        Ok((spec_apply(l, acc.from, acc.to, amount), spec_event(acc, amount)))
    }
}

/// Account Resolver: derives the canonical source and destination addresses
/// and verifies the supplied ones match. No mutation.
pub fn resolve_accounts(acc: &TransferToken) -> (r: Result<(), ErrorCode>)
    ensures
        match r {
            Ok(()) => spec_accounts_resolve(*acc),
            Err(e) => !spec_accounts_resolve(*acc) && e == ErrorCode::AddressMismatch,
        },
{
    let src = derive_address(acc.authority, acc.token_mint);
    let dst = derive_address(acc.target, acc.token_mint);
    if acc.from == src && acc.to == dst {
        Ok(())
    } else {
        Err(ErrorCode::AddressMismatch)
    }
}

/// Authorization Guard: requires a valid signature from the declared
/// authority. Runs before any balance check, so an unauthorized request
/// fails for that reason whatever the balances say.
pub fn authorize(acc: &TransferToken, signer: u64, signed: bool) -> (r: Result<(), ErrorCode>)
    ensures
        match r {
            Ok(()) => spec_authorized(*acc, signer, signed),
            Err(e) => !spec_authorized(*acc, signer, signed) && e == ErrorCode::Unauthorized,
        },
{
    if signed && signer == acc.authority {
        Ok(())
    } else {
        Err(ErrorCode::Unauthorized)
    }
}

/// Balance Validator: the amount is positive and the source balance covers
/// it. Pure read.
pub fn validate_amount(ledger: &Ledger, source: Address, amount: u64) -> (r: Result<
    (),
    ErrorCode,
>)
    requires
        ledger.wf(),
    ensures
        match r {
            Ok(()) => 0 < amount <= spec_balance(ledger@, source),
            Err(e) => {
                &&& (e == ErrorCode::InvalidAmount || e == ErrorCode::InsufficientFunds)
                &&& (e == ErrorCode::InvalidAmount <==> amount == 0)
                &&& (e == ErrorCode::InsufficientFunds <==> amount > 0 && spec_balance(
                    ledger@,
                    source,
                ) < amount)
            },
        },
{
    if amount == 0 {
        return Err(ErrorCode::InvalidAmount);
    }
    let balance = ledger.balance_of(source);
    if balance < amount {
        return Err(ErrorCode::InsufficientFunds);
    }
    Ok(())
}

/// Transfer Executor: one indivisible debit/credit, creating the
/// destination account where it does not exist. The preconditions are
/// exactly the checks the handler has already passed, so every step here
/// succeeds: no partial application is ever observable.
pub fn execute_transfer(ledger: &mut Ledger, from: Address, to: Address, amount: u64)
    requires
        old(ledger).wf(),
        0 < amount <= spec_balance(old(ledger)@, from),
        from != to ==> spec_balance(old(ledger)@, to) + amount <= u64::MAX,
    ensures
        final(ledger).wf(),
        final(ledger)@ == spec_apply(old(ledger)@, from, to, amount),
{
    if from == to {
        return;
    }
    if !ledger.has_account(to) {
        ledger.create_account(to.owner, to.mint);
    }
    ledger.debit(from, amount);
    ledger.credit(to, amount);
    proof {
        assert(ledger@ =~= spec_apply(old(ledger)@, from, to, amount));
    }
}

/// Event Emitter: the transfer record published for a committed transfer.
pub fn emit_event(acc: &TransferToken, amount: u64) -> (ev: TransferEvent)
    ensures
        ev == spec_event(*acc, amount),
{
    TransferEvent { from: acc.authority, to: acc.target, amount }
}

/// The transfer-instruction handler: resolver, guard, validator, executor
/// and emitter in order, each failing fast. On success the balance book is
/// exactly the committed one of `spec_transfer` and the event is returned;
/// on failure the book is untouched and the error is the one
/// `spec_transfer` names.
pub fn transfer_token(
    ledger: &mut Ledger,
    accounts: &TransferToken,
    signer: u64,
    signed: bool,
    amount: u64,
) -> (r: Result<TransferEvent, ErrorCode>)
    requires
        old(ledger).wf(),
    ensures
        final(ledger).wf(),
        match r {
            Ok(ev) => spec_transfer(old(ledger)@, *accounts, signer, signed, amount)
                == Ok::<(Map<Address, u64>, TransferEvent), ErrorCode>((final(ledger)@, ev)),
            Err(e) => final(ledger)@ == old(ledger)@ && spec_transfer(
                old(ledger)@,
                *accounts,
                signer,
                signed,
                amount,
            ) == Err::<(Map<Address, u64>, TransferEvent), ErrorCode>(e),
        },
{
    if let Err(e) = resolve_accounts(accounts) {
        return Err(e);
    }
    if let Err(e) = authorize(accounts, signer, signed) {
        return Err(e);
    }
    if let Err(e) = validate_amount(ledger, accounts.from, amount) {
        return Err(e);
    }
    if accounts.from != accounts.to {
        let destination_balance = ledger.balance_of(accounts.to);
        if destination_balance > u64::MAX - amount {
            return Err(ErrorCode::LedgerFailure);
        }
    }
    execute_transfer(ledger, accounts.from, accounts.to, amount);
    Ok(emit_event(accounts, amount))
}

/// An authorized signer of a resolved request is the owner recorded in the
/// source account's derived address: the guard's signature check and its
/// owner check coincide once resolution has passed.
pub proof fn lemma_authorized_signer_owns_source(acc: TransferToken, signer: u64, signed: bool)
    requires
        spec_accounts_resolve(acc),
        spec_authorized(acc, signer, signed),
    ensures
        acc.from.owner == signer,
{
}

/// A committed transfer between distinct accounts debits the source by
/// exactly the amount, credits the destination by exactly the amount
/// (creating it at that balance where absent), conserves the sum of the two
/// balances, touches no other account, and publishes the one event naming
/// the authority, the destination owner and the amount.
pub proof fn lemma_transfer_moves_amount(
    l: Map<Address, u64>,
    acc: TransferToken,
    signer: u64,
    signed: bool,
    amount: u64,
)
    requires
        spec_accounts_resolve(acc),
        spec_authorized(acc, signer, signed),
        0 < amount <= spec_balance(l, acc.from),
        acc.from != acc.to,
        spec_balance(l, acc.to) + amount <= u64::MAX,
    ensures
        spec_transfer(l, acc, signer, signed, amount) == Ok::<
            (Map<Address, u64>, TransferEvent),
            ErrorCode,
        >((spec_apply(l, acc.from, acc.to, amount), spec_event(acc, amount))),
        spec_balance(spec_apply(l, acc.from, acc.to, amount), acc.from) == spec_balance(
            l,
            acc.from,
        ) - amount,
        spec_balance(spec_apply(l, acc.from, acc.to, amount), acc.to) == spec_balance(l, acc.to)
            + amount,
        spec_balance(spec_apply(l, acc.from, acc.to, amount), acc.from) + spec_balance(
            spec_apply(l, acc.from, acc.to, amount),
            acc.to,
        ) == spec_balance(l, acc.from) + spec_balance(l, acc.to),
        forall|a: Address|
            a != acc.from && a != acc.to ==> spec_balance(
                #[trigger] spec_apply(l, acc.from, acc.to, amount),
                a,
            ) == spec_balance(l, a),
{
}

/// Destination auto-creation: where no destination account existed before a
/// committed transfer, it exists afterwards with balance exactly the
/// amount.
pub proof fn lemma_destination_created(
    l: Map<Address, u64>,
    acc: TransferToken,
    signer: u64,
    signed: bool,
    amount: u64,
    l2: Map<Address, u64>,
    ev: TransferEvent,
)
    requires
        spec_transfer(l, acc, signer, signed, amount) == Ok::<
            (Map<Address, u64>, TransferEvent),
            ErrorCode,
        >((l2, ev)),
        !l.contains_key(acc.to),
    ensures
        l2.contains_key(acc.to),
        l2[acc.to] == amount,
{
    assert(spec_balance(l, acc.from) >= amount > 0);
    assert(l.contains_key(acc.from));
    assert(acc.from != acc.to);
}

/// A sufficiently funded, resolved and authorized request never aborts for
/// lack of funds; conversely, with the source balance short of the amount,
/// the request aborts with exactly `InsufficientFunds` and commits nothing.
pub proof fn lemma_insufficient_funds(
    l: Map<Address, u64>,
    acc: TransferToken,
    signer: u64,
    signed: bool,
    amount: u64,
)
    requires
        spec_accounts_resolve(acc),
        spec_authorized(acc, signer, signed),
        spec_balance(l, acc.from) < amount,
    ensures
        spec_transfer(l, acc, signer, signed, amount) == Err::<
            (Map<Address, u64>, TransferEvent),
            ErrorCode,
        >(ErrorCode::InsufficientFunds),
{
}

/// A request whose declared authority did not sign, or whose signer is not
/// that authority, aborts with exactly `Unauthorized`, whatever the
/// balances are.
pub proof fn lemma_unauthorized(
    l: Map<Address, u64>,
    acc: TransferToken,
    signer: u64,
    signed: bool,
    amount: u64,
)
    requires
        spec_accounts_resolve(acc),
        !spec_authorized(acc, signer, signed),
    ensures
        spec_transfer(l, acc, signer, signed, amount) == Err::<
            (Map<Address, u64>, TransferEvent),
            ErrorCode,
        >(ErrorCode::Unauthorized),
{
}

/// No implicit deduplication: two identical, independently funded requests
/// commit as two independent transfers, each moving the amount once, for a
/// total of twice the amount.
pub proof fn lemma_no_deduplication(
    l: Map<Address, u64>,
    acc: TransferToken,
    signer: u64,
    signed: bool,
    amount: u64,
)
    requires
        spec_accounts_resolve(acc),
        spec_authorized(acc, signer, signed),
        acc.from != acc.to,
        0 < amount,
        amount + amount <= spec_balance(l, acc.from),
        spec_balance(l, acc.to) + amount + amount <= u64::MAX,
    ensures
        spec_transfer(l, acc, signer, signed, amount) == Ok::<
            (Map<Address, u64>, TransferEvent),
            ErrorCode,
        >((spec_apply(l, acc.from, acc.to, amount), spec_event(acc, amount))),
        spec_transfer(spec_apply(l, acc.from, acc.to, amount), acc, signer, signed, amount)
            == Ok::<(Map<Address, u64>, TransferEvent), ErrorCode>(
            (
                spec_apply(spec_apply(l, acc.from, acc.to, amount), acc.from, acc.to, amount),
                spec_event(acc, amount),
            ),
        ),
        spec_balance(
            spec_apply(spec_apply(l, acc.from, acc.to, amount), acc.from, acc.to, amount),
            acc.from,
        ) == spec_balance(l, acc.from) - amount - amount,
        spec_balance(
            spec_apply(spec_apply(l, acc.from, acc.to, amount), acc.from, acc.to, amount),
            acc.to,
        ) == spec_balance(l, acc.to) + amount + amount,
{
}

} // verus!
