use vstd::prelude::*;

verus! {

/// Why the engine refused a transaction.
#[derive(Clone, Copy, Debug, PartialEq, Eq, Structural)]
pub enum EngineErrorKind {
    DuplicateTransaction,
    MissingAmount,
    InvalidAmount,
    AccountLocked,
    AccountNotFound,
    InsufficientFunds,
    InsufficientHeldFunds,
    InvalidDisputeTarget,
    InvalidResolveTarget,
    InvalidChargebackTarget,
    DisputeNonExistentTransaction,
    ResolveNonExistentTransaction,
    ChargebackNonExistentTransaction,
    TransactionClientMismatch,
    TransactionAlreadyDisputed,
    TransactionNotDisputed,
    TransactionAlreadyChargedBack,
}

/// A refused transaction: the reason, with the transaction's identifier (the
/// client's, for `AccountNotFound`) in decimal notation.
#[derive(Debug)]
pub enum EngineError {
    DuplicateTransaction(String),
    MissingAmount(String),
    InvalidAmount(String),
    AccountLocked(String),
    AccountNotFound(String),
    InsufficientFunds(String),
    InsufficientHeldFunds(String),
    InvalidDisputeTarget(String),
    InvalidResolveTarget(String),
    InvalidChargebackTarget(String),
    DisputeNonExistentTransaction(String),
    ResolveNonExistentTransaction(String),
    ChargebackNonExistentTransaction(String),
    TransactionClientMismatch(String),
    TransactionAlreadyDisputed(String),
    TransactionNotDisputed(String),
    TransactionAlreadyChargedBack(String),
}

impl View for EngineError {
    type V = (EngineErrorKind, Seq<char>);

    open spec fn view(&self) -> (EngineErrorKind, Seq<char>) {
        match self {
            EngineError::DuplicateTransaction(s) => (EngineErrorKind::DuplicateTransaction, s@),
            EngineError::MissingAmount(s) => (EngineErrorKind::MissingAmount, s@),
            EngineError::InvalidAmount(s) => (EngineErrorKind::InvalidAmount, s@),
            EngineError::AccountLocked(s) => (EngineErrorKind::AccountLocked, s@),
            EngineError::AccountNotFound(s) => (EngineErrorKind::AccountNotFound, s@),
            EngineError::InsufficientFunds(s) => (EngineErrorKind::InsufficientFunds, s@),
            EngineError::InsufficientHeldFunds(s) => (EngineErrorKind::InsufficientHeldFunds, s@),
            EngineError::InvalidDisputeTarget(s) => (EngineErrorKind::InvalidDisputeTarget, s@),
            EngineError::InvalidResolveTarget(s) => (EngineErrorKind::InvalidResolveTarget, s@),
            EngineError::InvalidChargebackTarget(s) => (EngineErrorKind::InvalidChargebackTarget, s@),
            EngineError::DisputeNonExistentTransaction(s) => (EngineErrorKind::DisputeNonExistentTransaction, s@),
            EngineError::ResolveNonExistentTransaction(s) => (EngineErrorKind::ResolveNonExistentTransaction, s@),
            EngineError::ChargebackNonExistentTransaction(s) => (EngineErrorKind::ChargebackNonExistentTransaction, s@),
            EngineError::TransactionClientMismatch(s) => (EngineErrorKind::TransactionClientMismatch, s@),
            EngineError::TransactionAlreadyDisputed(s) => (EngineErrorKind::TransactionAlreadyDisputed, s@),
            EngineError::TransactionNotDisputed(s) => (EngineErrorKind::TransactionNotDisputed, s@),
            EngineError::TransactionAlreadyChargedBack(s) => (EngineErrorKind::TransactionAlreadyChargedBack, s@),
        }
    }
}

impl EngineError {
    /// The error of the given kind about the given subject.
    pub fn new(kind: EngineErrorKind, subject: String) -> (r: Self)
        ensures
            r@ == (kind, subject@),
    {
        match kind {
            EngineErrorKind::DuplicateTransaction => EngineError::DuplicateTransaction(subject),
            EngineErrorKind::MissingAmount => EngineError::MissingAmount(subject),
            EngineErrorKind::InvalidAmount => EngineError::InvalidAmount(subject),
            EngineErrorKind::AccountLocked => EngineError::AccountLocked(subject),
            EngineErrorKind::AccountNotFound => EngineError::AccountNotFound(subject),
            EngineErrorKind::InsufficientFunds => EngineError::InsufficientFunds(subject),
            EngineErrorKind::InsufficientHeldFunds => EngineError::InsufficientHeldFunds(subject),
            EngineErrorKind::InvalidDisputeTarget => EngineError::InvalidDisputeTarget(subject),
            EngineErrorKind::InvalidResolveTarget => EngineError::InvalidResolveTarget(subject),
            EngineErrorKind::InvalidChargebackTarget => EngineError::InvalidChargebackTarget(subject),
            EngineErrorKind::DisputeNonExistentTransaction => EngineError::DisputeNonExistentTransaction(subject),
            EngineErrorKind::ResolveNonExistentTransaction => EngineError::ResolveNonExistentTransaction(subject),
            EngineErrorKind::ChargebackNonExistentTransaction => EngineError::ChargebackNonExistentTransaction(subject),
            EngineErrorKind::TransactionClientMismatch => EngineError::TransactionClientMismatch(subject),
            EngineErrorKind::TransactionAlreadyDisputed => EngineError::TransactionAlreadyDisputed(subject),
            EngineErrorKind::TransactionNotDisputed => EngineError::TransactionNotDisputed(subject),
            EngineErrorKind::TransactionAlreadyChargedBack => EngineError::TransactionAlreadyChargedBack(subject),
        }
    }

    /// The reason for the refusal.
    pub fn kind(&self) -> (r: EngineErrorKind)
        ensures
            r == self@.0,
    {
        match self {
            EngineError::DuplicateTransaction(_) => EngineErrorKind::DuplicateTransaction,
            EngineError::MissingAmount(_) => EngineErrorKind::MissingAmount,
            EngineError::InvalidAmount(_) => EngineErrorKind::InvalidAmount,
            EngineError::AccountLocked(_) => EngineErrorKind::AccountLocked,
            EngineError::AccountNotFound(_) => EngineErrorKind::AccountNotFound,
            EngineError::InsufficientFunds(_) => EngineErrorKind::InsufficientFunds,
            EngineError::InsufficientHeldFunds(_) => EngineErrorKind::InsufficientHeldFunds,
            EngineError::InvalidDisputeTarget(_) => EngineErrorKind::InvalidDisputeTarget,
            EngineError::InvalidResolveTarget(_) => EngineErrorKind::InvalidResolveTarget,
            EngineError::InvalidChargebackTarget(_) => EngineErrorKind::InvalidChargebackTarget,
            EngineError::DisputeNonExistentTransaction(_) => EngineErrorKind::DisputeNonExistentTransaction,
            EngineError::ResolveNonExistentTransaction(_) => EngineErrorKind::ResolveNonExistentTransaction,
            EngineError::ChargebackNonExistentTransaction(_) => EngineErrorKind::ChargebackNonExistentTransaction,
            EngineError::TransactionClientMismatch(_) => EngineErrorKind::TransactionClientMismatch,
            EngineError::TransactionAlreadyDisputed(_) => EngineErrorKind::TransactionAlreadyDisputed,
            EngineError::TransactionNotDisputed(_) => EngineErrorKind::TransactionNotDisputed,
            EngineError::TransactionAlreadyChargedBack(_) => EngineErrorKind::TransactionAlreadyChargedBack,
        }
    }

    /// The identifier the error is about, in decimal notation.
    pub fn subject(&self) -> (r: &String)
        ensures
            r@ == self@.1,
    {
        match self {
            EngineError::DuplicateTransaction(s) => s,
            EngineError::MissingAmount(s) => s,
            EngineError::InvalidAmount(s) => s,
            EngineError::AccountLocked(s) => s,
            EngineError::AccountNotFound(s) => s,
            EngineError::InsufficientFunds(s) => s,
            EngineError::InsufficientHeldFunds(s) => s,
            EngineError::InvalidDisputeTarget(s) => s,
            EngineError::InvalidResolveTarget(s) => s,
            EngineError::InvalidChargebackTarget(s) => s,
            EngineError::DisputeNonExistentTransaction(s) => s,
            EngineError::ResolveNonExistentTransaction(s) => s,
            EngineError::ChargebackNonExistentTransaction(s) => s,
            EngineError::TransactionClientMismatch(s) => s,
            EngineError::TransactionAlreadyDisputed(s) => s,
            EngineError::TransactionNotDisputed(s) => s,
            EngineError::TransactionAlreadyChargedBack(s) => s,
        }
    }
}

} // verus!
