//! The ways in which a request is turned down.

use vstd::prelude::*;

verus! {

/// The five classes of failure that callers tell apart.
#[derive(Clone, Copy, Debug, PartialEq, Eq, Structural)]
pub enum ErrorKind {
    /// A bad or missing relayer, a bad owner signature, a malformed request.
    AuthenticationFailure,
    /// A nonce that was consumed, an operation that was executed.
    ReplayRejected,
    /// An unknown identity key or operation, a signer that is no registered wallet.
    NotFound,
    /// An expired operation, a price condition that fails, a stale price.
    ConditionNotMet,
    /// The external signer reported a failure.
    ExternalDependencyFailure,
}

/// Why a request was turned down.
#[derive(Clone, Copy, Debug, PartialEq, Eq, Structural)]
pub enum PermissionError {
    /// The caller is not the owner of the engine.
    NotOwner,
    /// The caller is not an authorized relayer.
    NotRelayer,
    /// The owner's signature does not validate.
    InvalidSignature,
    /// The signed message is not the canonical registration message.
    MessageMismatch,
    /// The key type is neither of the two recognized literals.
    InvalidKeyType,
    /// The registration nonce was consumed before.
    NonceAlreadyUsed,
    /// The operation was executed before.
    AlreadyExecuted,
    /// The identity key has issued every operation id it can.
    NonceExhausted,
    /// The identity key has no permission set.
    UnknownPath,
    /// The signer is not a registered wallet of the identity key.
    SignerNotAuthorized,
    /// The operation is not in the allowlist.
    UnknownOperation,
    /// The operation's expiry has passed.
    Expired,
    /// The price timestamp lies more than a minute before the block time.
    StalePrice,
    /// The price timestamp lies more than a minute after the block time.
    PriceAhead,
    /// A limit order that waits for a price above its trigger.
    LimitPriceBelowTrigger,
    /// A limit order that waits for a price below its trigger.
    LimitPriceAboveTrigger,
    /// A stop-loss whose trigger the price has not fallen to.
    StopLossNotTriggered,
    /// A take-profit whose trigger the price has not risen to.
    TakeProfitNotTriggered,
    /// The external signer failed; the reservation was released.
    SignerFailed,
}

impl PermissionError {
    /// The class of this failure.
    pub open spec fn spec_kind(self) -> ErrorKind {
        match self {
            PermissionError::NotOwner => ErrorKind::AuthenticationFailure,
            PermissionError::NotRelayer => ErrorKind::AuthenticationFailure,
            PermissionError::InvalidSignature => ErrorKind::AuthenticationFailure,
            PermissionError::MessageMismatch => ErrorKind::AuthenticationFailure,
            PermissionError::InvalidKeyType => ErrorKind::AuthenticationFailure,
            PermissionError::NonceAlreadyUsed => ErrorKind::ReplayRejected,
            PermissionError::AlreadyExecuted => ErrorKind::ReplayRejected,
            PermissionError::NonceExhausted => ErrorKind::ReplayRejected,
            PermissionError::UnknownPath => ErrorKind::NotFound,
            PermissionError::SignerNotAuthorized => ErrorKind::NotFound,
            PermissionError::UnknownOperation => ErrorKind::NotFound,
            PermissionError::Expired => ErrorKind::ConditionNotMet,
            PermissionError::StalePrice => ErrorKind::ConditionNotMet,
            PermissionError::PriceAhead => ErrorKind::ConditionNotMet,
            PermissionError::LimitPriceBelowTrigger => ErrorKind::ConditionNotMet,
            PermissionError::LimitPriceAboveTrigger => ErrorKind::ConditionNotMet,
            PermissionError::StopLossNotTriggered => ErrorKind::ConditionNotMet,
            PermissionError::TakeProfitNotTriggered => ErrorKind::ConditionNotMet,
            PermissionError::SignerFailed => ErrorKind::ExternalDependencyFailure,
        }
    }

    /// The class of this failure.
    #[verifier::when_used_as_spec(spec_kind)]
    pub fn kind(self) -> (kind: ErrorKind)
        ensures
            kind == self.spec_kind(),
    {
        match self {
            PermissionError::NotOwner => ErrorKind::AuthenticationFailure,
            PermissionError::NotRelayer => ErrorKind::AuthenticationFailure,
            PermissionError::InvalidSignature => ErrorKind::AuthenticationFailure,
            PermissionError::MessageMismatch => ErrorKind::AuthenticationFailure,
            PermissionError::InvalidKeyType => ErrorKind::AuthenticationFailure,
            PermissionError::NonceAlreadyUsed => ErrorKind::ReplayRejected,
            PermissionError::AlreadyExecuted => ErrorKind::ReplayRejected,
            PermissionError::NonceExhausted => ErrorKind::ReplayRejected,
            PermissionError::UnknownPath => ErrorKind::NotFound,
            PermissionError::SignerNotAuthorized => ErrorKind::NotFound,
            PermissionError::UnknownOperation => ErrorKind::NotFound,
            PermissionError::Expired => ErrorKind::ConditionNotMet,
            PermissionError::StalePrice => ErrorKind::ConditionNotMet,
            PermissionError::PriceAhead => ErrorKind::ConditionNotMet,
            PermissionError::LimitPriceBelowTrigger => ErrorKind::ConditionNotMet,
            PermissionError::LimitPriceAboveTrigger => ErrorKind::ConditionNotMet,
            PermissionError::StopLossNotTriggered => ErrorKind::ConditionNotMet,
            PermissionError::TakeProfitNotTriggered => ErrorKind::ConditionNotMet,
            PermissionError::SignerFailed => ErrorKind::ExternalDependencyFailure,
        }
    }

    /// The text that a caller is shown for this failure.
    pub open spec fn spec_message(self) -> Seq<char> {
        match self {
            PermissionError::NotOwner => "Only owner can call this method"@,
            PermissionError::NotRelayer => "Only authorized TEE relayers can call this method"@,
            PermissionError::InvalidSignature => "Invalid signature"@,
            PermissionError::MessageMismatch => "Message does not match expected format"@,
            PermissionError::InvalidKeyType => "Invalid key type"@,
            PermissionError::NonceAlreadyUsed => "Nonce already used"@,
            PermissionError::AlreadyExecuted => "Operation already executed"@,
            PermissionError::NonceExhausted => "Operation ids exhausted"@,
            PermissionError::UnknownPath => "No permissions for derivation path"@,
            PermissionError::SignerNotAuthorized => "Signer not authorized for this derivation path"@,
            PermissionError::UnknownOperation => "Operation not in allowlist"@,
            PermissionError::Expired => "Operation has expired"@,
            PermissionError::StalePrice => "Price timestamp too old"@,
            PermissionError::PriceAhead => "Price timestamp too far ahead"@,
            PermissionError::LimitPriceBelowTrigger => "Price condition not met: price below trigger"@,
            PermissionError::LimitPriceAboveTrigger => "Price condition not met: price above trigger"@,
            PermissionError::StopLossNotTriggered => "Stop-loss condition not met: price above trigger"@,
            PermissionError::TakeProfitNotTriggered => "Take-profit condition not met: price below trigger"@,
            PermissionError::SignerFailed => "MPC sign failed"@,
        }
    }

    /// The text that a caller is shown for this failure.
    pub fn message(self) -> (text: &'static str)
        ensures
            text@ == self.spec_message(),
    {
        match self {
            PermissionError::NotOwner => "Only owner can call this method",
            PermissionError::NotRelayer => "Only authorized TEE relayers can call this method",
            PermissionError::InvalidSignature => "Invalid signature",
            PermissionError::MessageMismatch => "Message does not match expected format",
            PermissionError::InvalidKeyType => "Invalid key type",
            PermissionError::NonceAlreadyUsed => "Nonce already used",
            PermissionError::AlreadyExecuted => "Operation already executed",
            PermissionError::NonceExhausted => "Operation ids exhausted",
            PermissionError::UnknownPath => "No permissions for derivation path",
            PermissionError::SignerNotAuthorized => "Signer not authorized for this derivation path",
            PermissionError::UnknownOperation => "Operation not in allowlist",
            PermissionError::Expired => "Operation has expired",
            PermissionError::StalePrice => "Price timestamp too old",
            PermissionError::PriceAhead => "Price timestamp too far ahead",
            PermissionError::LimitPriceBelowTrigger => "Price condition not met: price below trigger",
            PermissionError::LimitPriceAboveTrigger => "Price condition not met: price above trigger",
            PermissionError::StopLossNotTriggered => "Stop-loss condition not met: price above trigger",
            PermissionError::TakeProfitNotTriggered => "Take-profit condition not met: price below trigger",
            PermissionError::SignerFailed => "MPC sign failed",
        }
    }
}

} // verus!
