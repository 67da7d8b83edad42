//! The permission data model, and the mathematical model of each type.

use vstd::prelude::*;
use vstd::slice::slice_to_vec;

verus! {

/// Identifier of one signing key; all permission state is partitioned by it.
pub type DerivationPath = String;

/// The scheme under which a wallet signs.
#[derive(Clone, Copy, Debug, PartialEq, Eq, Structural)]
pub enum WalletType {
    /// Ed25519 over the SHA-256 digest of the message.
    Near,
    /// Ed25519 over the raw message.
    Solana,
    /// secp256k1 ECDSA over the personal-message envelope.
    Evm,
}

/// The side of its trigger on which a limit order executes.
#[derive(Clone, Copy, Debug, PartialEq, Eq, Structural)]
pub enum PriceCondition {
    Above,
    Below,
}

/// What an owner can approve in advance.
#[derive(Debug)]
pub enum AllowedOperationType {
    /// Any swap from source to target asset; no price condition.
    Swap { source_asset: String, target_asset: String, max_amount: u128 },
    /// Executes once the price is on the given side of the trigger.
    LimitOrder {
        price_asset: String,
        quote_asset: String,
        trigger_price: u128,
        condition: PriceCondition,
        source_asset: String,
        target_asset: String,
        max_amount: u128,
    },
    /// Executes once the price has fallen to the trigger.
    StopLoss {
        price_asset: String,
        quote_asset: String,
        trigger_price: u128,
        source_asset: String,
        target_asset: String,
        max_amount: u128,
    },
    /// Executes once the price has risen to the trigger.
    TakeProfit {
        price_asset: String,
        quote_asset: String,
        trigger_price: u128,
        source_asset: String,
        target_asset: String,
        max_amount: u128,
    },
}

/// Model of [`AllowedOperationType`].
pub enum OperationTypeModel {
    Swap { source_asset: Seq<char>, target_asset: Seq<char>, max_amount: u128 },
    LimitOrder {
        price_asset: Seq<char>,
        quote_asset: Seq<char>,
        trigger_price: u128,
        condition: PriceCondition,
        source_asset: Seq<char>,
        target_asset: Seq<char>,
        max_amount: u128,
    },
    StopLoss {
        price_asset: Seq<char>,
        quote_asset: Seq<char>,
        trigger_price: u128,
        source_asset: Seq<char>,
        target_asset: Seq<char>,
        max_amount: u128,
    },
    TakeProfit {
        price_asset: Seq<char>,
        quote_asset: Seq<char>,
        trigger_price: u128,
        source_asset: Seq<char>,
        target_asset: Seq<char>,
        max_amount: u128,
    },
}

impl View for AllowedOperationType {
    type V = OperationTypeModel;

    open spec fn view(&self) -> OperationTypeModel {
        match *self {
            AllowedOperationType::Swap { source_asset, target_asset, max_amount } => {
                OperationTypeModel::Swap {
                    source_asset: source_asset@,
                    target_asset: target_asset@,
                    max_amount,
                }
            },
            AllowedOperationType::LimitOrder {
                price_asset,
                quote_asset,
                trigger_price,
                condition,
                source_asset,
                target_asset,
                max_amount,
            } => OperationTypeModel::LimitOrder {
                price_asset: price_asset@,
                quote_asset: quote_asset@,
                trigger_price,
                condition,
                source_asset: source_asset@,
                target_asset: target_asset@,
                max_amount,
            },
            AllowedOperationType::StopLoss {
                price_asset,
                quote_asset,
                trigger_price,
                source_asset,
                target_asset,
                max_amount,
            } => OperationTypeModel::StopLoss {
                price_asset: price_asset@,
                quote_asset: quote_asset@,
                trigger_price,
                source_asset: source_asset@,
                target_asset: target_asset@,
                max_amount,
            },
            AllowedOperationType::TakeProfit {
                price_asset,
                quote_asset,
                trigger_price,
                source_asset,
                target_asset,
                max_amount,
            } => OperationTypeModel::TakeProfit {
                price_asset: price_asset@,
                quote_asset: quote_asset@,
                trigger_price,
                source_asset: source_asset@,
                target_asset: target_asset@,
                max_amount,
            },
        }
    }
}

impl Clone for AllowedOperationType {
    fn clone(&self) -> (copy: Self)
        ensures
            copy@ == self@,
    {
        match self {
            AllowedOperationType::Swap { source_asset, target_asset, max_amount } => {
                AllowedOperationType::Swap {
                    source_asset: source_asset.clone(),
                    target_asset: target_asset.clone(),
                    max_amount: *max_amount,
                }
            },
            AllowedOperationType::LimitOrder {
                price_asset,
                quote_asset,
                trigger_price,
                condition,
                source_asset,
                target_asset,
                max_amount,
            } => AllowedOperationType::LimitOrder {
                price_asset: price_asset.clone(),
                quote_asset: quote_asset.clone(),
                trigger_price: *trigger_price,
                condition: *condition,
                source_asset: source_asset.clone(),
                target_asset: target_asset.clone(),
                max_amount: *max_amount,
            },
            AllowedOperationType::StopLoss {
                price_asset,
                quote_asset,
                trigger_price,
                source_asset,
                target_asset,
                max_amount,
            } => AllowedOperationType::StopLoss {
                price_asset: price_asset.clone(),
                quote_asset: quote_asset.clone(),
                trigger_price: *trigger_price,
                source_asset: source_asset.clone(),
                target_asset: target_asset.clone(),
                max_amount: *max_amount,
            },
            AllowedOperationType::TakeProfit {
                price_asset,
                quote_asset,
                trigger_price,
                source_asset,
                target_asset,
                max_amount,
            } => AllowedOperationType::TakeProfit {
                price_asset: price_asset.clone(),
                quote_asset: quote_asset.clone(),
                trigger_price: *trigger_price,
                source_asset: source_asset.clone(),
                target_asset: target_asset.clone(),
                max_amount: *max_amount,
            },
        }
    }
}

/// One pre-approved operation.
#[derive(Debug)]
pub struct AllowedOperation {
    /// Unique within its identity key.
    pub operation_id: String,
    /// The identity key this operation belongs to.
    pub derivation_path: DerivationPath,
    pub operation_type: AllowedOperationType,
    pub destination_address: String,
    pub destination_chain: String,
    /// Maximum slippage, in basis points.
    pub slippage_bps: u16,
    /// Time from which the operation is no longer executable, if any.
    pub expires_at: Option<u64>,
    pub executed: bool,
    /// The nonce from which the operation id was derived.
    pub nonce: u64,
    pub created_at: u64,
}

/// Model of [`AllowedOperation`].
pub struct OperationModel {
    pub operation_id: Seq<char>,
    pub derivation_path: Seq<char>,
    pub operation_type: OperationTypeModel,
    pub destination_address: Seq<char>,
    pub destination_chain: Seq<char>,
    pub slippage_bps: u16,
    pub expires_at: Option<u64>,
    pub executed: bool,
    pub nonce: u64,
    pub created_at: u64,
}

impl View for AllowedOperation {
    type V = OperationModel;

    open spec fn view(&self) -> OperationModel {
        OperationModel {
            operation_id: self.operation_id@,
            derivation_path: self.derivation_path@,
            operation_type: self.operation_type@,
            destination_address: self.destination_address@,
            destination_chain: self.destination_chain@,
            slippage_bps: self.slippage_bps,
            expires_at: self.expires_at,
            executed: self.executed,
            nonce: self.nonce,
            created_at: self.created_at,
        }
    }
}

impl Clone for AllowedOperation {
    fn clone(&self) -> (copy: Self)
        ensures
            copy@ == self@,
    {
        AllowedOperation {
            operation_id: self.operation_id.clone(),
            derivation_path: self.derivation_path.clone(),
            operation_type: self.operation_type.clone(),
            destination_address: self.destination_address.clone(),
            destination_chain: self.destination_chain.clone(),
            slippage_bps: self.slippage_bps,
            expires_at: self.expires_at,
            executed: self.executed,
            nonce: self.nonce,
            created_at: self.created_at,
        }
    }
}

/// What an owner supplies to approve an operation; the engine fills in the
/// rest.
#[derive(Debug)]
pub struct AllowedOperationInput {
    pub operation_type: AllowedOperationType,
    pub destination_address: String,
    pub destination_chain: String,
    pub slippage_bps: u16,
    pub expires_at: Option<u64>,
}

/// Model of [`AllowedOperationInput`].
pub struct OperationInputModel {
    pub operation_type: OperationTypeModel,
    pub destination_address: Seq<char>,
    pub destination_chain: Seq<char>,
    pub slippage_bps: u16,
    pub expires_at: Option<u64>,
}

impl View for AllowedOperationInput {
    type V = OperationInputModel;

    open spec fn view(&self) -> OperationInputModel {
        OperationInputModel {
            operation_type: self.operation_type@,
            destination_address: self.destination_address@,
            destination_chain: self.destination_chain@,
            slippage_bps: self.slippage_bps,
            expires_at: self.expires_at,
        }
    }
}

impl Clone for AllowedOperationInput {
    fn clone(&self) -> (copy: Self)
        ensures
            copy@ == self@,
    {
        AllowedOperationInput {
            operation_type: self.operation_type.clone(),
            destination_address: self.destination_address.clone(),
            destination_chain: self.destination_chain.clone(),
            slippage_bps: self.slippage_bps,
            expires_at: self.expires_at,
        }
    }
}

/// An owner-controlled address that may manage an identity key's allowlist.
#[derive(Debug)]
pub struct RegisteredWallet {
    pub wallet_type: WalletType,
    pub public_key: Vec<u8>,
    pub chain_address: String,
}

/// Model of [`RegisteredWallet`].
pub struct WalletModel {
    pub wallet_type: WalletType,
    pub public_key: Seq<u8>,
    pub chain_address: Seq<char>,
}

impl View for RegisteredWallet {
    type V = WalletModel;

    open spec fn view(&self) -> WalletModel {
        WalletModel {
            wallet_type: self.wallet_type,
            public_key: self.public_key@,
            chain_address: self.chain_address@,
        }
    }
}

impl Clone for RegisteredWallet {
    fn clone(&self) -> (copy: Self)
        ensures
            copy@ == self@,
    {
        RegisteredWallet {
            wallet_type: self.wallet_type,
            public_key: slice_to_vec(self.public_key.as_slice()),
            chain_address: self.chain_address.clone(),
        }
    }
}

} // verus!
