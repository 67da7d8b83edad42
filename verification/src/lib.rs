//! Delegated-authorization engine for a custodial signing service.
//!
//! An owner pre-approves a bounded set of operations on a shared signing key;
//! a semi-trusted relayer may later trigger exactly those operations, each at
//! most once, by asking an external signer for a signature.
//!
//! - [`signature`] authenticates an owner under one of three wallet schemes.
//! - [`store`] holds the permission set of one identity key.
//! - [`contract`] is the engine: it checks every request and changes the
//!   state, or turns the request down and leaves the state alone.
//! - [`model`] says what the engine's state is and what each request does
//!   to it; [`laws`] proves what holds of every state.
//!
//! The engine does no input or output. Its caller hands it the host's
//! context with every call, sends the request that `sign_allowed` returns to
//! the external signer, and hands the signer's answer to
//! `on_mpc_sign_complete`.

pub mod contract;
pub mod error;
pub mod hexcode;
pub mod keyed;
pub mod laws;
pub mod model;
pub mod request;
pub mod signature;
pub mod store;
pub mod text;
pub mod types;

pub use contract::{CallContext, PermissionContract};
pub use error::{ErrorKind, PermissionError};
pub use request::{PayloadV2, SignRequest};
pub use signature::{
    verify_ed25519_signature, verify_evm_signature, verify_near_signature,
    verify_solana_signature,
};
pub use store::{UserPermissions, UserPermissionsView};
pub use types::{
    AllowedOperation, AllowedOperationInput, AllowedOperationType, DerivationPath,
    PriceCondition, RegisteredWallet, WalletType,
};
