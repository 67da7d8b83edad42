use ed25519_dalek::{Signer, SigningKey};
use k256::ecdsa::SigningKey as EvmKey;
use permission::contract::{CallContext, PermissionContract};
use permission::error::{ErrorKind, PermissionError};
use permission::request::build_sign_request;
use permission::store::{UserPermissions, UserPermissionsView};
use permission::types::{
    AllowedOperation, AllowedOperationInput, AllowedOperationType, PriceCondition,
    RegisteredWallet, WalletType,
};

const OWNER: &str = "owner.near";
const RELAYER: &str = "relayer.near";
const PATH: &str = "solana-1,alice";
const ADDRESS: &str = "Aaa...";

fn ctx(who: &str, now: u64) -> CallContext {
    CallContext { predecessor: who.to_string(), block_timestamp: now }
}

fn engine() -> PermissionContract {
    let mut contract = PermissionContract::new(OWNER.to_string(), "mpc.near".to_string());
    contract.register_tee_relayer(&ctx(OWNER, 0), RELAYER.to_string()).unwrap();
    contract
}

fn alice() -> SigningKey {
    SigningKey::from_bytes(&[1u8; 32])
}

fn registration_text(path: &str, nonce: u64) -> Vec<u8> {
    format!("Register wallet for derivation path: {} with nonce: {}", path, nonce).into_bytes()
}

fn register(
    contract: &mut PermissionContract,
    key: &SigningKey,
    path: &str,
    address: &str,
    nonce: u64,
) -> Result<(), PermissionError> {
    let message = registration_text(path, nonce);
    let signature = key.sign(&message).to_bytes().to_vec();
    contract.register_wallet(
        &ctx(RELAYER, 0),
        path.to_string(),
        WalletType::Solana,
        key.verifying_key().to_bytes().to_vec(),
        address.to_string(),
        signature,
        message,
        nonce,
    )
}

fn swap() -> AllowedOperationType {
    AllowedOperationType::Swap {
        source_asset: "USDC".to_string(),
        target_asset: "SOL".to_string(),
        max_amount: 100,
    }
}

fn stop_loss(trigger_price: u128) -> AllowedOperationType {
    AllowedOperationType::StopLoss {
        price_asset: "SOL".to_string(),
        quote_asset: "USDC".to_string(),
        trigger_price,
        source_asset: "SOL".to_string(),
        target_asset: "USDC".to_string(),
        max_amount: 10,
    }
}

fn take_profit(trigger_price: u128) -> AllowedOperationType {
    AllowedOperationType::TakeProfit {
        price_asset: "SOL".to_string(),
        quote_asset: "USDC".to_string(),
        trigger_price,
        source_asset: "SOL".to_string(),
        target_asset: "USDC".to_string(),
        max_amount: 10,
    }
}

fn limit_order(trigger_price: u128, condition: PriceCondition) -> AllowedOperationType {
    AllowedOperationType::LimitOrder {
        price_asset: "SOL".to_string(),
        quote_asset: "USDC".to_string(),
        trigger_price,
        condition,
        source_asset: "USDC".to_string(),
        target_asset: "SOL".to_string(),
        max_amount: 10,
    }
}

fn input(operation_type: AllowedOperationType, expires_at: Option<u64>) -> AllowedOperationInput {
    AllowedOperationInput {
        operation_type,
        destination_address: "dest".to_string(),
        destination_chain: "solana".to_string(),
        slippage_bps: 50,
        expires_at,
    }
}

fn add(
    contract: &mut PermissionContract,
    key: &SigningKey,
    signer: &str,
    now: u64,
    operation: AllowedOperationInput,
) -> Result<String, PermissionError> {
    let message = b"add operation".to_vec();
    let signature = key.sign(&message).to_bytes().to_vec();
    contract.add_allowed_operation(
        &ctx(RELAYER, now),
        PATH.to_string(),
        operation,
        signature,
        message,
        signer.to_string(),
    )
}

fn remove(
    contract: &mut PermissionContract,
    key: &SigningKey,
    signer: &str,
    operation_id: &str,
) -> Result<(), PermissionError> {
    let message = b"remove operation".to_vec();
    let signature = key.sign(&message).to_bytes().to_vec();
    contract.remove_allowed_operation(
        &ctx(RELAYER, 0),
        PATH.to_string(),
        operation_id.to_string(),
        signature,
        message,
        signer.to_string(),
    )
}

fn sign(
    contract: &mut PermissionContract,
    now: u64,
    operation_id: &str,
    price: Option<u128>,
    timestamp: Option<u64>,
) -> Result<permission::request::SignRequest, PermissionError> {
    contract.sign_allowed(
        &ctx(RELAYER, now),
        PATH.to_string(),
        operation_id.to_string(),
        vec![0xde, 0xad, 0x01],
        "Eddsa".to_string(),
        price,
        timestamp,
    )
}

fn with_operation(operation_type: AllowedOperationType, expires_at: Option<u64>) -> (PermissionContract, String) {
    let mut contract = engine();
    register(&mut contract, &alice(), PATH, ADDRESS, 1).unwrap();
    let id = add(&mut contract, &alice(), ADDRESS, 5, input(operation_type, expires_at)).unwrap();
    (contract, id)
}

fn active(contract: &PermissionContract) -> Vec<(String, String)> {
    contract
        .get_active_operations(0, u64::MAX)
        .into_iter()
        .map(|(path, operation)| (path, operation.operation_id))
        .collect()
}

fn allowed(contract: &PermissionContract, now: u64, id: &str) -> bool {
    contract.is_operation_allowed(&ctx("anyone", now), PATH.to_string(), id.to_string())
}

#[test]
fn test_init() {
    let owner: String = "owner.near".parse().unwrap();
    let mpc: String = "mpc.near".parse().unwrap();

    let contract = PermissionContract::new(owner.clone(), mpc);

    assert_eq!(contract.owner, owner);
}

#[test]
fn lib_test_register_tee_relayer() {
    let owner: String = "owner.near".parse().unwrap();
    let mpc: String = "mpc.near".parse().unwrap();
    let relayer: String = "relayer.near".parse().unwrap();

    let mut contract = PermissionContract::new(owner.clone(), mpc);

    contract.register_tee_relayer(&ctx(&owner, 0), relayer.clone()).unwrap();
    assert!(contract.is_tee_relayer(relayer));
}

#[test]
fn new_engine_is_empty() {
    let contract = PermissionContract::new(OWNER.to_string(), "mpc.near".to_string());
    assert_eq!(contract.mpc_contract, "mpc.near");
    assert!(!contract.is_tee_relayer(OWNER.to_string()));
    assert!(contract.get_active_operations(0, 10).is_empty());
    assert!(contract.get_operations("nonexistent-path-12345".to_string()).is_empty());
    assert!(contract.get_operation(PATH.to_string(), "x".to_string()).is_none());
    assert!(contract.get_path_for_wallet(ADDRESS.to_string()).is_none());
    assert!(!contract.is_operation_allowed(
        &ctx("anyone", 0),
        "test-path".to_string(),
        "nonexistent-op".to_string()
    ));
}

#[test]
fn only_the_owner_administers() {
    let mut contract = engine();
    let stranger = ctx("mallory.near", 0);
    assert_eq!(
        contract.register_tee_relayer(&stranger, "mallory.near".to_string()),
        Err(PermissionError::NotOwner)
    );
    assert!(!contract.is_tee_relayer("mallory.near".to_string()));
    assert_eq!(
        contract.remove_tee_relayer(&stranger, RELAYER.to_string()),
        Err(PermissionError::NotOwner)
    );
    assert!(contract.is_tee_relayer(RELAYER.to_string()));
    assert_eq!(
        contract.update_mpc_contract(&stranger, "evil.near".to_string()),
        Err(PermissionError::NotOwner)
    );
    assert_eq!(contract.mpc_contract, "mpc.near");
    assert_eq!(contract.assert_owner(&stranger), Err(PermissionError::NotOwner));
    assert_eq!(contract.assert_owner(&ctx(OWNER, 0)), Ok(()));
    assert_eq!(contract.assert_tee_relayer(&stranger), Err(PermissionError::NotRelayer));
    assert_eq!(contract.assert_tee_relayer(&ctx(RELAYER, 0)), Ok(()));
}

#[test]
fn relayers_are_a_set() {
    let mut contract = engine();
    let owner = ctx(OWNER, 0);
    contract.register_tee_relayer(&owner, RELAYER.to_string()).unwrap();
    contract.register_tee_relayer(&owner, "second.near".to_string()).unwrap();
    assert_eq!(contract.tee_relayers.len(), 2);
    contract.remove_tee_relayer(&owner, RELAYER.to_string()).unwrap();
    assert!(!contract.is_tee_relayer(RELAYER.to_string()));
    assert!(contract.is_tee_relayer("second.near".to_string()));
    contract.remove_tee_relayer(&owner, RELAYER.to_string()).unwrap();
    assert_eq!(contract.tee_relayers.len(), 1);
}

#[test]
fn owner_updates_the_signer() {
    let mut contract = engine();
    contract.update_mpc_contract(&ctx(OWNER, 0), "v2.mpc.near".to_string()).unwrap();
    assert_eq!(contract.mpc_contract, "v2.mpc.near");
}

#[test]
fn scenario_register_add_sign() {
    let mut contract = engine();
    let key = alice();
    assert_eq!(register(&mut contract, &key, "solana-1,alice", "Aaa...", 1), Ok(()));
    assert_eq!(
        contract.get_path_for_wallet("Aaa...".to_string()),
        Some("solana-1,alice".to_string())
    );

    let id = add(&mut contract, &key, "Aaa...", 5, input(swap(), None)).unwrap();
    assert_eq!(id, "solana-1,alice-1");
    assert_eq!(active(&contract), vec![(PATH.to_string(), id.clone())]);
    assert!(allowed(&contract, 6, &id));

    let request = sign(&mut contract, 6, &id, None, None).unwrap();
    assert_eq!(request.path, "solana-1,alice");
    assert_eq!(request.domain_id, 1);
    assert_eq!(request.payload_v2.eddsa, Some("dead01".to_string()));
    assert_eq!(request.payload_v2.ecdsa, None);

    assert!(active(&contract).is_empty());
    assert!(!allowed(&contract, 6, &id));
    let stored = contract.get_operation(PATH.to_string(), id.clone()).unwrap();
    assert!(stored.executed);
}

#[test]
fn scenario_stop_loss() {
    let (mut contract, id) = with_operation(stop_loss(50), None);
    let rejected = sign(&mut contract, 6, &id, Some(60), None).unwrap_err();
    assert_eq!(rejected, PermissionError::StopLossNotTriggered);
    assert_eq!(rejected.kind(), ErrorKind::ConditionNotMet);
    assert!(allowed(&contract, 6, &id));
    assert_eq!(active(&contract).len(), 1);

    assert!(sign(&mut contract, 6, &id, Some(40), None).is_ok());
    assert!(!allowed(&contract, 6, &id));
}

#[test]
fn new_operation_carries_the_input() {
    let (contract, id) = with_operation(swap(), Some(99));
    let operation = contract.get_operation(PATH.to_string(), id.clone()).unwrap();
    assert_eq!(operation.operation_id, id);
    assert_eq!(operation.derivation_path, PATH);
    assert_eq!(operation.destination_address, "dest");
    assert_eq!(operation.destination_chain, "solana");
    assert_eq!(operation.slippage_bps, 50);
    assert_eq!(operation.expires_at, Some(99));
    assert!(!operation.executed);
    assert_eq!(operation.nonce, 1);
    assert_eq!(operation.created_at, 5);
    assert!(matches!(
        operation.operation_type,
        AllowedOperationType::Swap { max_amount: 100, .. }
    ));
}

#[test]
fn operation_ids_count_up() {
    let (mut contract, first) = with_operation(swap(), None);
    let second = add(&mut contract, &alice(), ADDRESS, 6, input(swap(), None)).unwrap();
    let third = add(&mut contract, &alice(), ADDRESS, 7, input(stop_loss(1), None)).unwrap();
    assert_eq!(first, "solana-1,alice-1");
    assert_eq!(second, "solana-1,alice-2");
    assert_eq!(third, "solana-1,alice-3");
    remove(&mut contract, &alice(), ADDRESS, &second).unwrap();
    let fourth = add(&mut contract, &alice(), ADDRESS, 8, input(swap(), None)).unwrap();
    assert_eq!(fourth, "solana-1,alice-4");
    let ids: Vec<String> = contract
        .get_operations(PATH.to_string())
        .into_iter()
        .map(|operation| operation.operation_id)
        .collect();
    assert_eq!(ids, vec![first, third, fourth]);
}

#[test]
fn unregistered_signer_changes_nothing() {
    let (mut contract, id) = with_operation(swap(), None);
    let mallory = SigningKey::from_bytes(&[66u8; 32]);

    let added = add(&mut contract, &mallory, "Mmm...", 6, input(swap(), None));
    assert_eq!(added, Err(PermissionError::SignerNotAuthorized));
    assert_eq!(PermissionError::SignerNotAuthorized.kind(), ErrorKind::NotFound);
    assert_eq!(contract.get_operations(PATH.to_string()).len(), 1);
    assert_eq!(contract.permissions[0].1.next_nonce, 2);
    assert_eq!(active(&contract), vec![(PATH.to_string(), id.clone())]);

    let removed = remove(&mut contract, &mallory, "Mmm...", &id);
    assert_eq!(removed, Err(PermissionError::SignerNotAuthorized));
    assert!(contract.get_operation(PATH.to_string(), id.clone()).is_some());
    assert_eq!(active(&contract), vec![(PATH.to_string(), id)]);
}

#[test]
fn wallet_of_another_path_is_not_authorized() {
    let (mut contract, id) = with_operation(swap(), None);
    let bob = SigningKey::from_bytes(&[2u8; 32]);
    register(&mut contract, &bob, "solana-1,bob", "Bbb...", 1).unwrap();
    assert_eq!(
        add(&mut contract, &bob, "Bbb...", 6, input(swap(), None)),
        Err(PermissionError::SignerNotAuthorized)
    );
    assert_eq!(
        remove(&mut contract, &bob, "Bbb...", &id),
        Err(PermissionError::SignerNotAuthorized)
    );
}

#[test]
fn bad_owner_signature_changes_nothing() {
    let (mut contract, id) = with_operation(swap(), None);
    let mallory = SigningKey::from_bytes(&[66u8; 32]);
    assert_eq!(
        add(&mut contract, &mallory, ADDRESS, 6, input(swap(), None)),
        Err(PermissionError::InvalidSignature)
    );
    assert_eq!(remove(&mut contract, &mallory, ADDRESS, &id), Err(PermissionError::InvalidSignature));
    assert_eq!(PermissionError::InvalidSignature.kind(), ErrorKind::AuthenticationFailure);
    assert_eq!(contract.get_operations(PATH.to_string()).len(), 1);
}

#[test]
fn allowlist_changes_need_a_relayer_and_a_path() {
    let (mut contract, id) = with_operation(swap(), None);
    let key = alice();
    let message = b"add operation".to_vec();
    let signature = key.sign(&message).to_bytes().to_vec();
    assert_eq!(
        contract.add_allowed_operation(
            &ctx("mallory.near", 0),
            PATH.to_string(),
            input(swap(), None),
            signature.clone(),
            message.clone(),
            ADDRESS.to_string(),
        ),
        Err(PermissionError::NotRelayer)
    );
    assert_eq!(
        contract.add_allowed_operation(
            &ctx(RELAYER, 0),
            "unknown".to_string(),
            input(swap(), None),
            signature.clone(),
            message.clone(),
            ADDRESS.to_string(),
        ),
        Err(PermissionError::UnknownPath)
    );
    assert_eq!(
        contract.remove_allowed_operation(
            &ctx("mallory.near", 0),
            PATH.to_string(),
            id.clone(),
            signature.clone(),
            message.clone(),
            ADDRESS.to_string(),
        ),
        Err(PermissionError::NotRelayer)
    );
    assert_eq!(
        contract.remove_allowed_operation(
            &ctx(RELAYER, 0),
            "unknown".to_string(),
            id,
            signature,
            message,
            ADDRESS.to_string(),
        ),
        Err(PermissionError::UnknownPath)
    );
    assert_eq!(PermissionError::UnknownPath.kind(), ErrorKind::NotFound);
    assert_eq!(PermissionError::NotRelayer.kind(), ErrorKind::AuthenticationFailure);
}

#[test]
fn revocation_is_idempotent() {
    let (mut contract, id) = with_operation(swap(), None);
    assert_eq!(remove(&mut contract, &alice(), ADDRESS, &id), Ok(()));
    assert!(contract.get_operation(PATH.to_string(), id.clone()).is_none());
    assert!(active(&contract).is_empty());
    assert!(!allowed(&contract, 6, &id));
    assert_eq!(remove(&mut contract, &alice(), ADDRESS, &id), Ok(()));
    assert_eq!(remove(&mut contract, &alice(), ADDRESS, "never-there"), Ok(()));
    assert_eq!(
        sign(&mut contract, 6, &id, None, None).unwrap_err(),
        PermissionError::UnknownOperation
    );
}

#[test]
fn at_most_once() {
    let (mut contract, id) = with_operation(swap(), None);
    assert!(sign(&mut contract, 6, &id, None, None).is_ok());
    assert!(!allowed(&contract, 6, &id));
    let second = sign(&mut contract, 6, &id, None, None).unwrap_err();
    assert_eq!(second, PermissionError::AlreadyExecuted);
    assert_eq!(second.kind(), ErrorKind::ReplayRejected);
    let third = sign(&mut contract, 7, &id, Some(1), Some(7)).unwrap_err();
    assert_eq!(third, PermissionError::AlreadyExecuted);
    assert!(active(&contract).is_empty());
}

#[test]
fn expiry_is_checked_at_read_time() {
    let (mut contract, id) = with_operation(swap(), Some(1_000));
    assert!(allowed(&contract, 0, &id));
    assert!(allowed(&contract, 999, &id));
    assert!(!allowed(&contract, 1_000, &id));
    assert!(!allowed(&contract, 1_001, &id));
    assert!(!allowed(&contract, u64::MAX, &id));
    // lazy expiry: the entry stays in the index
    assert_eq!(active(&contract).len(), 1);

    let late = sign(&mut contract, 1_000, &id, None, None).unwrap_err();
    assert_eq!(late, PermissionError::Expired);
    assert_eq!(late.kind(), ErrorKind::ConditionNotMet);
    assert!(sign(&mut contract, 999, &id, None, None).is_ok());
    assert!(!allowed(&contract, 0, &id));
    assert!(!allowed(&contract, 1_000, &id));
}

#[test]
fn registration_nonce_cannot_be_replayed() {
    let mut contract = engine();
    let key = alice();
    assert_eq!(register(&mut contract, &key, PATH, ADDRESS, 7), Ok(()));
    let replay = register(&mut contract, &key, PATH, ADDRESS, 7).unwrap_err();
    assert_eq!(replay, PermissionError::NonceAlreadyUsed);
    assert_eq!(replay.kind(), ErrorKind::ReplayRejected);
    // the same nonce is consumed for every identity key
    assert_eq!(
        register(&mut contract, &key, "other-path", ADDRESS, 7),
        Err(PermissionError::NonceAlreadyUsed)
    );

    assert_eq!(register(&mut contract, &key, PATH, ADDRESS, 8), Ok(()));
    assert_eq!(contract.permissions.len(), 1);
    assert_eq!(contract.permissions[0].1.owner_wallets.len(), 1);
    assert_eq!(contract.permissions[0].1.next_nonce, 1);
    // another address may use the nonce
    let bob = SigningKey::from_bytes(&[2u8; 32]);
    assert_eq!(register(&mut contract, &bob, PATH, "Bbb...", 7), Ok(()));
    assert_eq!(contract.permissions[0].1.owner_wallets.len(), 2);
}

#[test]
fn registration_checks_relayer_signature_and_text() {
    let mut contract = engine();
    let key = alice();
    let message = registration_text(PATH, 1);
    let signature = key.sign(&message).to_bytes().to_vec();
    let public_key = key.verifying_key().to_bytes().to_vec();

    assert_eq!(
        contract.register_wallet(
            &ctx("mallory.near", 0),
            PATH.to_string(),
            WalletType::Solana,
            public_key.clone(),
            ADDRESS.to_string(),
            signature.clone(),
            message.clone(),
            1,
        ),
        Err(PermissionError::NotRelayer)
    );
    let mut forged = signature.clone();
    forged[0] ^= 1;
    assert_eq!(
        contract.register_wallet(
            &ctx(RELAYER, 0),
            PATH.to_string(),
            WalletType::Solana,
            public_key.clone(),
            ADDRESS.to_string(),
            forged,
            message.clone(),
            1,
        ),
        Err(PermissionError::InvalidSignature)
    );
    // a valid signature over a text for another path or nonce
    assert_eq!(
        contract.register_wallet(
            &ctx(RELAYER, 0),
            "solana-1,bob".to_string(),
            WalletType::Solana,
            public_key.clone(),
            ADDRESS.to_string(),
            signature.clone(),
            message.clone(),
            1,
        ),
        Err(PermissionError::MessageMismatch)
    );
    assert_eq!(
        contract.register_wallet(
            &ctx(RELAYER, 0),
            PATH.to_string(),
            WalletType::Solana,
            public_key.clone(),
            ADDRESS.to_string(),
            signature.clone(),
            message.clone(),
            2,
        ),
        Err(PermissionError::MessageMismatch)
    );
    assert_eq!(PermissionError::MessageMismatch.kind(), ErrorKind::AuthenticationFailure);
    assert!(contract.permissions.is_empty());
    assert!(contract.used_nonces.is_empty());
    assert!(contract.get_path_for_wallet(ADDRESS.to_string()).is_none());

    assert_eq!(
        contract.register_wallet(
            &ctx(RELAYER, 0),
            PATH.to_string(),
            WalletType::Solana,
            public_key,
            ADDRESS.to_string(),
            signature,
            message,
            1,
        ),
        Ok(())
    );
}

#[test]
fn register_verified_wallet_goes_by_the_flag() {
    let mut contract = engine();
    let wallet = RegisteredWallet {
        wallet_type: WalletType::Near,
        public_key: vec![0u8; 32],
        chain_address: "alice.near".to_string(),
    };
    let message = registration_text("near-1,alice", 3);
    assert_eq!(
        contract.register_verified_wallet(
            &ctx(RELAYER, 0),
            "near-1,alice".to_string(),
            wallet.clone(),
            &message,
            3,
            false,
        ),
        Err(PermissionError::InvalidSignature)
    );
    assert_eq!(
        contract.register_verified_wallet(
            &ctx(RELAYER, 0),
            "near-1,alice".to_string(),
            wallet.clone(),
            &message,
            3,
            true,
        ),
        Ok(())
    );
    assert_eq!(
        contract.get_path_for_wallet("alice.near".to_string()),
        Some("near-1,alice".to_string())
    );
    assert_eq!(
        contract.register_verified_wallet(
            &ctx(RELAYER, 0),
            "near-1,alice".to_string(),
            wallet,
            &message,
            3,
            true,
        ),
        Err(PermissionError::NonceAlreadyUsed)
    );
}

#[test]
fn near_wallet_signs_the_digest() {
    let mut contract = engine();
    let key = SigningKey::from_bytes(&[4u8; 32]);
    let message = registration_text("near-1,carol", 1);
    let digest = near_sdk::env::sha256(&message);
    let signature = key.sign(&digest).to_bytes().to_vec();
    assert_eq!(
        contract.register_wallet(
            &ctx(RELAYER, 0),
            "near-1,carol".to_string(),
            WalletType::Near,
            key.verifying_key().to_bytes().to_vec(),
            "carol.near".to_string(),
            signature.clone(),
            message.clone(),
            1,
        ),
        Ok(())
    );
    // the same bytes do not validate under the Solana scheme
    assert_eq!(
        contract.register_wallet(
            &ctx(RELAYER, 0),
            "near-1,carol".to_string(),
            WalletType::Solana,
            key.verifying_key().to_bytes().to_vec(),
            "carol.near".to_string(),
            signature,
            registration_text("near-1,carol", 2),
            2,
        ),
        Err(PermissionError::InvalidSignature)
    );
}

#[test]
fn evm_wallet_is_authenticated_by_its_address() {
    let mut contract = engine();
    let key = EvmKey::from_slice(&[0x33u8; 32]).unwrap();
    let point = key.verifying_key().to_encoded_point(false);
    let digest = near_sdk::env::keccak256(&point.as_bytes()[1..]);
    let address = format!("0x{}", hex::encode(&digest[12..]));
    let evm_sign = |message: &[u8]| {
        let mut envelope =
            format!("\x19Ethereum Signed Message:\n{}", message.len()).into_bytes();
        envelope.extend_from_slice(message);
        let (signature, recovery_id) =
            key.sign_prehash_recoverable(&near_sdk::env::keccak256(&envelope)).unwrap();
        let mut bytes = signature.to_bytes().to_vec();
        bytes.push(recovery_id.to_byte() + 27);
        bytes
    };
    let path = "evm-1,dave";
    let message = registration_text(path, 1);
    assert_eq!(
        contract.register_wallet(
            &ctx(RELAYER, 0),
            path.to_string(),
            WalletType::Evm,
            Vec::new(),
            address.clone(),
            evm_sign(&message),
            message,
            1,
        ),
        Ok(())
    );
    let request = b"allow a swap".to_vec();
    let id = contract
        .add_allowed_operation(
            &ctx(RELAYER, 9),
            path.to_string(),
            input(swap(), None),
            evm_sign(&request),
            request.clone(),
            address.clone(),
        )
        .unwrap();
    assert_eq!(id, "evm-1,dave-1");
    assert_eq!(
        contract.add_allowed_operation(
            &ctx(RELAYER, 9),
            path.to_string(),
            input(swap(), None),
            evm_sign(b"something else"),
            request,
            address,
        ),
        Err(PermissionError::InvalidSignature)
    );
    let signed = contract
        .sign_allowed(
            &ctx(RELAYER, 10),
            path.to_string(),
            id,
            vec![0x00, 0xff, 0x1a],
            "Ecdsa".to_string(),
            None,
            None,
        )
        .unwrap();
    assert_eq!(signed.domain_id, 0);
    assert_eq!(signed.payload_v2.eddsa, None);
    assert_eq!(signed.payload_v2.ecdsa, Some("00ff1a".to_string()));
    assert_eq!(signed.path, path);
}

#[test]
fn compensation_releases_the_reservation() {
    let (mut contract, id) = with_operation(stop_loss(50), None);
    assert!(sign(&mut contract, 6, &id, Some(40), Some(6)).is_ok());
    assert!(!allowed(&contract, 6, &id));
    assert!(active(&contract).is_empty());

    let failed = contract.on_mpc_sign_complete(PATH.to_string(), id.clone(), None);
    assert_eq!(failed, Err(PermissionError::SignerFailed));
    assert_eq!(PermissionError::SignerFailed.kind(), ErrorKind::ExternalDependencyFailure);
    assert!(!contract.get_operation(PATH.to_string(), id.clone()).unwrap().executed);
    assert_eq!(active(&contract), vec![(PATH.to_string(), id.clone())]);
    assert!(allowed(&contract, 6, &id));

    assert!(sign(&mut contract, 6, &id, Some(40), Some(6)).is_ok());
    let done = contract.on_mpc_sign_complete(PATH.to_string(), id.clone(), Some(vec![1, 2, 3]));
    assert_eq!(done, Ok(vec![1, 2, 3]));
    assert!(!allowed(&contract, 6, &id));
    assert!(active(&contract).is_empty());
}

#[test]
fn compensation_for_a_revoked_operation_changes_nothing() {
    let (mut contract, id) = with_operation(swap(), None);
    assert!(sign(&mut contract, 6, &id, None, None).is_ok());
    remove(&mut contract, &alice(), ADDRESS, &id).unwrap();
    assert_eq!(
        contract.on_mpc_sign_complete(PATH.to_string(), id.clone(), None),
        Err(PermissionError::SignerFailed)
    );
    assert!(contract.get_operation(PATH.to_string(), id).is_none());
    assert!(active(&contract).is_empty());
    assert_eq!(
        contract.on_mpc_sign_complete("unknown".to_string(), "x".to_string(), None),
        Err(PermissionError::SignerFailed)
    );
    assert!(active(&contract).is_empty());
}

#[test]
fn signing_is_turned_down_in_order() {
    let (mut contract, id) = with_operation(swap(), None);
    let call = |contract: &mut PermissionContract, who: &str, path: &str, id: &str, key: &str| {
        contract.sign_allowed(
            &ctx(who, 6),
            path.to_string(),
            id.to_string(),
            vec![1],
            key.to_string(),
            None,
            None,
        )
    };
    assert_eq!(
        call(&mut contract, "mallory.near", "unknown", "x", "bad").unwrap_err(),
        PermissionError::NotRelayer
    );
    assert_eq!(
        call(&mut contract, RELAYER, "unknown", "x", "bad").unwrap_err(),
        PermissionError::UnknownPath
    );
    let missing = call(&mut contract, RELAYER, PATH, "x", "bad").unwrap_err();
    assert_eq!(missing, PermissionError::UnknownOperation);
    assert_eq!(missing.kind(), ErrorKind::NotFound);
    let key_type = call(&mut contract, RELAYER, PATH, &id, "eddsa").unwrap_err();
    assert_eq!(key_type, PermissionError::InvalidKeyType);
    assert_eq!(key_type.kind(), ErrorKind::AuthenticationFailure);
    assert_eq!(
        call(&mut contract, RELAYER, PATH, &id, "").unwrap_err(),
        PermissionError::InvalidKeyType
    );
    // nothing was reserved on the way
    assert!(allowed(&contract, 6, &id));
    assert_eq!(active(&contract).len(), 1);
    assert!(call(&mut contract, RELAYER, PATH, &id, "Ecdsa").is_ok());
}

#[test]
fn price_must_be_fresh() {
    let minute: u64 = 60_000_000_000;
    let (mut contract, id) = with_operation(swap(), None);
    let now = 10 * minute;
    let stale = sign(&mut contract, now, &id, Some(1), Some(now - minute - 1)).unwrap_err();
    assert_eq!(stale, PermissionError::StalePrice);
    assert_eq!(stale.kind(), ErrorKind::ConditionNotMet);
    assert!(allowed(&contract, now, &id));
    assert_eq!(active(&contract).len(), 1);
    // exactly one minute old is fresh
    assert!(sign(&mut contract, now, &id, Some(1), Some(now - minute)).is_ok());

    let (mut contract, id) = with_operation(stop_loss(50), None);
    // without a timestamp the price counts as fresh
    assert!(sign(&mut contract, now, &id, Some(50), None).is_ok());
    let (mut contract, id) = with_operation(stop_loss(50), None);
    // without a price the timestamp is not looked at
    assert!(sign(&mut contract, now, &id, None, Some(0)).is_ok());
    let (mut contract, id) = with_operation(stop_loss(50), None);
    assert!(sign(&mut contract, now, &id, None, Some(u64::MAX)).is_ok());
}

#[test]
fn price_must_not_be_ahead_of_the_block() {
    let minute: u64 = 60_000_000_000;
    let (mut contract, id) = with_operation(swap(), None);
    let now = 10 * minute;
    let ahead = sign(&mut contract, now, &id, Some(1), Some(now + minute + 1)).unwrap_err();
    assert_eq!(ahead, PermissionError::PriceAhead);
    assert_eq!(ahead.kind(), ErrorKind::ConditionNotMet);
    assert_eq!(
        sign(&mut contract, now, &id, Some(1), Some(now + 60 * minute)).unwrap_err(),
        PermissionError::PriceAhead
    );
    assert_eq!(
        sign(&mut contract, now, &id, Some(1), Some(u64::MAX)).unwrap_err(),
        PermissionError::PriceAhead
    );
    assert_eq!(
        sign(&mut contract, 0, &id, Some(1), Some(minute + 1)).unwrap_err(),
        PermissionError::PriceAhead
    );
    // nothing was reserved
    assert!(allowed(&contract, now, &id));
    assert_eq!(active(&contract).len(), 1);
    assert!(!contract.get_operation(PATH.to_string(), id.clone()).unwrap().executed);
    // exactly one minute ahead is within the window
    assert!(sign(&mut contract, now, &id, Some(1), Some(now + minute)).is_ok());

    // a price that meets the trigger does not make up for its timestamp
    let (mut contract, id) = with_operation(stop_loss(50), None);
    assert_eq!(
        sign(&mut contract, now, &id, Some(40), Some(now + 2 * minute)).unwrap_err(),
        PermissionError::PriceAhead
    );
    assert!(sign(&mut contract, now, &id, Some(40), Some(now + 1)).is_ok());
}

#[test]
fn triggers_of_each_operation_type() {
    let check = |operation_type: AllowedOperationType, price: u128| {
        let (mut contract, id) = with_operation(operation_type, None);
        sign(&mut contract, 6, &id, Some(price), Some(6)).map(|_| ())
    };
    assert_eq!(check(swap(), 0), Ok(()));
    assert_eq!(check(swap(), u128::MAX), Ok(()));

    assert_eq!(check(stop_loss(50), 49), Ok(()));
    assert_eq!(check(stop_loss(50), 50), Ok(()));
    assert_eq!(check(stop_loss(50), 51), Err(PermissionError::StopLossNotTriggered));

    assert_eq!(check(take_profit(50), 51), Ok(()));
    assert_eq!(check(take_profit(50), 50), Ok(()));
    assert_eq!(check(take_profit(50), 49), Err(PermissionError::TakeProfitNotTriggered));

    assert_eq!(check(limit_order(50, PriceCondition::Above), 50), Ok(()));
    assert_eq!(check(limit_order(50, PriceCondition::Above), 51), Ok(()));
    assert_eq!(
        check(limit_order(50, PriceCondition::Above), 49),
        Err(PermissionError::LimitPriceBelowTrigger)
    );
    assert_eq!(check(limit_order(50, PriceCondition::Below), 50), Ok(()));
    assert_eq!(check(limit_order(50, PriceCondition::Below), 49), Ok(()));
    assert_eq!(
        check(limit_order(50, PriceCondition::Below), 51),
        Err(PermissionError::LimitPriceAboveTrigger)
    );
    for e in [
        PermissionError::StopLossNotTriggered,
        PermissionError::TakeProfitNotTriggered,
        PermissionError::LimitPriceBelowTrigger,
        PermissionError::LimitPriceAboveTrigger,
    ] {
        assert_eq!(e.kind(), ErrorKind::ConditionNotMet);
    }
}

#[test]
fn validate_price_condition_on_its_own() {
    let contract = engine();
    let operation = AllowedOperation {
        operation_id: "p-1".to_string(),
        derivation_path: "p".to_string(),
        operation_type: take_profit(1_000),
        destination_address: "d".to_string(),
        destination_chain: "c".to_string(),
        slippage_bps: 1,
        expires_at: None,
        executed: false,
        nonce: 1,
        created_at: 0,
    };
    let now = ctx(RELAYER, 100_000_000_000);
    assert_eq!(contract.validate_price_condition(&now, &operation, 1_000, Some(40_000_000_000)), Ok(()));
    assert_eq!(
        contract.validate_price_condition(&now, &operation, 1_000, Some(39_999_999_999)),
        Err(PermissionError::StalePrice)
    );
    // staleness is reported before the trigger
    assert_eq!(
        contract.validate_price_condition(&now, &operation, 1, Some(0)),
        Err(PermissionError::StalePrice)
    );
    // the window has two sides
    assert_eq!(
        contract.validate_price_condition(&now, &operation, 1_000, Some(160_000_000_000)),
        Ok(())
    );
    assert_eq!(
        contract.validate_price_condition(&now, &operation, 1_000, Some(160_000_000_001)),
        Err(PermissionError::PriceAhead)
    );
    assert_eq!(
        contract.validate_price_condition(&now, &operation, 1, Some(u64::MAX)),
        Err(PermissionError::PriceAhead)
    );
    assert_eq!(
        contract.validate_price_condition(&now, &operation, 1_000, Some(100_000_000_000)),
        Ok(())
    );
    assert_eq!(
        contract.validate_price_condition(&now, &operation, 999, None),
        Err(PermissionError::TakeProfitNotTriggered)
    );
}

#[test]
fn operation_ids_run_out_at_the_last_nonce() {
    let (mut contract, _) = with_operation(swap(), None);
    contract.permissions[0].1.next_nonce = u64::MAX - 1;
    let last = add(&mut contract, &alice(), ADDRESS, 6, input(swap(), None)).unwrap();
    assert_eq!(last, "solana-1,alice-18446744073709551614");
    assert_eq!(contract.permissions[0].1.next_nonce, u64::MAX);
    let exhausted = add(&mut contract, &alice(), ADDRESS, 6, input(swap(), None)).unwrap_err();
    assert_eq!(exhausted, PermissionError::NonceExhausted);
    assert_eq!(exhausted.kind(), ErrorKind::ReplayRejected);
    assert_eq!(contract.get_operations(PATH.to_string()).len(), 2);
}

#[test]
fn insert_and_delete_without_a_proof() {
    let mut contract = engine();
    assert_eq!(
        contract.insert_operation(PATH.to_string(), input(swap(), None), 1).unwrap_err(),
        PermissionError::UnknownPath
    );
    assert_eq!(
        contract.delete_operation(&PATH.to_string(), &"x".to_string()),
        Err(PermissionError::UnknownPath)
    );
    register(&mut contract, &alice(), PATH, ADDRESS, 1).unwrap();
    let id = contract.insert_operation(PATH.to_string(), input(swap(), None), 1).unwrap();
    assert_eq!(id, "solana-1,alice-1");
    assert_eq!(active(&contract).len(), 1);
    assert_eq!(contract.delete_operation(&PATH.to_string(), &id), Ok(()));
    assert!(active(&contract).is_empty());
    assert!(contract.get_operations(PATH.to_string()).is_empty());
}

#[test]
fn active_operations_are_paged_in_insertion_order() {
    let (mut contract, first) = with_operation(swap(), None);
    let mut ids = vec![first];
    for now in 0..4 {
        ids.push(add(&mut contract, &alice(), ADDRESS, now, input(swap(), None)).unwrap());
    }
    let page = |contract: &PermissionContract, from: u64, limit: u64| -> Vec<String> {
        contract
            .get_active_operations(from, limit)
            .into_iter()
            .map(|(path, operation)| {
                assert_eq!(path, PATH);
                operation.operation_id
            })
            .collect()
    };
    assert_eq!(page(&contract, 0, 10), ids);
    assert_eq!(page(&contract, 0, 2), ids[0..2].to_vec());
    assert_eq!(page(&contract, 2, 2), ids[2..4].to_vec());
    assert_eq!(page(&contract, 4, 2), ids[4..5].to_vec());
    assert_eq!(page(&contract, 5, 2), Vec::<String>::new());
    assert_eq!(page(&contract, 0, 0), Vec::<String>::new());
    assert_eq!(page(&contract, 1, u64::MAX), ids[1..].to_vec());
    assert_eq!(page(&contract, u64::MAX, u64::MAX), Vec::<String>::new());

    // executing the second takes it out; the rest keeps its order
    sign(&mut contract, 9, &ids[1], None, None).unwrap();
    assert_eq!(
        page(&contract, 0, 10),
        vec![ids[0].clone(), ids[2].clone(), ids[3].clone(), ids[4].clone()]
    );
    // a released reservation is entered again, at the end
    contract.on_mpc_sign_complete(PATH.to_string(), ids[1].clone(), None).unwrap_err();
    assert_eq!(
        page(&contract, 0, 10),
        vec![ids[0].clone(), ids[2].clone(), ids[3].clone(), ids[4].clone(), ids[1].clone()]
    );
}

#[test]
fn paged_operations_name_the_key_of_their_entry() {
    let mut contract = engine();
    let bob = SigningKey::from_bytes(&[2u8; 32]);
    register(&mut contract, &alice(), PATH, ADDRESS, 1).unwrap();
    register(&mut contract, &bob, "solana-1,bob", "Bbb...", 1).unwrap();
    contract.insert_operation(PATH.to_string(), input(swap(), None), 1).unwrap();
    contract.insert_operation("solana-1,bob".to_string(), input(swap(), None), 2).unwrap();
    contract.insert_operation(PATH.to_string(), input(stop_loss(5), None), 3).unwrap();
    let page = contract.get_active_operations(0, 10);
    assert_eq!(page.len(), 3);
    for (path, operation) in &page {
        assert_eq!(&operation.derivation_path, path);
        assert!(operation.operation_id.starts_with(path.as_str()));
    }
    assert_eq!(page[1].0, "solana-1,bob");
    assert_eq!(page[1].1.operation_id, "solana-1,bob-1");
    for operation in contract.get_operations(PATH.to_string()) {
        assert_eq!(operation.derivation_path, PATH);
    }
}

#[test]
fn index_entry_without_an_operation_is_passed_over() {
    let (mut contract, id) = with_operation(swap(), None);
    contract.active_operations.insert(0, (PATH.to_string(), "gone".to_string()));
    contract.active_operations.push(("no-such-path".to_string(), "x".to_string()));
    assert_eq!(active(&contract), vec![(PATH.to_string(), id.clone())]);
    let second: Vec<String> = contract
        .get_active_operations(1, 1)
        .into_iter()
        .map(|(_, operation)| operation.operation_id)
        .collect();
    assert_eq!(second, vec![id]);
    assert!(contract.get_active_operations(0, 1).is_empty());
}

#[test]
fn identity_key_with_colons_is_kept_whole() {
    let mut contract = engine();
    let path = "sol:1:alice";
    register(&mut contract, &alice(), path, ADDRESS, 1).unwrap();
    let id = contract.insert_operation(path.to_string(), input(swap(), None), 1).unwrap();
    assert_eq!(id, "sol:1:alice-1");
    let page = contract.get_active_operations(0, 10);
    assert_eq!(page.len(), 1);
    assert_eq!(page[0].0, path);
    assert_eq!(page[0].1.operation_id, id);
}

#[test]
fn wallet_address_leads_to_its_latest_path() {
    let mut contract = engine();
    let key = alice();
    register(&mut contract, &key, "path-a", ADDRESS, 1).unwrap();
    register(&mut contract, &key, "path-b", ADDRESS, 2).unwrap();
    assert_eq!(contract.get_path_for_wallet(ADDRESS.to_string()), Some("path-b".to_string()));
    assert_eq!(contract.permissions.len(), 2);
    assert_eq!(contract.wallet_to_path.len(), 1);
    assert!(contract.get_path_for_wallet("Zzz...".to_string()).is_none());
}

#[test]
fn sign_request_tags_the_payload() {
    let eddsa = build_sign_request("p".to_string(), &[0x0a, 0xb0], &"Eddsa".to_string()).unwrap();
    assert_eq!(eddsa.domain_id, 1);
    assert_eq!(eddsa.payload_v2.eddsa, Some("0ab0".to_string()));
    assert_eq!(eddsa.payload_v2.ecdsa, None);
    let ecdsa = build_sign_request("p".to_string(), &[], &"Ecdsa".to_string()).unwrap();
    assert_eq!(ecdsa.domain_id, 0);
    assert_eq!(ecdsa.payload_v2.eddsa, None);
    assert_eq!(ecdsa.payload_v2.ecdsa, Some(String::new()));
    assert_eq!(
        build_sign_request("p".to_string(), &[1], &"ECDSA".to_string()).unwrap_err(),
        PermissionError::InvalidKeyType
    );
    let all: Vec<u8> = (0..=255).collect();
    let text = build_sign_request("p".to_string(), &all, &"Eddsa".to_string())
        .unwrap()
        .payload_v2
        .eddsa
        .unwrap();
    assert_eq!(text.len(), 512);
    assert_eq!(&text[..8], "00010203");
    assert_eq!(&text[504..], "fcfdfeff");
}

#[test]
fn permission_set_on_its_own() {
    let wallet = |address: &str| RegisteredWallet {
        wallet_type: WalletType::Solana,
        public_key: vec![1, 2, 3],
        chain_address: address.to_string(),
    };
    let mut permissions = UserPermissions::new(wallet("a"));
    assert_eq!(permissions.next_nonce, 1);
    permissions.add_wallet(wallet("b"));
    permissions.add_wallet(wallet("a"));
    assert_eq!(permissions.owner_wallets.len(), 2);
    assert_eq!(permissions.wallet_position(&"b".to_string()), Some(1));
    assert_eq!(permissions.wallet_position(&"c".to_string()), None);

    let operation = |id: &str, slippage_bps: u16| AllowedOperation {
        operation_id: id.to_string(),
        derivation_path: "p".to_string(),
        operation_type: swap(),
        destination_address: "d".to_string(),
        destination_chain: "c".to_string(),
        slippage_bps,
        expires_at: None,
        executed: false,
        nonce: 1,
        created_at: 0,
    };
    permissions.put_operation(operation("p-1", 1));
    permissions.put_operation(operation("p-2", 2));
    permissions.put_operation(operation("p-1", 3));
    assert_eq!(permissions.allowed_operations.len(), 2);
    assert_eq!(permissions.allowed_operations[0].slippage_bps, 3);
    assert_eq!(permissions.operation_position(&"p-2".to_string()), Some(1));
    permissions.set_executed(&"p-2".to_string(), true);
    permissions.set_executed(&"p-9".to_string(), true);
    assert!(permissions.allowed_operations[1].executed);
    assert!(!permissions.allowed_operations[0].executed);

    let copy = UserPermissionsView::from(&permissions);
    assert_eq!(copy.next_nonce, 1);
    assert_eq!(copy.owner_wallets.len(), 2);
    assert_eq!(copy.owner_wallets[1].chain_address, "b");
    assert_eq!(copy.owner_wallets[1].public_key, vec![1, 2, 3]);
    assert_eq!(copy.operations.len(), 2);
    assert_eq!(copy.operations[1].operation_id, "p-2");
    assert!(copy.operations[1].executed);

    permissions.remove_operation(&"p-1".to_string());
    permissions.remove_operation(&"p-1".to_string());
    assert_eq!(permissions.allowed_operations.len(), 1);
    assert_eq!(permissions.allowed_operations[0].operation_id, "p-2");
}

#[test]
fn every_error_has_its_text() {
    assert_eq!(PermissionError::NotOwner.message(), "Only owner can call this method");
    assert_eq!(
        PermissionError::NotRelayer.message(),
        "Only authorized TEE relayers can call this method"
    );
    assert_eq!(PermissionError::NonceAlreadyUsed.message(), "Nonce already used");
    assert_eq!(PermissionError::InvalidSignature.message(), "Invalid signature");
    assert_eq!(PermissionError::AlreadyExecuted.message(), "Operation already executed");
    assert_eq!(PermissionError::Expired.message(), "Operation has expired");
    assert_eq!(PermissionError::StalePrice.message(), "Price timestamp too old");
    assert_eq!(PermissionError::PriceAhead.message(), "Price timestamp too far ahead");
    assert_eq!(PermissionError::PriceAhead.kind(), ErrorKind::ConditionNotMet);
    assert_eq!(PermissionError::InvalidKeyType.message(), "Invalid key type");
    assert_eq!(PermissionError::Expired.kind(), ErrorKind::ConditionNotMet);
    assert_eq!(PermissionError::NotOwner.kind(), ErrorKind::AuthenticationFailure);
    assert_eq!(PermissionError::UnknownOperation.kind(), ErrorKind::NotFound);
}
