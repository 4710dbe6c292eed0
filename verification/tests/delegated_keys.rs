//! The delegated key hierarchy: master keys, validator keys,
//! revocation.

use self_chain_core::keys::{KeyManager, KeyOperation, MasterKey};

#[test]
fn test_master_key_generation() {
    let master = MasterKey::generate().unwrap();

    assert!(!master.public_key().is_empty());
    assert!(!master.address().is_empty());
    assert!(master.address().starts_with("0x"));
}

#[test]
fn test_validator_key_derivation() {
    let master = MasterKey::generate().unwrap();
    let nonce = b"test_nonce_123".to_vec();

    let validator = master.derive_validator_key(&nonce).unwrap();

    assert!(!validator.public_key().is_empty());
    assert_eq!(validator.master_address(), master.address());
    assert!(!validator.is_revoked());
}

#[test]
fn test_deterministic_derivation() {
    let master = MasterKey::generate().unwrap();
    let nonce = b"same_nonce".to_vec();

    // Same nonce should produce same validator key
    let validator1 = master.derive_validator_key(&nonce).unwrap();
    let validator2 = master.derive_validator_key(&nonce).unwrap();

    assert_eq!(validator1.public_key(), validator2.public_key());
}

#[test]
fn test_different_nonces_different_keys() {
    let master = MasterKey::generate().unwrap();

    let validator1 = master.derive_validator_key(&b"nonce1".to_vec()).unwrap();
    let validator2 = master.derive_validator_key(&b"nonce2".to_vec()).unwrap();

    assert_ne!(validator1.public_key(), validator2.public_key());
}

#[test]
fn test_validator_permissions() {
    let master = MasterKey::generate().unwrap();
    let validator = master.derive_validator_key(&b"nonce".to_vec()).unwrap();

    // Validator can vote and validate
    assert!(validator.can_perform(KeyOperation::Vote));
    assert!(validator.can_perform(KeyOperation::ValidateColorMarker));

    // Validator cannot do master operations
    assert!(!validator.can_perform(KeyOperation::SendTransaction));
    assert!(!validator.can_perform(KeyOperation::RevokeValidatorKey));
    assert!(!validator.can_perform(KeyOperation::MigrateValidator));
}

#[test]
fn test_validator_cannot_sign_transactions() {
    let master = MasterKey::generate().unwrap();
    let validator = master.derive_validator_key(&b"nonce".to_vec()).unwrap();

    let tx_data = b"fake_transaction_data".to_vec();
    let result = validator.sign_transaction(&tx_data);

    assert!(result.is_err());
    assert!(result.unwrap_err().message().contains("cannot sign transactions"));
}

#[test]
fn test_validator_can_sign_votes() {
    let master = MasterKey::generate().unwrap();
    let validator = master.derive_validator_key(&b"nonce".to_vec()).unwrap();

    let block_hash = b"test_block_hash_12345678901234567890".to_vec();
    let signature = validator.sign_vote(&block_hash, true).unwrap();

    assert!(!signature.is_empty());
    assert_eq!(signature.len(), 64);
}

#[test]
fn test_validator_can_sign_color_validations() {
    let master = MasterKey::generate().unwrap();
    let validator = master.derive_validator_key(&b"nonce".to_vec()).unwrap();

    let tx_hash = b"test_tx_hash_123456789012345678901234".to_vec();
    let signature = validator.sign_color_validation(&tx_hash, true).unwrap();

    assert!(!signature.is_empty());
}

#[test]
fn test_revocation() {
    let master = MasterKey::generate().unwrap();
    let mut validator = master.derive_validator_key(&b"nonce".to_vec()).unwrap();

    assert!(!validator.is_revoked());
    assert!(validator.can_perform(KeyOperation::Vote));

    // Revoke the validator key
    validator.revoke();

    assert!(validator.is_revoked());
    assert!(!validator.can_perform(KeyOperation::Vote));

    // Signing should fail after revocation
    let block_hash = b"test_block_hash".to_vec();
    let result = validator.sign_vote(&block_hash, true);
    assert!(result.is_err());
    assert!(validator.sign_color_validation(&block_hash, true).is_err());
}

#[test]
fn test_revocation_certificate() {
    let master = MasterKey::generate().unwrap();
    let validator = master.derive_validator_key(&b"nonce".to_vec()).unwrap();

    // Create revocation
    let revocation = master.create_revocation(validator.public_key()).unwrap();

    assert_eq!(&revocation.master_address, master.address());
    assert_eq!(&revocation.validator_public_key, validator.public_key());

    // Verify revocation
    let is_valid = revocation.verify(master.public_key()).unwrap();
    assert!(is_valid);
}

#[test]
fn test_revocation_certificate_rejects_other_key() {
    let master = MasterKey::generate().unwrap();
    let other = MasterKey::generate().unwrap();
    let validator = master.derive_validator_key(&b"nonce".to_vec()).unwrap();

    let revocation = master.create_revocation(validator.public_key()).unwrap();
    // A revocation signed by one master key does not verify against
    // another master's public key.
    let is_valid = revocation.verify(other.public_key()).unwrap();
    assert!(!is_valid);
}

#[test]
fn test_key_manager() {
    let mut manager = KeyManager::new();

    // Generate master key
    let address = manager.generate_master_key().unwrap();
    assert!(!address.is_empty());

    // Derive validator keys
    let validator1_pk = manager.derive_validator(&b"validator1".to_vec()).unwrap();
    let validator2_pk = manager.derive_validator(&b"validator2".to_vec()).unwrap();

    assert_ne!(validator1_pk, validator2_pk);
    assert_eq!(manager.validator_keys().len(), 2);

    // Revoke one validator
    manager.revoke_validator(&validator1_pk).unwrap();
    assert!(manager.validator_keys()[0].is_revoked());
    assert!(!manager.validator_keys()[1].is_revoked());
}

#[test]
fn test_key_manager_errors() {
    let mut manager = KeyManager::new();
    // No master key yet: derivation fails.
    assert!(manager.derive_validator(&b"n".to_vec()).is_err());
    // Importing key material of the wrong length fails.
    assert!(manager.import_master_key(vec![1, 2, 3]).is_err());
    // Revoking an unknown validator key fails.
    manager.generate_master_key().unwrap();
    assert!(manager.revoke_validator(&vec![9u8; 32]).is_err());
}

#[test]
fn test_master_key_import_export() {
    let master1 = MasterKey::generate().unwrap();
    let private_key = master1.export_private_key();
    let address1 = master1.address().to_string();

    // Import into new master key
    let master2 = MasterKey::from_private_key(private_key).unwrap();
    let address2 = master2.address();

    // Should have same address
    assert_eq!(&address1, address2);
}

#[test]
fn test_master_sign_is_deterministic() {
    let master = MasterKey::generate().unwrap();
    let msg = b"some message".to_vec();
    let s1 = master.sign(&msg).unwrap();
    let s2 = master.sign(&msg).unwrap();
    assert_eq!(s1, s2);
    assert_eq!(s1.len(), 64);
    // Signatures are not the message handed back.
    assert_ne!(s1, msg);
}
