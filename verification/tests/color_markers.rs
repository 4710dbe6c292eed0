//! Color-marker accounting.

use self_chain_core::color::{
    ColorRegistry, calculate_hex_transaction, calculate_new_color, is_valid_hex,
    reduce_to_single_hex_digit, validate_color_transition,
};
use self_chain_core::transaction::Transaction;

#[test]
fn test_reduce_to_single_hex_digit() {
    // Single digit already
    assert_eq!(reduce_to_single_hex_digit(&"5".to_string()), '5');
    assert_eq!(reduce_to_single_hex_digit(&"f".to_string()), 'f');

    // Two digits
    assert_eq!(reduce_to_single_hex_digit(&"10".to_string()), '1');
    assert_eq!(reduce_to_single_hex_digit(&"1e".to_string()), 'f');

    // Multiple digits
    assert_eq!(reduce_to_single_hex_digit(&"a3f2".to_string()), 'f');
}

#[test]
fn test_calculate_new_color() {
    // Simple addition
    let result = calculate_new_color(&"000001".to_string(), &"000001".to_string()).unwrap();
    assert_eq!(result, "000002");

    // Overflow wraps
    let result = calculate_new_color(&"ffffff".to_string(), &"000002".to_string()).unwrap();
    assert_eq!(result, "000001");
}

#[test]
fn test_calculate_new_color_rejects_invalid() {
    assert!(calculate_new_color(&"xyz".to_string(), &"000001".to_string()).is_none());
    assert!(calculate_new_color(&"000001".to_string(), &"12345".to_string()).is_none());
}

#[test]
fn test_is_valid_hex() {
    assert!(is_valid_hex(&"000000".to_string()));
    assert!(is_valid_hex(&"ffffff".to_string()));
    assert!(is_valid_hex(&"abcdef".to_string()));
    assert!(is_valid_hex(&"ABCDEF".to_string()));

    assert!(!is_valid_hex(&"".to_string()));
    assert!(!is_valid_hex(&"12345".to_string()));  // Too short
    assert!(!is_valid_hex(&"1234567".to_string()));  // Too long
    assert!(!is_valid_hex(&"gggggg".to_string()));  // Invalid chars
}

#[test]
fn test_validate_color_transition() {
    assert!(validate_color_transition(&"000000".to_string(), &"a1b2c3".to_string()));
    assert!(!validate_color_transition(&"00000".to_string(), &"a1b2c3".to_string()));
}

#[test]
fn test_hex_transaction_is_deterministic_color() {
    let tx = Transaction::new(
        1,
        "chain".to_string(),
        "0xsender".to_string(),
        None,
        vec![1, 2, 3],
        10,
        999,
    );
    let h1 = calculate_hex_transaction(&tx);
    let h2 = calculate_hex_transaction(&tx);
    assert_eq!(h1, h2);
    assert_eq!(h1.len(), 6);
    assert!(is_valid_hex(&h1));

    // A different transaction yields a different marker (with
    // overwhelming probability for these two).
    let tx2 = Transaction::new(
        2,
        "chain".to_string(),
        "0xsender".to_string(),
        None,
        vec![1, 2, 3],
        10,
        999,
    );
    let other = calculate_hex_transaction(&tx2);
    assert_ne!(h1, other);
}

#[test]
fn test_color_registry_updates() {
    let mut reg = ColorRegistry::new();
    let addr = "0xwallet".to_string();
    assert!(reg.get_wallet_color(&addr).is_none());

    reg.update_wallet_color(&addr, &"000001".to_string());
    assert_eq!(reg.get_wallet_color(&addr).unwrap(), "000001");

    reg.update_wallet_color(&addr, &"00000a".to_string());
    assert_eq!(reg.get_wallet_color(&addr).unwrap(), "00000a");

    // Other wallets are untouched.
    assert!(reg.get_wallet_color(&"0xother".to_string()).is_none());
}

#[test]
fn test_apply_transaction_color() {
    let mut reg = ColorRegistry::new();
    let tx = Transaction::new(
        1,
        "chain".to_string(),
        "0xsender".to_string(),
        None,
        vec![],
        5,
        7,
    );
    let hex_tx = calculate_hex_transaction(&tx);
    let c1 = reg.apply_transaction_color(&tx);
    assert!(is_valid_hex(&c1));
    assert_eq!(reg.get_wallet_color(&tx.sender).unwrap(), c1);
    // An unknown wallet starts at 000000, so the first application
    // yields 000000 plus the transaction hex.
    assert_eq!(c1, calculate_new_color(&"000000".to_string(), &hex_tx).unwrap());

    // Applying the same transaction again evolves the color further:
    // the transition adds the same hex marker to the new color.
    let c2 = reg.apply_transaction_color(&tx);
    let expected = calculate_new_color(&c1, &hex_tx).unwrap();
    assert_eq!(c2, expected);
}

#[test]
fn test_generate_initial_color_is_valid() {
    for _ in 0..16 {
        let c = ColorRegistry::generate_initial_color();
        assert!(is_valid_hex(&c));
    }
}
