//! The 20/20/50/10 selector and the efficiency score.

use self_chain_core::selector::{
    SCORE_SCALE, SelectedTransactions, TransactionSelector, TransactionSelectorConfig,
    TransactionWithMetadata,
};
use self_chain_core::transaction::Transaction;

fn meta(id: &str, point_price: u64, point_data: u64, timestamp: u64) -> TransactionWithMetadata {
    TransactionWithMetadata { id: id.to_string(), point_price, point_data, timestamp }
}

fn numbered_mempool(n: u64) -> Vec<TransactionWithMetadata> {
    // Ids are zero-padded so their lexicographic order matches the
    // numeric order.
    let mut mempool = Vec::new();
    for i in 1..=n {
        mempool.push(meta(&format!("tx_{:03}", i), 1000 * i, 100, 0));
    }
    mempool
}

#[test]
fn test_transaction_selector_basic() {
    let config = TransactionSelectorConfig::default();
    let selector = TransactionSelector::new(config);

    let mempool = numbered_mempool(100);
    let result = selector.select_transactions(&mempool);

    // Should have selected transactions
    assert!(result.total_selected > 0);

    // Should have all categories
    assert!(!result.high_price.is_empty());
    assert!(!result.low_price.is_empty());
    assert!(!result.avg_price.is_empty());
    assert!(!result.oldest.is_empty());
}

#[test]
fn test_20_20_50_10_distribution() {
    let config = TransactionSelectorConfig { max_transactions_per_block: 100, ..Default::default() };
    let selector = TransactionSelector::new(config);

    let mempool = numbered_mempool(100);
    let result = selector.select_transactions(&mempool);

    assert_eq!(result.high_price.len(), 20);
    assert_eq!(result.low_price.len(), 20);
    assert_eq!(result.avg_price.len(), 50);
    assert_eq!(result.oldest.len(), 10);
    assert_eq!(result.total_selected, 100);
}

#[test]
fn test_deterministic_selection_buckets() {
    // 100 txs with point_price = 1000 * i: the high bucket is exactly
    // tx_100..tx_081 and the low bucket exactly tx_001..tx_020.
    let config = TransactionSelectorConfig { max_transactions_per_block: 100, ..Default::default() };
    let selector = TransactionSelector::new(config);
    let mempool = numbered_mempool(100);
    let result = selector.select_transactions(&mempool);

    let mut high_ids: Vec<String> = result.high_price.iter().map(|t| t.id.clone()).collect();
    high_ids.sort();
    let mut expected_high: Vec<String> = (81..=100).map(|i| format!("tx_{:03}", i)).collect();
    expected_high.sort();
    assert_eq!(high_ids, expected_high);

    let mut low_ids: Vec<String> = result.low_price.iter().map(|t| t.id.clone()).collect();
    low_ids.sort();
    let expected_low: Vec<String> = (1..=20).map(|i| format!("tx_{:03}", i)).collect();
    assert_eq!(low_ids, expected_low);

    // High bucket comes out in descending fee order.
    for w in result.high_price.windows(2) {
        assert!(w[0].point_price >= w[1].point_price);
    }

    // Selection is reproducible.
    let again = selector.select_transactions(&mempool);
    let high_again: Vec<String> = again.high_price.iter().map(|t| t.id.clone()).collect();
    let high_first: Vec<String> = result.high_price.iter().map(|t| t.id.clone()).collect();
    assert_eq!(high_first, high_again);
}

#[test]
fn test_buckets_disjoint() {
    let config = TransactionSelectorConfig { max_transactions_per_block: 100, ..Default::default() };
    let selector = TransactionSelector::new(config);
    let mempool = numbered_mempool(60);
    let result = selector.select_transactions(&mempool);

    let mut seen = std::collections::HashSet::new();
    for t in result.all_transactions() {
        assert!(seen.insert(t.id.clone()), "id selected twice: {}", t.id);
    }
    assert!(result.total_selected <= 60);
}

#[test]
fn test_oldest_transactions_selected() {
    let config = TransactionSelectorConfig { max_transactions_per_block: 100, ..Default::default() };
    let selector = TransactionSelector::new(config);

    let mut mempool = Vec::new();
    // Create transactions with decreasing timestamps (newer to older)
    for i in 0..100u64 {
        let timestamp = 1000000 - i;  // Older timestamps are smaller
        mempool.push(meta(&format!("tx_{:03}", i), 1000, 100, timestamp));
    }

    let result = selector.select_transactions(&mempool);

    // Oldest category should have transactions with smallest timestamps
    assert!(!result.oldest.is_empty());
    let oldest_timestamp = result.oldest[0].timestamp;

    // Should be one of the oldest (smallest timestamps)
    assert!(oldest_timestamp < 1000000 - 90);
}

#[test]
fn test_empty_mempool() {
    let config = TransactionSelectorConfig::default();
    let selector = TransactionSelector::new(config);

    let result = selector.select_transactions(&Vec::new());
    assert_eq!(result.total_selected, 0);
    assert!(result.all_transactions().is_empty());

    let efficiency = selector.calculate_block_efficiency(&result);
    assert_eq!(efficiency.efficiency_score, 0);
    assert_eq!(efficiency.transaction_count, 0);
}

#[test]
fn test_block_efficiency_calculation() {
    let config = TransactionSelectorConfig::default();
    let selector = TransactionSelector::new(config);

    let mut mempool = Vec::new();
    for i in 0..50u64 {
        mempool.push(meta(&format!("tx_{:03}", i), (i + 1) * 10, 120, i));
    }

    let selected = selector.select_transactions(&mempool);
    let efficiency = selector.calculate_block_efficiency(&selected);

    assert!(efficiency.efficiency_score <= 100_000_000);
    assert!(efficiency.transaction_count > 0);
    assert!(efficiency.total_point_data > 0);
    assert!(efficiency.total_point_price > 0);
}

#[test]
fn test_efficiency_scoring_full_block() {
    // 20 txs of 1000 bytes each with identical fee 500 against a
    // 20000-byte target: fill is 1.0, stability 100, so the composite
    // score is exactly 100 scaled by 1e6.
    let config = TransactionSelectorConfig {
        max_transactions_per_block: 20,
        target_block_size: 20000,
        ..Default::default()
    };
    let selector = TransactionSelector::new(config);
    let mut mempool = Vec::new();
    for i in 0..20u64 {
        mempool.push(meta(&format!("tx_{:03}", i), 500, 1000, i));
    }
    let selected = selector.select_transactions(&mempool);
    let efficiency = selector.calculate_block_efficiency(&selected);

    assert_eq!(efficiency.fill_ppm, SCORE_SCALE);
    assert_eq!(efficiency.price_stability, 100 * SCORE_SCALE);
    assert_eq!(efficiency.efficiency_score, 100 * SCORE_SCALE);
    assert_eq!(efficiency.avg_point_price, 500);
}

#[test]
fn test_price_stability_calculation() {
    let config = TransactionSelectorConfig::default();
    let selector = TransactionSelector::new(config);

    // Create transactions with identical prices (high stability)
    let mut mempool = Vec::new();
    for i in 0..20u64 {
        mempool.push(meta(&format!("tx_{:03}", i), 500, 100, i));
    }

    let selected = selector.select_transactions(&mempool);
    let efficiency = selector.calculate_block_efficiency(&selected);

    // High stability (prices are identical): 100 scaled by 1e6.
    assert!(efficiency.price_stability > 80_000_000);
}

#[test]
fn test_point_to_coin_ratio_halving() {
    let mut config = TransactionSelectorConfig::default();

    // Before first halving: 0.001 coins per point, in millionths.
    config.total_points_spent = 0;
    let selector = TransactionSelector::new(config.clone());
    assert_eq!(selector.get_point_to_coin_ratio_micro(), 1000);
    assert_eq!(selector.halvings(), 0);

    // After first halving
    config.total_points_spent = 30_000_000_000;
    let selector = TransactionSelector::new(config.clone());
    assert_eq!(selector.get_point_to_coin_ratio_micro(), 500);
    assert_eq!(selector.halvings(), 1);

    // After second halving
    config.total_points_spent = 60_000_000_000;
    let selector = TransactionSelector::new(config);
    assert_eq!(selector.get_point_to_coin_ratio_micro(), 250);
    assert_eq!(selector.halvings(), 2);
}

#[test]
fn test_selection_respects_max() {
    let config = TransactionSelectorConfig { max_transactions_per_block: 10, ..Default::default() };
    let selector = TransactionSelector::new(config);
    let mempool = numbered_mempool(100);
    let result = selector.select_transactions(&mempool);
    assert!(result.total_selected <= 10);
}

#[test]
fn test_high_bucket_dominates_unselected() {
    // 100 txs with fees 1000..=100000 but only 10 slots: the high stage
    // takes ceil(10/5) = 2, and they must be the two highest fees of
    // the whole snapshot, not merely of the selection.
    let config = TransactionSelectorConfig { max_transactions_per_block: 10, ..Default::default() };
    let selector = TransactionSelector::new(config);
    let mempool = numbered_mempool(100);
    let result = selector.select_transactions(&mempool);
    assert_eq!(result.high_price.len(), 2);
    assert_eq!(result.high_price[0].point_price, 100_000);
    assert_eq!(result.high_price[1].point_price, 99_000);
    // The low stage likewise takes the two lowest fees overall.
    assert_eq!(result.low_price.len(), 2);
    assert_eq!(result.low_price[0].point_price, 1_000);
    assert_eq!(result.low_price[1].point_price, 2_000);
}

#[test]
fn test_selected_transactions_empty() {
    let e = SelectedTransactions::empty();
    assert_eq!(e.total_selected, 0);
    assert_eq!(e.avg_point_price, 0);
}

#[test]
fn test_from_transaction_metadata() {
    let tx = Transaction::new(
        1,
        "chain".to_string(),
        "sender".to_string(),
        None,
        vec![1, 2, 3],
        77,
        12345,
    );
    let m = TransactionWithMetadata::from_transaction(&tx);
    assert_eq!(m.point_price, 77);
    assert_eq!(m.timestamp, 12345);
    assert_eq!(m.point_data, tx.estimated_size() as u64);
    // The id is the hex of the 32-byte transaction hash.
    assert_eq!(m.id.len(), 64);
    assert!(m.id.chars().all(|c| c.is_ascii_hexdigit()));
}
