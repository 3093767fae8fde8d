use rusty_core::mempool::Mempool;
use rusty_core::types::{OutPoint, Transaction, TxInput, TxOutput};

fn create_dummy_transaction(txid_val: u8, value: u64) -> Transaction {
    let mut txid = [0u8; 32];
    txid[0] = txid_val;
    Transaction::Coinbase {
        version: 0,
        inputs: vec![TxInput::from_outpoint(OutPoint { txid, vout: 0 }, vec![], 0, vec![])],
        outputs: vec![TxOutput { value, script_pubkey: vec![], memo: None }],
        lock_time: 0,
        witness: vec![],
    }
}

/// A coinbase paying `value` at `height` to a 32-byte public key.
fn create_coinbase_transaction(public_key: Vec<u8>, height: u64, value: u64) -> Transaction {
    Transaction::Coinbase {
        version: 1,
        inputs: vec![TxInput::from_outpoint(OutPoint { txid: [0u8; 32], vout: u32::MAX }, height.to_le_bytes().to_vec(), u32::MAX, vec![])],
        outputs: vec![TxOutput { value, script_pubkey: public_key, memo: None }],
        lock_time: 0,
        witness: vec![],
    }
}

fn key(seed: u8) -> Vec<u8> {
    vec![seed; 32]
}

#[test]
fn test_mempool_add_and_get_transaction() {
    let mut mempool = Mempool::new();
    let tx1 = create_dummy_transaction(1, 100_000);
    let tx1_id = tx1.txid();

    assert!(mempool.add_transaction(tx1.clone()).is_ok());
    assert_eq!(mempool.len(), 1);
    assert!(mempool.get_transaction(&tx1_id).is_some());

    assert!(!mempool.add_transaction(tx1.clone()).unwrap());
    assert_eq!(mempool.len(), 1);
}

#[test]
fn test_mempool_remove_transaction() {
    let mut mempool = Mempool::new();
    let tx1 = create_dummy_transaction(1, 100_000);
    let tx1_id = tx1.txid();

    mempool.add_transaction(tx1.clone()).unwrap();
    assert_eq!(mempool.len(), 1);

    let removed_tx = mempool.remove_transaction(&tx1_id);
    assert!(removed_tx.is_some());
    assert_eq!(mempool.len(), 0);
    assert!(mempool.get_transaction(&tx1_id).is_none());

    assert!(mempool.remove_transaction(&tx1_id).is_none());
}

#[test]
fn test_mempool_get_all_transactions_order() {
    let mut mempool = Mempool::new();
    let tx1 = Transaction::Standard {
        version: 1,
        inputs: vec![],
        outputs: vec![TxOutput { value: 100, script_pubkey: vec![], memo: None }],
        lock_time: 0,
        fee: 10,
        witness: vec![],
    };
    let tx2 = Transaction::Standard {
        version: 1,
        inputs: vec![],
        outputs: vec![TxOutput { value: 100, script_pubkey: vec![], memo: None }],
        lock_time: 0,
        fee: 30,
        witness: vec![],
    };
    let tx3 = Transaction::Standard {
        version: 1,
        inputs: vec![],
        outputs: vec![TxOutput { value: 100, script_pubkey: vec![], memo: None }],
        lock_time: 0,
        fee: 20,
        witness: vec![],
    };

    mempool.add_transaction(tx1.clone()).unwrap();
    mempool.add_transaction(tx2.clone()).unwrap();
    mempool.add_transaction(tx3.clone()).unwrap();

    let sorted_txs = mempool.get_all_transactions();

    assert_eq!(sorted_txs.len(), 3);
    assert_eq!(sorted_txs[0].get_fee(), 30);
    assert_eq!(sorted_txs[1].get_fee(), 20);
    assert_eq!(sorted_txs[2].get_fee(), 10);
}

#[test]
fn test_mempool_add_remove_transaction() {
    let mut mempool = Mempool::new();
    let tx1 = create_coinbase_transaction(key(7), 1, 100);
    let tx2 = create_coinbase_transaction(key(8), 2, 200);

    assert_eq!(mempool.len(), 0);

    mempool.add_transaction(tx1.clone()).unwrap();
    assert_eq!(mempool.len(), 1);
    assert!(mempool.contains_transaction(&tx1.txid()));

    mempool.add_transaction(tx2.clone()).unwrap();
    assert_eq!(mempool.len(), 2);
    assert!(mempool.contains_transaction(&tx2.txid()));

    assert_eq!(mempool.add_transaction(tx1.clone()), Ok(false));

    mempool.remove_transaction(&tx1.txid());
    assert_eq!(mempool.len(), 1);
    assert!(!mempool.contains_transaction(&tx1.txid()));
    assert!(mempool.contains_transaction(&tx2.txid()));

    mempool.clear();
    assert_eq!(mempool.len(), 0);
    assert!(mempool.is_empty());
}

#[test]
fn test_mempool_get_transactions_for_block_template() {
    let mut mempool = Mempool::new();

    let tx_small_fee = create_coinbase_transaction(key(1), 1, 10);
    let tx_medium_fee = create_coinbase_transaction(key(2), 2, 50);
    let tx_large_fee = create_coinbase_transaction(key(3), 3, 100);

    let tx_medium_fee_mod = tx_medium_fee.clone();
    let tx_large_fee_mod = tx_large_fee.clone();

    mempool.add_transaction(tx_small_fee.clone()).unwrap();
    mempool.add_transaction(tx_medium_fee_mod.clone()).unwrap();
    mempool.add_transaction(tx_large_fee_mod.clone()).unwrap();

    let max_block_size = tx_large_fee_mod.encoded_size() as u64 * 2;

    let selected_txs = mempool.get_transactions_for_block_template(max_block_size);

    assert_eq!(selected_txs.len(), 2);
    assert!(selected_txs.len() == 2);
}
