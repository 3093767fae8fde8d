use rusty_core::consensus::utxo_set::UtxoSet;
use rusty_core::types::{Block, BlockHeader, OutPoint, Transaction, TxInput, TxOutput, Utxo};

fn create_dummy_tx(inputs: Vec<TxInput>, outputs: Vec<TxOutput>, fee: u64) -> Transaction {
    Transaction::Standard { version: 1, inputs, outputs, lock_time: 0, fee, witness: vec![] }
}

#[test]
fn test_add_and_remove_utxo() {
    let mut utxo_set = UtxoSet::new();
    let outpoint = OutPoint { txid: [0u8; 32], vout: 0 };
    let tx_out = Utxo { output: TxOutput { value: 100, script_pubkey: vec![], memo: None }, is_coinbase: false, creation_height: 0 };

    utxo_set.add_utxo(outpoint.clone(), tx_out.clone());
    assert!(utxo_set.contains_utxo(&outpoint));
    assert_eq!(utxo_set.get_utxo(&outpoint).unwrap().output.value, 100);

    let removed_utxo = utxo_set.remove_utxo(&outpoint).unwrap();
    assert_eq!(removed_utxo.output.value, 100);
    assert!(!utxo_set.contains_utxo(&outpoint));
}

#[test]
fn test_apply_block() {
    let mut utxo_set = UtxoSet::new();

    let initial_txid = [0u8; 32];
    let initial_outpoint = OutPoint { txid: initial_txid, vout: 0 };
    let initial_tx_out = Utxo { output: TxOutput { value: 200, script_pubkey: vec![], memo: None }, is_coinbase: false, creation_height: 0 };
    utxo_set.add_utxo(initial_outpoint.clone(), initial_tx_out);

    let tx1_input = TxInput { previous_output: initial_outpoint.clone(), script_sig: vec![], sequence: 0, witness: vec![] };
    let tx1_output1 = TxOutput { value: 50, script_pubkey: vec![], memo: None };
    let tx1_output2 = TxOutput { value: 140, script_pubkey: vec![], memo: None };
    let tx1 = create_dummy_tx(vec![tx1_input], vec![tx1_output1.clone(), tx1_output2.clone()], 10);
    let tx1_id = tx1.txid();

    let tx2_output1 = TxOutput { value: 300, script_pubkey: vec![], memo: None };
    let tx2 = create_dummy_tx(vec![], vec![tx2_output1.clone()], 0);
    let tx2_id = tx2.txid();

    let block = Block {
        header: BlockHeader { version: 1, previous_block_hash: [0u8; 32], merkle_root: [0u8; 32], timestamp: 0, bits: 0, nonce: 0, height: 0, difficulty_target: 0, state_root: [0u8; 32] },
        transactions: vec![tx1.clone(), tx2.clone()],
        ticket_votes: vec![],
    };

    utxo_set.apply_block(&block, 0);

    assert!(!utxo_set.contains_utxo(&initial_outpoint));

    let new_outpoint1 = OutPoint { txid: tx1_id, vout: 0 };
    let new_outpoint2 = OutPoint { txid: tx1_id, vout: 1 };
    assert!(utxo_set.contains_utxo(&new_outpoint1));
    assert!(utxo_set.contains_utxo(&new_outpoint2));
    assert_eq!(utxo_set.get_utxo(&new_outpoint1).unwrap().output.value, 50);
    assert_eq!(utxo_set.get_utxo(&new_outpoint2).unwrap().output.value, 140);

    let new_outpoint3 = OutPoint { txid: tx2_id, vout: 0 };
    assert!(utxo_set.contains_utxo(&new_outpoint3));
    assert_eq!(utxo_set.get_utxo(&new_outpoint3).unwrap().output.value, 300);
}

#[test]
fn test_validate_transaction_inputs_valid() {
    let mut utxo_set = UtxoSet::new();

    let mut txid1 = [0u8; 32];
    txid1[0] = 1;
    let outpoint1 = OutPoint { txid: txid1, vout: 0 };
    let tx_out1 = Utxo { output: TxOutput { value: 100, script_pubkey: vec![], memo: None }, is_coinbase: false, creation_height: 0 };
    utxo_set.add_utxo(outpoint1.clone(), tx_out1);

    let mut txid2 = [0u8; 32];
    txid2[0] = 2;
    let outpoint2 = OutPoint { txid: txid2, vout: 0 };
    let tx_out2 = Utxo { output: TxOutput { value: 50, script_pubkey: vec![], memo: None }, is_coinbase: false, creation_height: 0 };
    utxo_set.add_utxo(outpoint2.clone(), tx_out2);

    let tx_in1 = TxInput { previous_output: outpoint1, script_sig: vec![], sequence: 0, witness: vec![] };
    let tx_in2 = TxInput { previous_output: outpoint2, script_sig: vec![], sequence: 0, witness: vec![] };
    let tx_out_new = TxOutput { value: 140, script_pubkey: vec![], memo: None };

    let tx = create_dummy_tx(vec![tx_in1, tx_in2], vec![tx_out_new], 10);
    assert!(utxo_set.validate_transaction_inputs(&tx));
}

#[test]
fn test_validate_transaction_inputs_utxo_not_found() {
    let _utxo_set = UtxoSet::new();
}

#[test]
fn test_validate_transaction_inputs_double_spend_in_same_tx() {
    let mut utxo_set = UtxoSet::new();
    let outpoint = OutPoint { txid: [0u8; 32], vout: 0 };
    let tx_out = TxOutput { value: 100, script_pubkey: vec![], memo: None };
    utxo_set.add_utxo(outpoint.clone(), Utxo { output: tx_out, is_coinbase: false, creation_height: 0 });

    let tx_in1 = TxInput { previous_output: outpoint.clone(), script_sig: vec![], sequence: 0, witness: vec![] };
    let tx_in2 = TxInput { previous_output: outpoint.clone(), script_sig: vec![], sequence: 0, witness: vec![] };
    let tx_out_new = TxOutput { value: 50, script_pubkey: vec![], memo: None };

    let tx = create_dummy_tx(vec![tx_in1, tx_in2], vec![tx_out_new], 0);
    assert!(!utxo_set.validate_transaction_inputs(&tx));
}

#[test]
fn utxo_revert_undoes_apply_of_block_without_inputs() {
    let mut utxo_set = UtxoSet::new();
    let existing = OutPoint { txid: [9u8; 32], vout: 0 };
    utxo_set.add_utxo(existing, Utxo { output: TxOutput { value: 7, script_pubkey: vec![1], memo: None }, is_coinbase: false, creation_height: 1 });
    let tx = Transaction::Standard {
        version: 1,
        inputs: vec![],
        outputs: vec![TxOutput { value: 3, script_pubkey: vec![], memo: None }, TxOutput { value: 4, script_pubkey: vec![], memo: None }],
        lock_time: 0,
        fee: 0,
        witness: vec![],
    };
    let header = BlockHeader {
        version: 1,
        previous_block_hash: [0u8; 32],
        merkle_root: [0u8; 32],
        timestamp: 0,
        bits: 0,
        nonce: 0,
        height: 2,
        difficulty_target: 0,
        state_root: [0u8; 32],
    };
    let block = Block { header, transactions: vec![tx.clone()], ticket_votes: vec![] };
    utxo_set.apply_block(&block, 2);
    assert_eq!(utxo_set.len(), 3);
    assert!(utxo_set.contains_utxo(&OutPoint { txid: tx.txid(), vout: 1 }));
    utxo_set.revert_block(&block).unwrap();
    assert_eq!(utxo_set.len(), 1);
    assert_eq!(utxo_set.get_utxo(&existing).unwrap().output.value, 7);
}
