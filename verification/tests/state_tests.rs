use rusty_core::consensus::error::ConsensusError;
use rusty_core::consensus::state::BlockchainState;
use rusty_core::types::{Block, BlockHeader, OutPoint, Transaction, TxOutput};

fn header(height: u64) -> BlockHeader {
    BlockHeader {
        version: 1,
        previous_block_hash: [1u8; 32],
        merkle_root: [0u8; 32],
        timestamp: 0,
        bits: 0,
        nonce: 0,
        height,
        difficulty_target: 0,
        state_root: [2u8; 32],
    }
}

fn purchase(address: Vec<u8>, locked_amount: u64) -> Transaction {
    Transaction::TicketPurchase {
        version: 1,
        inputs: vec![],
        outputs: vec![TxOutput { value: 5, script_pubkey: vec![1], memo: None }],
        ticket_id: [0u8; 32],
        locked_amount,
        lock_time: 0,
        fee: 0,
        ticket_address: address,
        witness: vec![],
    }
}

#[test]
fn state_store_blocks_and_heights() {
    let mut st = BlockchainState::new();
    assert_eq!(st.get_current_block_height(), Ok(0));
    let block = Block { header: header(7), transactions: vec![], ticket_votes: vec![] };
    st.put_block(&block).unwrap();
    assert_eq!(st.get_block_hash(7), Ok(Some(block.hash())));
    assert_eq!(st.get_block_hash(8), Ok(None));
    assert_eq!(st.get_block(7), Ok(Some(block.clone())));
    assert_eq!(st.get_block(6), Ok(None));
    st.put_block_hash(9, [5u8; 32]).unwrap();
    assert_eq!(st.get_block(9), Ok(None));
    st.set_current_block_height(42).unwrap();
    assert_eq!(st.get_current_block_height(), Ok(42));
    // Moving the tip does not write the stored height.
    st.update_tip([3u8; 32], 50).unwrap();
    assert_eq!(st.tip, [3u8; 32]);
    assert_eq!(st.current_height, 50);
    assert_eq!(st.get_current_block_height(), Ok(42));
    assert_eq!(st.get_block_subsidy(210_000, 210_000, 100), 50);
    assert!(st.remove_block_by_hash(&block.hash()).is_ok());
    assert!(st.remove_block_by_height(7).is_ok());
    assert_eq!(st.get_block(7), Ok(Some(block)));
}

#[test]
fn state_stored_outputs() {
    let mut st = BlockchainState::new();
    let op = OutPoint { txid: [4u8; 32], vout: 3 };
    assert_eq!(st.get_utxo(&op), Ok(None));
    let out = TxOutput { value: 9, script_pubkey: vec![1, 2], memo: None };
    assert_eq!(st.update_utxo_set(&op, Some(&out), 12, true), Ok(Some((out.clone(), 12, true))));
    assert_eq!(st.get_utxo(&op), Ok(Some((out, 12, true))));
    assert_eq!(st.update_utxo_set(&op, None, 0, false), Ok(None));
    assert_eq!(st.get_utxo(&op), Ok(None));
}

#[test]
fn state_apply_block_tickets_and_outputs() {
    let mut st = BlockchainState::new();
    let address = vec![8u8; 32];
    let id = *blake3::hash(&address).as_bytes();
    let block = Block { header: header(11), transactions: vec![purchase(address.clone(), 700)], ticket_votes: vec![] };
    st.apply_block(&block).unwrap();
    assert_eq!(st.current_height, 11);
    assert_eq!(st.tip, block.hash());
    assert_eq!(st.get_current_block_height(), Ok(11));
    let t = st.live_tickets.get_ticket(&id).unwrap();
    assert_eq!((t.value, t.height, t.pubkey.clone()), (700, 11, address));
    // The purchase's output is now unspent.
    let txid = block.transactions[0].txid();
    assert!(st.utxo_set.contains_utxo(&OutPoint { txid, vout: 0 }));

    let redeem = Transaction::TicketRedemption { version: 1, inputs: vec![], outputs: vec![], ticket_id: id, lock_time: 0, fee: 0, witness: vec![] };
    let block2 = Block { header: header(12), transactions: vec![redeem], ticket_votes: vec![] };
    st.apply_block(&block2).unwrap();
    assert!(st.live_tickets.get_ticket(&id).is_none());

    let bad = Block { header: header(13), transactions: vec![purchase(vec![1u8; 31], 1)], ticket_votes: vec![] };
    assert_eq!(
        st.apply_block(&bad),
        Err(ConsensusError::InvalidTicket("Invalid public key length in ticket address.".to_string()))
    );
    // The height and tip moved before the refusal; the stored height did not.
    assert_eq!(st.current_height, 13);
    assert_eq!(st.get_current_block_height(), Ok(12));
}
