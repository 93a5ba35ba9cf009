use chunked_l1::payload::{
    non_privileged_transaction_count, validate_blob_versioned_hashes, validate_block_hash,
    validate_execution_payload_v1, validate_execution_payload_v2, validate_execution_payload_v3,
    validate_execution_payload_v4, Block, EncodedTransaction, ExecutionPayload,
    ExecutionPayloadValidationError, Transaction, TxKind, Withdrawal,
};
use chunked_l1::primitives::{Address, Bloom, H256, U256};
use chunked_l1::text::{push_decimal, push_hex, push_text};

fn hash(n: u8) -> H256 {
    let mut bytes = [0_u8; 32];
    bytes[31] = n;
    H256(bytes)
}

fn transaction(bytes: &[u8]) -> Transaction {
    Transaction {
        canonical: bytes.to_vec(),
        tx_type: bytes[0],
        to: TxKind::Call(Address([bytes[0]; 20])),
        blob_versioned_hashes: vec![hash(bytes[0])],
        privileged: bytes[0] == 0x7e,
    }
}

fn decode(bytes: &Vec<u8>) -> Result<Transaction, String> {
    if bytes.is_empty() {
        Err("empty transaction".to_string())
    } else {
        Ok(transaction(bytes))
    }
}

fn transactions_root(txs: &Vec<Transaction>) -> H256 {
    hash(100 + txs.len() as u8)
}

fn withdrawals_root(ws: &Vec<Withdrawal>) -> H256 {
    hash(200 + ws.len() as u8)
}

fn payload() -> ExecutionPayload {
    ExecutionPayload {
        parent_hash: hash(1),
        fee_recipient: Address([2; 20]),
        state_root: hash(3),
        receipts_root: hash(4),
        logs_bloom: Bloom([5; 256]),
        prev_randao: hash(6),
        block_number: 7,
        gas_limit: 8,
        gas_used: 9,
        timestamp: 10,
        extra_data: vec![11],
        base_fee_per_gas: 12,
        block_hash: hash(13),
        transactions: vec![EncodedTransaction(vec![1, 2]), EncodedTransaction(vec![0x7e])],
        withdrawals: Some(vec![Withdrawal {
            index: 1,
            validator_index: 2,
            address: Address([3; 20]),
            amount: 4,
        }]),
        blob_gas_used: Some(14),
        excess_blob_gas: Some(15),
        slot_number: Some(16),
        block_access_list: Some(vec![0xc0]),
    }
}

fn block() -> Block {
    payload()
        .into_block(
            Some(hash(17)),
            Some(hash(18)),
            Some(hash(19)),
            &decode,
            &transactions_root,
            &withdrawals_root,
        )
        .expect("payload should decode")
}

#[test]
fn payload_becomes_a_block() {
    let block = block();
    let header = &block.header;
    assert_eq!(header.parent_hash, hash(1));
    assert_eq!(header.coinbase, Address([2; 20]));
    assert_eq!(header.state_root, hash(3));
    assert_eq!(header.receipts_root, hash(4));
    assert_eq!(header.logs_bloom, Bloom([5; 256]));
    assert_eq!(header.prev_randao, hash(6));
    assert_eq!(
        (header.number, header.gas_limit, header.gas_used, header.timestamp),
        (7, 8, 9, 10)
    );
    assert_eq!(header.extra_data, vec![11]);
    assert_eq!(header.base_fee_per_gas, Some(12));
    assert_eq!(header.difficulty, U256 { high: 0, low: 0 });
    assert_eq!(header.nonce, 0);
    assert_eq!(header.transactions_root, hash(102));
    assert_eq!(header.withdrawals_root, Some(hash(201)));
    assert_eq!(header.blob_gas_used, Some(14));
    assert_eq!(header.excess_blob_gas, Some(15));
    assert_eq!(header.slot_number, Some(16));
    assert_eq!(header.parent_beacon_block_root, Some(hash(17)));
    assert_eq!(header.requests_hash, Some(hash(18)));
    assert_eq!(header.block_access_list_hash, Some(hash(19)));
    assert_eq!(block.body.transactions, vec![transaction(&[1, 2]), transaction(&[0x7e])]);
    assert!(block.body.ommers.is_empty());
    assert_eq!(block.body.withdrawals, payload().withdrawals);
}

#[test]
fn block_without_ommers_has_the_hash_of_the_empty_list() {
    let hex: String = block().header.ommers_hash.0.iter().map(|b| format!("{:02x}", b)).collect();
    assert_eq!(hex, "1dcc4de8dec75d7aab85b567b6ccd41ad312451b948a7413f0a142fd40d49347");
}

#[test]
fn payload_without_withdrawals_has_no_withdrawals_root() {
    let mut payload = payload();
    payload.withdrawals = None;
    let block = payload
        .into_block(None, None, None, &decode, &transactions_root, &withdrawals_root)
        .unwrap();
    assert_eq!(block.header.withdrawals_root, None);
    assert_eq!(block.body.withdrawals, None);
}

#[test]
fn payload_with_a_bad_transaction_is_no_block() {
    let mut payload = payload();
    payload.transactions.push(EncodedTransaction(vec![]));
    assert_eq!(
        payload.into_block(None, None, None, &decode, &transactions_root, &withdrawals_root),
        Err("empty transaction".to_string())
    );
}

#[test]
fn payload_and_block_give_each_other_back() {
    let again = ExecutionPayload::from_block(block(), hash(13), Some(vec![0xc0]));
    assert_eq!(again, payload());

    let mut old = block();
    old.header.base_fee_per_gas = None;
    assert_eq!(ExecutionPayload::from_block(old, hash(0), None).base_fee_per_gas, 0);
}

#[test]
fn transactions_are_encoded_canonically() {
    let encoded = EncodedTransaction::encode(&transaction(&[3, 4]));
    assert_eq!(encoded, EncodedTransaction(vec![3, 4]));
    assert_eq!(encoded.decode(&decode), Ok(transaction(&[3, 4])));
    assert!(EncodedTransaction(vec![]).decode(&decode).is_err());
}

fn missing(field: &'static str) -> Result<(), ExecutionPayloadValidationError> {
    Err(ExecutionPayloadValidationError::MissingField { field })
}

fn unexpected(field: &'static str) -> Result<(), ExecutionPayloadValidationError> {
    Err(ExecutionPayloadValidationError::UnexpectedField { field })
}

#[test]
fn payload_versions_ask_for_their_fields() {
    let full = payload();
    assert_eq!(validate_execution_payload_v1(&full), unexpected("withdrawals"));
    assert_eq!(validate_execution_payload_v2(&full), unexpected("blob_gas_used"));
    assert_eq!(validate_execution_payload_v3(&full), Ok(()));
    assert_eq!(validate_execution_payload_v4(&full), Ok(()));

    let mut third = payload();
    third.block_access_list = None;
    assert_eq!(validate_execution_payload_v3(&third), Ok(()));
    assert_eq!(validate_execution_payload_v4(&third), missing("block_access_list"));
    third.excess_blob_gas = None;
    assert_eq!(validate_execution_payload_v3(&third), missing("excess_blob_gas"));

    let mut second = third;
    second.blob_gas_used = None;
    assert_eq!(validate_execution_payload_v2(&second), Ok(()));
    assert_eq!(validate_execution_payload_v3(&second), missing("blob_gas_used"));
    assert_eq!(validate_execution_payload_v1(&second), unexpected("withdrawals"));
    second.excess_blob_gas = Some(0);
    assert_eq!(validate_execution_payload_v2(&second), unexpected("excess_blob_gas"));

    let mut first = second;
    first.withdrawals = None;
    assert_eq!(validate_execution_payload_v1(&first), unexpected("excess_blob_gas"));
    first.excess_blob_gas = None;
    assert_eq!(validate_execution_payload_v1(&first), Ok(()));
    assert_eq!(validate_execution_payload_v2(&first), missing("withdrawals"));
}

#[test]
fn block_hash_is_compared_with_the_claim() {
    assert_eq!(validate_block_hash(&payload(), hash(13)), Ok(()));
    let error = validate_block_hash(&payload(), hash(14)).unwrap_err();
    assert_eq!(
        error,
        ExecutionPayloadValidationError::BlockHashMismatch { expected: hash(14), actual: hash(13) }
    );
    assert_eq!(
        error.message(),
        "block hash mismatch: \
         expected 0x000000000000000000000000000000000000000000000000000000000000000e, \
         got 0x000000000000000000000000000000000000000000000000000000000000000d"
    );
}

#[test]
fn blob_hashes_are_compared_in_order() {
    let block = block();
    assert_eq!(validate_blob_versioned_hashes(&block, &[hash(1), hash(0x7e)]), Ok(()));
    let error = validate_blob_versioned_hashes(&block, &[hash(0x7e), hash(1)]).unwrap_err();
    assert_eq!(
        error,
        ExecutionPayloadValidationError::BlobVersionedHashesMismatch {
            expected: vec![hash(0x7e), hash(1)],
            actual: vec![hash(1), hash(0x7e)],
        }
    );
    assert_eq!(
        error.message(),
        "blob versioned hashes mismatch: \
         expected [0x000000000000000000000000000000000000000000000000000000000000007e, \
         0x0000000000000000000000000000000000000000000000000000000000000001], \
         got [0x0000000000000000000000000000000000000000000000000000000000000001, \
         0x000000000000000000000000000000000000000000000000000000000000007e]"
    );
    let none = validate_blob_versioned_hashes(&block, &[]).unwrap_err();
    assert!(none.message().starts_with("blob versioned hashes mismatch: expected [], got [0x"));
}

#[test]
fn field_errors_name_the_field() {
    assert_eq!(
        missing("withdrawals").unwrap_err().message(),
        "missing field `withdrawals` in execution payload"
    );
    assert_eq!(
        unexpected("blob_gas_used").unwrap_err().message(),
        "unexpected field `blob_gas_used` in execution payload"
    );
}

#[test]
fn privileged_transactions_are_not_counted() {
    assert_eq!(non_privileged_transaction_count(&block()), 1);
}

#[test]
fn numbers_and_bytes_are_written_out() {
    let mut s = String::new();
    push_decimal(&mut s, 0);
    push_text(&mut s, "/");
    push_decimal(&mut s, u64::MAX);
    push_text(&mut s, "/");
    push_hex(&mut s, &[0, 0x1f, 0xa0]);
    assert_eq!(s, "0/18446744073709551615/0x001fa0");
}

#[test]
fn payloads_blocks_and_errors_can_be_copied() {
    assert_eq!(payload().clone(), payload());
    assert_eq!(block().clone(), block());
    let error = missing("withdrawals").unwrap_err();
    assert_eq!(error.clone(), error);
}
