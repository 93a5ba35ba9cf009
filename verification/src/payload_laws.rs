//! What payloads, blocks and their checks say of each other, field by field and of whatever the
//! functions return.

use crate::hash::keccak256;
use crate::payload::{
    all_blob_hashes, non_privileged_transaction_count, transactions_decode,
    validate_blob_versioned_hashes, validate_block_hash, validate_execution_payload_v1,
    validate_execution_payload_v2, validate_execution_payload_v3, validate_execution_payload_v4,
    Block, EncodedTransaction, ExecutionPayload, ExecutionPayloadValidationError, Transaction,
    Withdrawal,
};
use crate::primitives::H256;
use vstd::prelude::*;

verus! {

/// A block that is made of a payload has every field of the payload under its own name: no field is
/// computed from another, apart from the roots of the body and the hash of the empty list of
/// ommers. The fields that a payload lacks are those handed in, or zero.
pub proof fn block_takes_over_every_field<
    E,
    D: Fn(&Vec<u8>) -> Result<Transaction, E>,
    R: Fn(&Vec<Transaction>) -> H256,
    S: Fn(&Vec<Withdrawal>) -> H256,
>(
    payload: ExecutionPayload,
    parent_beacon_block_root: Option<H256>,
    requests_hash: Option<H256>,
    block_access_list_hash: Option<H256>,
    decode: D,
    transactions_root: R,
    withdrawals_root: S,
    block: Block,
)
    requires
        call_ensures(
            ExecutionPayload::into_block::<E, D, R, S>,
            (
                payload,
                parent_beacon_block_root,
                requests_hash,
                block_access_list_hash,
                &decode,
                &transactions_root,
                &withdrawals_root,
            ),
            Ok(block),
        ),
    ensures
        block.header.parent_hash == payload.parent_hash,
        block.header.ommers_hash.0@ == keccak256(seq![0xc0u8]),
        block.header.coinbase == payload.fee_recipient,
        block.header.state_root == payload.state_root,
        call_ensures(
            transactions_root,
            (&block.body.transactions,),
            block.header.transactions_root,
        ),
        block.header.receipts_root == payload.receipts_root,
        block.header.logs_bloom == payload.logs_bloom,
        block.header.difficulty.high == 0,
        block.header.difficulty.low == 0,
        block.header.number == payload.block_number,
        block.header.gas_limit == payload.gas_limit,
        block.header.gas_used == payload.gas_used,
        block.header.timestamp == payload.timestamp,
        block.header.extra_data == payload.extra_data,
        block.header.prev_randao == payload.prev_randao,
        block.header.nonce == 0,
        block.header.base_fee_per_gas == Some(payload.base_fee_per_gas),
        payload.withdrawals is None ==> block.header.withdrawals_root is None,
        payload.withdrawals matches Some(withdrawals) ==> {
            &&& block.header.withdrawals_root matches Some(root)
            &&& call_ensures(withdrawals_root, (&withdrawals,), root)
        },
        block.header.blob_gas_used == payload.blob_gas_used,
        block.header.excess_blob_gas == payload.excess_blob_gas,
        block.header.parent_beacon_block_root == parent_beacon_block_root,
        block.header.requests_hash == requests_hash,
        block.header.slot_number == payload.slot_number,
        block.header.block_access_list_hash == block_access_list_hash,
        block.body.ommers@.len() == 0,
        block.body.withdrawals == payload.withdrawals,
        block.body.transactions@.len() == payload.transactions@.len(),
        forall|i: int|
            0 <= i < payload.transactions@.len() ==> call_ensures(
                decode,
                (&payload.transactions@[i].0,),
                Ok(#[trigger] block.body.transactions@[i]),
            ),
{
    assert(seq![0xc0u8] + Seq::<u8>::empty() =~= seq![0xc0u8]);
}

/// No block comes of a payload exactly if one of its transactions does not decode: the error is
/// that of such a transaction, and all before it decode.
pub proof fn block_fails_with_its_first_transaction<
    E,
    D: Fn(&Vec<u8>) -> Result<Transaction, E>,
    R: Fn(&Vec<Transaction>) -> H256,
    S: Fn(&Vec<Withdrawal>) -> H256,
>(
    payload: ExecutionPayload,
    parent_beacon_block_root: Option<H256>,
    requests_hash: Option<H256>,
    block_access_list_hash: Option<H256>,
    decode: D,
    transactions_root: R,
    withdrawals_root: S,
    r: Result<Block, E>,
) -> (before: Seq<Transaction>)
    requires
        call_ensures(
            ExecutionPayload::into_block::<E, D, R, S>,
            (
                payload,
                parent_beacon_block_root,
                requests_hash,
                block_access_list_hash,
                &decode,
                &transactions_root,
                &withdrawals_root,
            ),
            r,
        ),
    ensures
        r matches Err(e) ==> {
            &&& before.len() < payload.transactions@.len()
            &&& call_ensures(
                decode,
                (&payload.transactions@[before.len() as int].0,),
                Err(e),
            )
            &&& forall|j: int|
                0 <= j < before.len() ==> call_ensures(
                    decode,
                    (&payload.transactions@[j].0,),
                    Ok(#[trigger] before[j]),
                )
        },
        (forall|i: int, e: E|
            0 <= i < payload.transactions@.len() ==> !#[trigger] call_ensures(
                decode,
                (&payload.transactions@[i].0,),
                Err::<Transaction, E>(e),
            )) ==> r is Ok,
{
    match r {
        Ok(_) => Seq::empty(),
        Err(e) => {
            let before = choose|before: Seq<Transaction>|
                {
                    &&& before.len() < payload.transactions@.len()
                    &&& #[trigger] transactions_decode(payload.transactions@, decode, before)
                    &&& decode.ensures(
                        (&payload.transactions@[before.len() as int].0,),
                        Err(e),
                    )
                };
            let i = before.len() as int;
            assert(call_ensures(
                decode,
                (&payload.transactions@[i].0,),
                Err::<Transaction, E>(e),
            ));
            before
        },
    }
}

/// A payload that is made of a block has every field of the block under its own name. The hash and
/// the block access list are those handed in, and a header without a base fee counts as one of
/// zero.
pub proof fn payload_takes_over_every_field(
    block: Block,
    block_hash: H256,
    block_access_list: Option<Vec<u8>>,
    payload: ExecutionPayload,
)
    requires
        call_ensures(
            ExecutionPayload::from_block,
            (block, block_hash, block_access_list),
            payload,
        ),
    ensures
        payload.parent_hash == block.header.parent_hash,
        payload.fee_recipient == block.header.coinbase,
        payload.state_root == block.header.state_root,
        payload.receipts_root == block.header.receipts_root,
        payload.logs_bloom == block.header.logs_bloom,
        payload.prev_randao == block.header.prev_randao,
        payload.block_number == block.header.number,
        payload.gas_limit == block.header.gas_limit,
        payload.gas_used == block.header.gas_used,
        payload.timestamp == block.header.timestamp,
        payload.extra_data == block.header.extra_data,
        block.header.base_fee_per_gas is Some ==> Some(payload.base_fee_per_gas)
            == block.header.base_fee_per_gas,
        block.header.base_fee_per_gas is None ==> payload.base_fee_per_gas == 0,
        payload.block_hash == block_hash,
        payload.transactions@.len() == block.body.transactions@.len(),
        forall|i: int|
            0 <= i < payload.transactions@.len() ==> (#[trigger] payload.transactions@[i]).0@
                == block.body.transactions@[i].canonical@,
        payload.withdrawals == block.body.withdrawals,
        payload.blob_gas_used == block.header.blob_gas_used,
        payload.excess_blob_gas == block.header.excess_blob_gas,
        payload.slot_number == block.header.slot_number,
        payload.block_access_list == block_access_list,
{
}

/// An encoded transaction holds the canonical encoding, and decoding one is decoding what it holds.
pub proof fn encoded_transaction_is_canonical<E, D: Fn(&Vec<u8>) -> Result<Transaction, E>>(
    tx: Transaction,
    encoded: EncodedTransaction,
    decode: D,
    r: Result<Transaction, E>,
)
    ensures
        call_ensures(EncodedTransaction::encode, (&tx,), encoded) ==> encoded.0@ == tx.canonical@,
        call_ensures(EncodedTransaction::decode::<E, D>, (&encoded, &decode), r) ==> call_ensures(
            decode,
            (&encoded.0,),
            r,
        ),
{
}

/// A payload of version 1 has neither withdrawals nor blob fields; the first field that it has
/// nevertheless is reported.
pub proof fn version_1_payloads(
    payload: ExecutionPayload,
    r: Result<(), ExecutionPayloadValidationError>,
)
    requires
        call_ensures(validate_execution_payload_v1, (&payload,), r),
    ensures
        r is Ok <==> payload.withdrawals is None && payload.blob_gas_used is None
            && payload.excess_blob_gas is None,
        payload.withdrawals is Some ==> r == Err::<(), ExecutionPayloadValidationError>(
            ExecutionPayloadValidationError::UnexpectedField { field: "withdrawals" },
        ),
        payload.withdrawals is None && payload.blob_gas_used is Some ==> r == Err::<
            (),
            ExecutionPayloadValidationError,
        >(ExecutionPayloadValidationError::UnexpectedField { field: "blob_gas_used" }),
        payload.withdrawals is None && payload.blob_gas_used is None && payload.excess_blob_gas
            is Some ==> r == Err::<(), ExecutionPayloadValidationError>(
            ExecutionPayloadValidationError::UnexpectedField { field: "excess_blob_gas" },
        ),
{
}

/// A payload of version 2 has withdrawals but no blob fields; the first field that is not so is
/// reported.
pub proof fn version_2_payloads(
    payload: ExecutionPayload,
    r: Result<(), ExecutionPayloadValidationError>,
)
    requires
        call_ensures(validate_execution_payload_v2, (&payload,), r),
    ensures
        r is Ok <==> payload.withdrawals is Some && payload.blob_gas_used is None
            && payload.excess_blob_gas is None,
        payload.withdrawals is None ==> r == Err::<(), ExecutionPayloadValidationError>(
            ExecutionPayloadValidationError::MissingField { field: "withdrawals" },
        ),
        payload.withdrawals is Some && payload.blob_gas_used is Some ==> r == Err::<
            (),
            ExecutionPayloadValidationError,
        >(ExecutionPayloadValidationError::UnexpectedField { field: "blob_gas_used" }),
        payload.withdrawals is Some && payload.blob_gas_used is None && payload.excess_blob_gas
            is Some ==> r == Err::<(), ExecutionPayloadValidationError>(
            ExecutionPayloadValidationError::UnexpectedField { field: "excess_blob_gas" },
        ),
{
}

/// A payload of version 3 has withdrawals and blob fields; the first field that it lacks is
/// reported.
pub proof fn version_3_payloads(
    payload: ExecutionPayload,
    r: Result<(), ExecutionPayloadValidationError>,
)
    requires
        call_ensures(validate_execution_payload_v3, (&payload,), r),
    ensures
        r is Ok <==> payload.withdrawals is Some && payload.blob_gas_used is Some
            && payload.excess_blob_gas is Some,
        payload.withdrawals is None ==> r == Err::<(), ExecutionPayloadValidationError>(
            ExecutionPayloadValidationError::MissingField { field: "withdrawals" },
        ),
        payload.withdrawals is Some && payload.blob_gas_used is None ==> r == Err::<
            (),
            ExecutionPayloadValidationError,
        >(ExecutionPayloadValidationError::MissingField { field: "blob_gas_used" }),
        payload.withdrawals is Some && payload.blob_gas_used is Some && payload.excess_blob_gas
            is None ==> r == Err::<(), ExecutionPayloadValidationError>(
            ExecutionPayloadValidationError::MissingField { field: "excess_blob_gas" },
        ),
{
}

/// A payload of version 4 has a block access list beside what one of version 3 has; a missing list
/// is reported first.
pub proof fn version_4_payloads(
    payload: ExecutionPayload,
    r: Result<(), ExecutionPayloadValidationError>,
    r3: Result<(), ExecutionPayloadValidationError>,
)
    requires
        call_ensures(validate_execution_payload_v4, (&payload,), r),
        call_ensures(validate_execution_payload_v3, (&payload,), r3),
    ensures
        r is Ok <==> payload.block_access_list is Some && payload.withdrawals is Some
            && payload.blob_gas_used is Some && payload.excess_blob_gas is Some,
        payload.block_access_list is None ==> r == Err::<(), ExecutionPayloadValidationError>(
            ExecutionPayloadValidationError::MissingField { field: "block_access_list" },
        ),
        payload.block_access_list is Some ==> r == r3,
{
}

/// The claimed block hash is accepted exactly if it has the bytes of the hash of the block;
/// otherwise both are reported.
pub proof fn claimed_block_hash_decides(
    payload: ExecutionPayload,
    block_hash: H256,
    r: Result<(), ExecutionPayloadValidationError>,
)
    requires
        call_ensures(validate_block_hash, (&payload, block_hash), r),
    ensures
        r is Ok <==> payload.block_hash.0@ == block_hash.0@,
        r matches Err(e) ==> {
            &&& e matches ExecutionPayloadValidationError::BlockHashMismatch { expected, actual }
            &&& expected == block_hash
            &&& actual == payload.block_hash
        },
{
    assert(payload.block_hash.0@ == block_hash.0@ ==> payload.block_hash.0 =~= block_hash.0);
}

/// The blob hashes of a block are accepted exactly if they are the expected ones, transaction after
/// transaction; otherwise both lists are reported.
pub proof fn blob_hashes_decide(
    block: Block,
    expected: &[H256],
    r: Result<(), ExecutionPayloadValidationError>,
)
    requires
        call_ensures(validate_blob_versioned_hashes, (&block, expected), r),
    ensures
        r is Ok <==> block.body.transactions@.map_values(
            |tx: Transaction| tx.blob_versioned_hashes@,
        ).flatten() == expected@,
        r matches Err(e) ==> {
            &&& e matches ExecutionPayloadValidationError::BlobVersionedHashesMismatch {
                expected: wanted,
                actual,
            }
            &&& wanted@ == expected@
            &&& actual@ == block.body.transactions@.map_values(
                |tx: Transaction| tx.blob_versioned_hashes@,
            ).flatten()
        },
{
    blob_hashes_are_flattened(block.body.transactions@);
}

proof fn blob_hashes_are_flattened(transactions: Seq<Transaction>)
    ensures
        all_blob_hashes(transactions) == transactions.map_values(
            |tx: Transaction| tx.blob_versioned_hashes@,
        ).flatten(),
    decreases transactions.len(),
{
    let parts = transactions.map_values(|tx: Transaction| tx.blob_versioned_hashes@);
    parts.lemma_flatten_and_flatten_alt_are_equivalent();
    if transactions.len() > 0 {
        let front = transactions.drop_last();
        let front_parts = front.map_values(|tx: Transaction| tx.blob_versioned_hashes@);
        blob_hashes_are_flattened(front);
        front_parts.lemma_flatten_and_flatten_alt_are_equivalent();
        assert(parts.drop_last() =~= front_parts);
        assert(parts.last() == transactions.last().blob_versioned_hashes@);
    }
}

/// The count of transactions leaves out the privileged ones and no others: a block without
/// privileged transactions has them all counted, one of privileged transactions alone none, and a
/// transaction more counts exactly if it is not privileged.
pub proof fn count_leaves_out_privileged_transactions(
    block: Block,
    n: usize,
    longer: Block,
    m: usize,
    tx: Transaction,
)
    requires
        call_ensures(non_privileged_transaction_count, (&block,), n),
        call_ensures(non_privileged_transaction_count, (&longer,), m),
        longer.body.transactions@ == block.body.transactions@.push(tx),
    ensures
        block.body.transactions@.len() == 0 ==> n == 0,
        m == if tx.privileged {
            n as int
        } else {
            n + 1
        },
{
    reveal_with_fuel(Seq::filter, 1);
    assert(longer.body.transactions@.drop_last() =~= block.body.transactions@);
    assert(longer.body.transactions@.last() == tx);
}

} // verus!
