//! Execution payloads, the blocks they stand for, and the checks between the two.

use crate::hash::{keccak, keccak256};
use crate::primitives::{same_hashes, Address, Bloom, H256, U256};
use crate::rlp::{push_list, rlp_list};
use crate::text::{hex, push_hex, push_text};
use vstd::prelude::*;

verus! {

/// A validator withdrawal.
#[derive(Clone, Copy, Debug, Default, PartialEq, Eq)]
pub struct Withdrawal {
    pub index: u64,
    pub validator_index: u64,
    pub address: Address,
    pub amount: u64,
}

/// Where a transaction goes.
#[derive(Clone, Copy, Debug, Default, PartialEq, Eq)]
pub enum TxKind {
    #[default]
    Create,
    Call(Address),
}

/// A transaction, as far as payloads, blocks and chunks are concerned with it.
#[derive(Clone, Debug, Default, PartialEq, Eq)]
pub struct Transaction {
    /// The canonical encoding: the transaction type followed by the transaction, or a bare legacy
    /// transaction.
    pub canonical: Vec<u8>,
    pub tx_type: u8,
    pub to: TxKind,
    pub blob_versioned_hashes: Vec<H256>,
    pub privileged: bool,
}

/// A transaction in its canonical encoding.
#[derive(Clone, Debug, PartialEq, Eq)]
pub struct EncodedTransaction(pub Vec<u8>);

/// The header of a block.
#[derive(Clone, Debug, Default, PartialEq, Eq)]
pub struct BlockHeader {
    pub parent_hash: H256,
    pub ommers_hash: H256,
    pub coinbase: Address,
    pub state_root: H256,
    pub transactions_root: H256,
    pub receipts_root: H256,
    pub logs_bloom: Bloom,
    pub difficulty: U256,
    pub number: u64,
    pub gas_limit: u64,
    pub gas_used: u64,
    pub timestamp: u64,
    pub extra_data: Vec<u8>,
    pub prev_randao: H256,
    pub nonce: u64,
    pub base_fee_per_gas: Option<u64>,
    pub withdrawals_root: Option<H256>,
    pub blob_gas_used: Option<u64>,
    pub excess_blob_gas: Option<u64>,
    pub parent_beacon_block_root: Option<H256>,
    pub requests_hash: Option<H256>,
    pub slot_number: Option<u64>,
    pub block_access_list_hash: Option<H256>,
}

/// The body of a block; blocks with ommers are not produced any more.
#[derive(Clone, Debug, Default, PartialEq, Eq)]
pub struct BlockBody {
    pub transactions: Vec<Transaction>,
    pub ommers: Vec<BlockHeader>,
    pub withdrawals: Option<Vec<Withdrawal>>,
}

/// A block.
#[derive(Clone, Debug, Default, PartialEq, Eq)]
pub struct Block {
    pub header: BlockHeader,
    pub body: BlockBody,
}

/// A block as the consensus layer hands it over.
#[derive(Clone, Debug, PartialEq, Eq)]
pub struct ExecutionPayload {
    pub parent_hash: H256,
    pub fee_recipient: Address,
    pub state_root: H256,
    pub receipts_root: H256,
    pub logs_bloom: Bloom,
    pub prev_randao: H256,
    pub block_number: u64,
    pub gas_limit: u64,
    pub gas_used: u64,
    pub timestamp: u64,
    pub extra_data: Vec<u8>,
    pub base_fee_per_gas: u64,
    pub block_hash: H256,
    pub transactions: Vec<EncodedTransaction>,
    pub withdrawals: Option<Vec<Withdrawal>>,
    pub blob_gas_used: Option<u64>,
    pub excess_blob_gas: Option<u64>,
    pub slot_number: Option<u64>,
    /// The encoded block access list.
    pub block_access_list: Option<Vec<u8>>,
}

/// What is wrong with an execution payload.
#[derive(Clone, Debug, PartialEq, Eq)]
pub enum ExecutionPayloadValidationError {
    MissingField { field: &'static str },
    UnexpectedField { field: &'static str },
    BlockHashMismatch { expected: H256, actual: H256 },
    BlobVersionedHashesMismatch { expected: Vec<H256>, actual: Vec<H256> },
}

/// The header fields that a payload gives directly, beside those computed from the body or handed
/// in by the caller.
pub open spec fn payload_header(
    payload: ExecutionPayload,
    ommers_hash: H256,
    transactions_root: H256,
    withdrawals_root: Option<H256>,
    parent_beacon_block_root: Option<H256>,
    requests_hash: Option<H256>,
    block_access_list_hash: Option<H256>,
) -> BlockHeader {
    BlockHeader {
        parent_hash: payload.parent_hash,
        ommers_hash,
        coinbase: payload.fee_recipient,
        state_root: payload.state_root,
        transactions_root,
        receipts_root: payload.receipts_root,
        logs_bloom: payload.logs_bloom,
        difficulty: U256 { high: 0, low: 0 },
        number: payload.block_number,
        gas_limit: payload.gas_limit,
        gas_used: payload.gas_used,
        timestamp: payload.timestamp,
        extra_data: payload.extra_data,
        prev_randao: payload.prev_randao,
        nonce: 0,
        base_fee_per_gas: Some(payload.base_fee_per_gas),
        withdrawals_root,
        blob_gas_used: payload.blob_gas_used,
        excess_blob_gas: payload.excess_blob_gas,
        parent_beacon_block_root,
        requests_hash,
        slot_number: payload.slot_number,
        block_access_list_hash,
    }
}

/// The hash of an empty list of ommers.
pub open spec fn no_ommers_hash() -> Seq<u8> {
    keccak256(rlp_list(Seq::empty()))
}

/// The first transactions decode to `decoded`.
pub open spec fn transactions_decode<E, D: Fn(&Vec<u8>) -> Result<Transaction, E>>(
    encoded: Seq<EncodedTransaction>,
    decode: D,
    decoded: Seq<Transaction>,
) -> bool {
    forall|i: int|
        0 <= i < decoded.len() ==> decode.ensures(
            (&encoded[i].0,),
            Ok(#[trigger] decoded[i]),
        )
}

/// `block` is the block of `payload`: its transactions are decoded, its roots computed, and the
/// other header fields taken over.
pub open spec fn is_block_of<
    E,
    D: Fn(&Vec<u8>) -> Result<Transaction, E>,
    R: Fn(&Vec<Transaction>) -> H256,
    S: Fn(&Vec<Withdrawal>) -> H256,
>(
    block: Block,
    payload: ExecutionPayload,
    parent_beacon_block_root: Option<H256>,
    requests_hash: Option<H256>,
    block_access_list_hash: Option<H256>,
    decode: D,
    transactions_root: R,
    withdrawals_root: S,
) -> bool {
    &&& block.body.transactions@.len() == payload.transactions@.len()
    &&& transactions_decode(payload.transactions@, decode, block.body.transactions@)
    &&& block.body.ommers@.len() == 0
    &&& block.body.withdrawals == payload.withdrawals
    &&& block.header.ommers_hash@ == no_ommers_hash()
    &&& transactions_root.ensures((&block.body.transactions,), block.header.transactions_root)
    &&& match (payload.withdrawals, block.header.withdrawals_root) {
        (Some(withdrawals), Some(root)) => withdrawals_root.ensures((&withdrawals,), root),
        (None, None) => true,
        _ => false,
    }
    &&& block.header == payload_header(
        payload,
        block.header.ommers_hash,
        block.header.transactions_root,
        block.header.withdrawals_root,
        parent_beacon_block_root,
        requests_hash,
        block_access_list_hash,
    )
}

/// The block of `payload`, or the error of the first transaction that does not decode.
pub open spec fn block_result<
    E,
    D: Fn(&Vec<u8>) -> Result<Transaction, E>,
    R: Fn(&Vec<Transaction>) -> H256,
    S: Fn(&Vec<Withdrawal>) -> H256,
>(
    r: Result<Block, E>,
    payload: ExecutionPayload,
    parent_beacon_block_root: Option<H256>,
    requests_hash: Option<H256>,
    block_access_list_hash: Option<H256>,
    decode: D,
    transactions_root: R,
    withdrawals_root: S,
) -> bool {
    match r {
        Ok(block) => is_block_of(
            block,
            payload,
            parent_beacon_block_root,
            requests_hash,
            block_access_list_hash,
            decode,
            transactions_root,
            withdrawals_root,
        ),
        Err(e) => exists|before: Seq<Transaction>|
            {
                &&& before.len() < payload.transactions@.len()
                &&& #[trigger] transactions_decode(payload.transactions@, decode, before)
                &&& decode.ensures((&payload.transactions@[before.len() as int].0,), Err(e))
            },
    }
}

/// `payload` is the payload of `block`, which has the hash `block_hash`.
pub open spec fn is_payload_of(
    payload: ExecutionPayload,
    block: Block,
    block_hash: H256,
    block_access_list: Option<Vec<u8>>,
) -> bool {
    &&& payload.parent_hash == block.header.parent_hash
    &&& payload.fee_recipient == block.header.coinbase
    &&& payload.state_root == block.header.state_root
    &&& payload.receipts_root == block.header.receipts_root
    &&& payload.logs_bloom == block.header.logs_bloom
    &&& payload.prev_randao == block.header.prev_randao
    &&& payload.block_number == block.header.number
    &&& payload.gas_limit == block.header.gas_limit
    &&& payload.gas_used == block.header.gas_used
    &&& payload.timestamp == block.header.timestamp
    &&& payload.extra_data == block.header.extra_data
    &&& payload.base_fee_per_gas == match block.header.base_fee_per_gas {
        Some(fee) => fee,
        None => 0,
    }
    &&& payload.block_hash == block_hash
    &&& payload.transactions@.len() == block.body.transactions@.len()
    &&& forall|i: int|
        0 <= i < payload.transactions@.len() ==> (#[trigger] payload.transactions@[i]).0@
            == block.body.transactions@[i].canonical@
    &&& payload.withdrawals == block.body.withdrawals
    &&& payload.blob_gas_used == block.header.blob_gas_used
    &&& payload.excess_blob_gas == block.header.excess_blob_gas
    &&& payload.slot_number == block.header.slot_number
    &&& payload.block_access_list == block_access_list
}

impl EncodedTransaction {
    /// Decodes the canonical encoding, that is `TransactionType || Transaction` or
    /// `LegacyTransaction`.
    pub fn decode<E, D: Fn(&Vec<u8>) -> Result<Transaction, E>>(&self, decode_canonical: &D) -> (r:
        Result<Transaction, E>)
        requires
            decode_canonical.requires((&self.0,)),
        ensures
            decode_canonical.ensures((&self.0,), r),
    {
        decode_canonical(&self.0)
    }

    pub fn encode(tx: &Transaction) -> (encoded: Self)
        ensures
            encoded.0@ == tx.canonical@,
    {
        let bytes = tx.canonical.clone();
        assert(bytes@ =~= tx.canonical@);
        EncodedTransaction(bytes)
    }
}

impl ExecutionPayload {
    /// The block of the payload, or the error of the first transaction that does not decode.
    ///
    /// `decode` reads a canonical transaction; `transactions_root` and `withdrawals_root` compute
    /// the roots of the body.
    pub fn into_block<
        E,
        D: Fn(&Vec<u8>) -> Result<Transaction, E>,
        R: Fn(&Vec<Transaction>) -> H256,
        S: Fn(&Vec<Withdrawal>) -> H256,
    >(
        self,
        parent_beacon_block_root: Option<H256>,
        requests_hash: Option<H256>,
        block_access_list_hash: Option<H256>,
        decode: &D,
        transactions_root: &R,
        withdrawals_root: &S,
    ) -> (r: Result<Block, E>)
        requires
            forall|bytes: &Vec<u8>| #[trigger] decode.requires((bytes,)),
            forall|txs: &Vec<Transaction>| #[trigger] transactions_root.requires((txs,)),
            forall|ws: &Vec<Withdrawal>| #[trigger] withdrawals_root.requires((ws,)),
        ensures
            block_result(
                r,
                self,
                parent_beacon_block_root,
                requests_hash,
                block_access_list_hash,
                *decode,
                *transactions_root,
                *withdrawals_root,
            ),
    {
        let mut transactions: Vec<Transaction> = Vec::new();
        let mut i: usize = 0;
        while i < self.transactions.len()
            invariant
                i <= self.transactions.len(),
                transactions@.len() == i,
                forall|bytes: &Vec<u8>| #[trigger] decode.requires((bytes,)),
                transactions_decode(self.transactions@, *decode, transactions@),
            decreases self.transactions.len() - i,
        {
            match self.transactions[i].decode(decode) {
                Ok(tx) => {
                    transactions.push(tx);
                },
                Err(e) => {
                    assert(transactions_decode(self.transactions@, *decode, transactions@));
                    return Err(e);
                },
            }
            i = i + 1;
        }
        let mut no_ommers: Vec<u8> = Vec::new();
        push_list(&mut no_ommers, Vec::new());
        assert(no_ommers@ =~= rlp_list(Seq::empty()));
        let transactions_root_hash = transactions_root(&transactions);
        let withdrawals_root_hash = match &self.withdrawals {
            Some(ws) => Some(withdrawals_root(ws)),
            None => None,
        };
        let header = BlockHeader {
            parent_hash: self.parent_hash,
            ommers_hash: keccak(no_ommers.as_slice()),
            coinbase: self.fee_recipient,
            state_root: self.state_root,
            transactions_root: transactions_root_hash,
            receipts_root: self.receipts_root,
            logs_bloom: self.logs_bloom,
            difficulty: U256 { high: 0, low: 0 },
            number: self.block_number,
            gas_limit: self.gas_limit,
            gas_used: self.gas_used,
            timestamp: self.timestamp,
            extra_data: self.extra_data,
            prev_randao: self.prev_randao,
            nonce: 0,
            base_fee_per_gas: Some(self.base_fee_per_gas),
            withdrawals_root: withdrawals_root_hash,
            blob_gas_used: self.blob_gas_used,
            excess_blob_gas: self.excess_blob_gas,
            parent_beacon_block_root,
            requests_hash,
            slot_number: self.slot_number,
            block_access_list_hash,
        };
        let body = BlockBody { transactions, ommers: Vec::new(), withdrawals: self.withdrawals };
        Ok(Block { header, body })
    }

    /// The payload of a block with the hash `block_hash`.
    pub fn from_block(
        block: Block,
        block_hash: H256,
        block_access_list: Option<Vec<u8>>,
    ) -> (payload: Self)
        ensures
            is_payload_of(payload, block, block_hash, block_access_list),
    {
        let mut transactions: Vec<EncodedTransaction> = Vec::new();
        let mut i: usize = 0;
        while i < block.body.transactions.len()
            invariant
                i <= block.body.transactions.len(),
                transactions@.len() == i,
                forall|j: int|
                    0 <= j < i ==> (#[trigger] transactions@[j]).0@
                        == block.body.transactions@[j].canonical@,
            decreases block.body.transactions.len() - i,
        {
            transactions.push(EncodedTransaction::encode(&block.body.transactions[i]));
            i = i + 1;
        }
        let base_fee_per_gas: u64 = match block.header.base_fee_per_gas {
            Some(fee) => fee,
            None => 0,
        };
        ExecutionPayload {
            parent_hash: block.header.parent_hash,
            fee_recipient: block.header.coinbase,
            state_root: block.header.state_root,
            receipts_root: block.header.receipts_root,
            logs_bloom: block.header.logs_bloom,
            prev_randao: block.header.prev_randao,
            block_number: block.header.number,
            gas_limit: block.header.gas_limit,
            gas_used: block.header.gas_used,
            timestamp: block.header.timestamp,
            extra_data: block.header.extra_data,
            base_fee_per_gas,
            block_hash,
            transactions,
            withdrawals: block.body.withdrawals,
            blob_gas_used: block.header.blob_gas_used,
            excess_blob_gas: block.header.excess_blob_gas,
            slot_number: block.header.slot_number,
            block_access_list,
        }
    }
}

/// A field that a payload version asks for or rules out, and what is wrong if it is not so.
pub open spec fn presence_complaint(
    present: bool,
    wanted: bool,
    field: &'static str,
) -> Option<ExecutionPayloadValidationError> {
    if present == wanted {
        None
    } else if wanted {
        Some(ExecutionPayloadValidationError::MissingField { field })
    } else {
        Some(ExecutionPayloadValidationError::UnexpectedField { field })
    }
}

/// The first complaint of the two.
pub open spec fn first_complaint(
    a: Option<ExecutionPayloadValidationError>,
    b: Option<ExecutionPayloadValidationError>,
) -> Option<ExecutionPayloadValidationError> {
    if a is Some {
        a
    } else {
        b
    }
}

/// What is wrong with the optional fields of a payload: whether withdrawals and the blob fields
/// are wanted depends on its version, and the first field that is not as wanted is reported.
pub open spec fn fields_complaint(
    payload: ExecutionPayload,
    withdrawals: bool,
    blobs: bool,
) -> Option<ExecutionPayloadValidationError> {
    first_complaint(
        presence_complaint(payload.withdrawals is Some, withdrawals, "withdrawals"),
        first_complaint(
            presence_complaint(payload.blob_gas_used is Some, blobs, "blob_gas_used"),
            presence_complaint(payload.excess_blob_gas is Some, blobs, "excess_blob_gas"),
        ),
    )
}

/// The complaint as a result.
pub open spec fn verdict(
    complaint: Option<ExecutionPayloadValidationError>,
) -> Result<(), ExecutionPayloadValidationError> {
    match complaint {
        None => Ok(()),
        Some(e) => Err(e),
    }
}

fn ensure_field_present(condition: bool, field: &'static str) -> (r: Result<
    (),
    ExecutionPayloadValidationError,
>)
    ensures
        r == verdict(presence_complaint(condition, true, field)),
{
    if !condition {
        return Err(ExecutionPayloadValidationError::MissingField { field });
    }
    Ok(())
}

fn ensure_field_absent(condition: bool, field: &'static str) -> (r: Result<
    (),
    ExecutionPayloadValidationError,
>)
    ensures
        r == verdict(presence_complaint(condition, false, field)),
{
    if condition {
        return Err(ExecutionPayloadValidationError::UnexpectedField { field });
    }
    Ok(())
}

/// Version 1 has neither withdrawals nor blob fields.
pub fn validate_execution_payload_v1(payload: &ExecutionPayload) -> (r: Result<
    (),
    ExecutionPayloadValidationError,
>)
    ensures
        r == verdict(fields_complaint(*payload, false, false)),
{
    ensure_field_absent(payload.withdrawals.is_some(), "withdrawals")?;
    ensure_field_absent(payload.blob_gas_used.is_some(), "blob_gas_used")?;
    ensure_field_absent(payload.excess_blob_gas.is_some(), "excess_blob_gas")?;
    Ok(())
}

/// Version 2 has withdrawals but no blob fields.
pub fn validate_execution_payload_v2(payload: &ExecutionPayload) -> (r: Result<
    (),
    ExecutionPayloadValidationError,
>)
    ensures
        r == verdict(fields_complaint(*payload, true, false)),
{
    ensure_field_present(payload.withdrawals.is_some(), "withdrawals")?;
    ensure_field_absent(payload.blob_gas_used.is_some(), "blob_gas_used")?;
    ensure_field_absent(payload.excess_blob_gas.is_some(), "excess_blob_gas")?;
    Ok(())
}

/// Version 3 has withdrawals and blob fields.
pub fn validate_execution_payload_v3(payload: &ExecutionPayload) -> (r: Result<
    (),
    ExecutionPayloadValidationError,
>)
    ensures
        r == verdict(fields_complaint(*payload, true, true)),
{
    ensure_field_present(payload.withdrawals.is_some(), "withdrawals")?;
    ensure_field_present(payload.blob_gas_used.is_some(), "blob_gas_used")?;
    ensure_field_present(payload.excess_blob_gas.is_some(), "excess_blob_gas")?;
    Ok(())
}

/// Version 4 has a block access list beside the fields of version 3.
pub fn validate_execution_payload_v4(payload: &ExecutionPayload) -> (r: Result<
    (),
    ExecutionPayloadValidationError,
>)
    ensures
        r == verdict(
            first_complaint(
                presence_complaint(
                    payload.block_access_list is Some,
                    true,
                    "block_access_list",
                ),
                fields_complaint(*payload, true, true),
            ),
        ),
{
    ensure_field_present(payload.block_access_list.is_some(), "block_access_list")?;
    validate_execution_payload_v3(payload)
}

/// Checks the hash that the payload claims against `block_hash`, the hash of its block.
pub fn validate_block_hash(payload: &ExecutionPayload, block_hash: H256) -> (r: Result<
    (),
    ExecutionPayloadValidationError,
>)
    ensures
        r == (if payload.block_hash == block_hash {
            Ok(())
        } else {
            Err(
                ExecutionPayloadValidationError::BlockHashMismatch {
                    expected: block_hash,
                    actual: payload.block_hash,
                },
            )
        }),
{
    let actual = payload.block_hash;
    if !actual.same(&block_hash) {
        return Err(
            ExecutionPayloadValidationError::BlockHashMismatch { expected: block_hash, actual },
        );
    }
    Ok(())
}

/// The blob hashes of the transactions, one transaction after the other.
pub open spec fn all_blob_hashes(transactions: Seq<Transaction>) -> Seq<H256>
    decreases transactions.len(),
{
    if transactions.len() == 0 {
        Seq::empty()
    } else {
        all_blob_hashes(transactions.drop_last()) + transactions.last().blob_versioned_hashes@
    }
}

/// Checks the blob hashes of the block's transactions against the `expected` ones.
pub fn validate_blob_versioned_hashes(block: &Block, expected: &[H256]) -> (r: Result<
    (),
    ExecutionPayloadValidationError,
>)
    ensures
        r is Ok <==> all_blob_hashes(block.body.transactions@) == expected@,
        r matches Err(e) ==> {
            &&& e is BlobVersionedHashesMismatch
            &&& e->BlobVersionedHashesMismatch_expected@ == expected@
            &&& e->BlobVersionedHashesMismatch_actual@ == all_blob_hashes(block.body.transactions@)
        },
{
    let mut actual: Vec<H256> = Vec::new();
    let mut i: usize = 0;
    while i < block.body.transactions.len()
        invariant
            i <= block.body.transactions.len(),
            actual@ == all_blob_hashes(block.body.transactions@.take(i as int)),
        decreases block.body.transactions.len() - i,
    {
        let ghost before = actual@;
        actual.extend_from_slice(block.body.transactions[i].blob_versioned_hashes.as_slice());
        proof {
            let hashes = block.body.transactions@[i as int].blob_versioned_hashes@;
            assert(actual@ =~= before + hashes);
            let done = block.body.transactions@.take(i + 1);
            assert(done.drop_last() =~= block.body.transactions@.take(i as int));
            assert(done.last() == block.body.transactions@[i as int]);
        }
        i = i + 1;
    }
    assert(block.body.transactions@.take(i as int) =~= block.body.transactions@);
    if !same_hashes(expected, actual.as_slice()) {
        return Err(
            ExecutionPayloadValidationError::BlobVersionedHashesMismatch {
                expected: vstd::slice::slice_to_vec(expected),
                actual,
            },
        );
    }
    Ok(())
}

/// The transactions that are not privileged.
pub open spec fn non_privileged(transactions: Seq<Transaction>) -> Seq<Transaction> {
    transactions.filter(|tx: Transaction| !tx.privileged)
}

/// The number of transactions of the block that are not privileged.
pub fn non_privileged_transaction_count(block: &Block) -> (n: usize)
    ensures
        n == non_privileged(block.body.transactions@).len(),
        n <= block.body.transactions@.len(),
{
    let mut n: usize = 0;
    let mut i: usize = 0;
    while i < block.body.transactions.len()
        invariant
            i <= block.body.transactions.len(),
            n <= i,
            n == non_privileged(block.body.transactions@.take(i as int)).len(),
        decreases block.body.transactions.len() - i,
    {
        proof {
            reveal_with_fuel(Seq::filter, 1);
            let done = block.body.transactions@.take(i + 1);
            assert(done.drop_last() =~= block.body.transactions@.take(i as int));
            assert(done.last() == block.body.transactions@[i as int]);
        }
        if !block.body.transactions[i].privileged {
            n = n + 1;
        }
        i = i + 1;
    }
    assert(block.body.transactions@.take(i as int) =~= block.body.transactions@);
    n
}

/// The hashes in hexadecimal notation, separated by commas.
pub open spec fn hash_list_text(hashes: Seq<H256>) -> Seq<char>
    decreases hashes.len(),
{
    if hashes.len() == 0 {
        Seq::empty()
    } else if hashes.len() == 1 {
        "0x"@ + hex(hashes[0]@)
    } else {
        hash_list_text(hashes.drop_last()) + ", "@ + "0x"@ + hex(hashes.last()@)
    }
}

/// Appends the hashes in brackets.
fn push_hash_list(s: &mut String, hashes: &[H256])
    ensures
        final(s)@ == old(s)@ + "["@ + hash_list_text(hashes@) + "]"@,
{
    push_text(s, "[");
    let mut i: usize = 0;
    while i < hashes.len()
        invariant
            i <= hashes.len(),
            s@ == old(s)@ + "["@ + hash_list_text(hashes@.take(i as int)),
        decreases hashes.len() - i,
    {
        if i > 0 {
            push_text(s, ", ");
        }
        push_hex(s, hashes[i].0.as_slice());
        i = i + 1;
        proof {
            let done = hashes@.take(i as int);
            assert(done.drop_last() =~= hashes@.take(i - 1));
            assert(done.last() == hashes@[i - 1]);
            assert(s@ =~= old(s)@ + "["@ + hash_list_text(done));
        }
    }
    assert(hashes@.take(i as int) =~= hashes@);
    push_text(s, "]");
}

impl ExecutionPayloadValidationError {
    /// The text of the error.
    pub open spec fn text(self) -> Seq<char> {
        match self {
            ExecutionPayloadValidationError::MissingField { field } => "missing field `"@ + field@
                + "` in execution payload"@,
            ExecutionPayloadValidationError::UnexpectedField { field } => "unexpected field `"@
                + field@ + "` in execution payload"@,
            ExecutionPayloadValidationError::BlockHashMismatch { expected, actual } => 
                "block hash mismatch: expected "@ + "0x"@ + hex(expected@) + ", got "@ + "0x"@ + hex(
                actual@,
            ),
            ExecutionPayloadValidationError::BlobVersionedHashesMismatch { expected, actual } => 
                "blob versioned hashes mismatch: expected "@ + "["@ + hash_list_text(expected@)
                + "]"@ + ", got "@ + "["@ + hash_list_text(actual@) + "]"@,
        }
    }

    /// The error as a message.
    pub fn message(&self) -> (message: String)
        ensures
            message@ == self.text(),
    {
        match self {
            ExecutionPayloadValidationError::MissingField { field } => {
                let mut s = "missing field `".to_owned();
                push_text(&mut s, *field);
                push_text(&mut s, "` in execution payload");
                s
            },
            ExecutionPayloadValidationError::UnexpectedField { field } => {
                let mut s = "unexpected field `".to_owned();
                push_text(&mut s, *field);
                push_text(&mut s, "` in execution payload");
                s
            },
            ExecutionPayloadValidationError::BlockHashMismatch { expected, actual } => {
                let mut s = "block hash mismatch: expected ".to_owned();
                push_hex(&mut s, expected.0.as_slice());
                push_text(&mut s, ", got ");
                push_hex(&mut s, actual.0.as_slice());
                s
            },
            ExecutionPayloadValidationError::BlobVersionedHashesMismatch { expected, actual } => {
                let mut s = "blob versioned hashes mismatch: expected ".to_owned();
                push_hash_list(&mut s, expected.as_slice());
                push_text(&mut s, ", got ");
                push_hash_list(&mut s, actual.as_slice());
                s
            },
        }
    }
}

/// Whether a payload is one of version 1, 2 or 3 can be told from its fields: it passes the check
/// of at most one of these versions.
pub proof fn payload_versions_exclude_each_other(payload: ExecutionPayload)
    ensures
        fields_complaint(payload, false, false) is None ==> fields_complaint(payload, true, false)
            is Some,
        fields_complaint(payload, false, false) is None ==> fields_complaint(payload, true, true)
            is Some,
        fields_complaint(payload, true, false) is None ==> fields_complaint(payload, true, true)
            is Some,
{
}

/// `decode` reads `tx` from its canonical encoding.
pub open spec fn decodes_back<E, D: Fn(&Vec<u8>) -> Result<Transaction, E>>(
    decode: D,
    tx: Transaction,
) -> bool {
    forall|bytes: Vec<u8>, decoded: Result<Transaction, E>|
        bytes@ == tx.canonical@ && #[trigger] decode.ensures((&bytes,), decoded) ==> decoded == Ok::<
            Transaction,
            E,
        >(tx)
}

/// An encoded transaction is read back, provided that `decode` reads it from its canonical
/// encoding.
pub proof fn transaction_survives_encoding<E, D: Fn(&Vec<u8>) -> Result<Transaction, E>>(
    tx: Transaction,
    encoded: EncodedTransaction,
    decode: D,
    r: Result<Transaction, E>,
)
    requires
        encoded.0@ == tx.canonical@,
        decode.ensures((&encoded.0,), r),
        decodes_back(decode, tx),
    ensures
        r == Ok::<Transaction, E>(tx),
{
}

/// A block that has the form of a payload's block comes back unchanged when its payload is turned
/// into a block again, provided that every transaction is read back from its canonical encoding
/// and that the roots are those of the body. The payload carries the hash of the block.
pub proof fn payload_round_trip<
    E,
    D: Fn(&Vec<u8>) -> Result<Transaction, E>,
    R: Fn(&Vec<Transaction>) -> H256,
    S: Fn(&Vec<Withdrawal>) -> H256,
>(
    block: Block,
    payload: ExecutionPayload,
    again: Result<Block, E>,
    block_hash: H256,
    block_access_list: Option<Vec<u8>>,
    decode: D,
    transactions_root: R,
    withdrawals_root: S,
)
    requires
        is_payload_of(payload, block, block_hash, block_access_list),
        block_result(
            again,
            payload,
            block.header.parent_beacon_block_root,
            block.header.requests_hash,
            block.header.block_access_list_hash,
            decode,
            transactions_root,
            withdrawals_root,
        ),
        forall|i: int|
            0 <= i < block.body.transactions@.len() ==> decodes_back(
                decode,
                #[trigger] block.body.transactions@[i],
            ),
        block.body.ommers@.len() == 0,
        block.header.ommers_hash@ == no_ommers_hash(),
        block.header.difficulty == (U256 { high: 0, low: 0 }),
        block.header.nonce == 0,
        block.header.base_fee_per_gas is Some,
        forall|txs: Vec<Transaction>, root: H256|
            txs@ == block.body.transactions@ && #[trigger] transactions_root.ensures((&txs,), root)
                ==> root == block.header.transactions_root,
        match (block.body.withdrawals, block.header.withdrawals_root) {
            (Some(ws), Some(root)) => forall|computed: H256| #[trigger]
                withdrawals_root.ensures((&ws,), computed) ==> computed == root,
            (None, None) => true,
            _ => false,
        },
    ensures
        again matches Ok(b) && {
            &&& b.header == block.header
            &&& b.body.transactions@ == block.body.transactions@
            &&& b.body.ommers@ == block.body.ommers@
            &&& b.body.withdrawals == block.body.withdrawals
        },
        payload.block_hash == block_hash,
{
    match again {
        Ok(b) => {
            assert forall|i: int|
                0 <= i < b.body.transactions@.len() implies b.body.transactions@[i]
                == block.body.transactions@[i] by {
                assert(decodes_back(decode, block.body.transactions@[i]));
                assert(decode.ensures(
                    (&payload.transactions@[i].0,),
                    Ok(b.body.transactions@[i]),
                ));
            }
            assert(b.body.transactions@ =~= block.body.transactions@);
            assert(b.body.ommers@ =~= block.body.ommers@);
            assert(b.header.ommers_hash.0 =~= block.header.ommers_hash.0) by {
                assert(b.header.ommers_hash@ == block.header.ommers_hash@);
            }
        },
        Err(e) => {
            let before = choose|before: Seq<Transaction>|
                {
                    &&& before.len() < payload.transactions@.len()
                    &&& #[trigger] transactions_decode(payload.transactions@, decode, before)
                    &&& decode.ensures(
                        (&payload.transactions@[before.len() as int].0,),
                        Err(e),
                    )
                };
            let i = before.len() as int;
            assert(decodes_back(decode, block.body.transactions@[i]));
            assert(decode.ensures((&payload.transactions@[i].0,), Err::<Transaction, E>(e)));
        },
    }
}

/// A payload comes back unchanged when its block is turned into a payload again, provided that
/// the canonical encoding of a decoded transaction is what it was decoded from.
pub proof fn block_round_trip<
    E,
    D: Fn(&Vec<u8>) -> Result<Transaction, E>,
    R: Fn(&Vec<Transaction>) -> H256,
    S: Fn(&Vec<Withdrawal>) -> H256,
>(
    payload: ExecutionPayload,
    block: Block,
    again: ExecutionPayload,
    parent_beacon_block_root: Option<H256>,
    requests_hash: Option<H256>,
    block_access_list_hash: Option<H256>,
    decode: D,
    transactions_root: R,
    withdrawals_root: S,
)
    requires
        is_block_of(
            block,
            payload,
            parent_beacon_block_root,
            requests_hash,
            block_access_list_hash,
            decode,
            transactions_root,
            withdrawals_root,
        ),
        is_payload_of(again, block, payload.block_hash, payload.block_access_list),
        forall|bytes: Vec<u8>, tx: Transaction| #[trigger]
            decode.ensures((&bytes,), Ok(tx)) ==> tx.canonical@ == bytes@,
    ensures
        again.transactions@.len() == payload.transactions@.len(),
        forall|i: int|
            0 <= i < payload.transactions@.len() ==> (#[trigger] again.transactions@[i]).0@
                == payload.transactions@[i].0@,
        again == (ExecutionPayload { transactions: again.transactions, ..payload }),
{
    assert forall|i: int| 0 <= i < payload.transactions@.len() implies (
    #[trigger] again.transactions@[i]).0@ == payload.transactions@[i].0@ by {
        assert(decode.ensures(
            (&payload.transactions@[i].0,),
            Ok(block.body.transactions@[i]),
        ));
    }
}

} // verus!
