//! What a reader finds in the encodings: bytes, and where they stand.

use crate::artifact::{
    artifact_hashes, chunk_commitment_hash, CanonicalChunkArtifact, CanonicalObservedAddress,
    CanonicalObservedStorageAccess, ChunkProgramOutput,
};
use crate::hash::keccak256;
use crate::primitives::{Address, H256};
use crate::range::ChunkRange;
use crate::rlp::{
    be_bytes, be_bytes_bounds, concat, item_encodings, rlp_list, rlp_string, RLPEncode,
};
use crate::summary::TxExecutionSummary;
use vstd::prelude::*;

verus! {

/// The number that some bytes stand for, the most significant byte first.
pub open spec fn big_endian(bytes: Seq<u8>) -> int {
    bytes.fold_left(0int, |value: int, byte: u8| value * 256 + byte)
}

/// A reader of `bytes` finds one item of the kind `base` (`0x80` for a string, `0xc0` for a list)
/// with this content: a first byte that gives kind and length, or kind and length of the length; in
/// the latter case the length, without a leading zero; and then the content.
pub open spec fn reads_as(bytes: Seq<u8>, base: int, content: Seq<u8>) -> bool {
    &&& bytes.len() > 0
    &&& if content.len() < 56 {
        &&& bytes[0] == base + content.len()
        &&& bytes.skip(1) == content
    } else {
        let k = bytes[0] - base - 55;
        &&& 1 <= k <= 8
        &&& bytes.len() == 1 + k + content.len()
        &&& bytes[1] != 0
        &&& big_endian(bytes.subrange(1, 1 + k)) == content.len()
        &&& bytes.skip(1 + k) == content
    }
}

/// The bytes of a number stand for it, and the first one is not zero; zero has none.
pub proof fn number_is_read_back(n: nat)
    ensures
        big_endian(be_bytes(n)) == n,
        n == 0 <==> be_bytes(n).len() == 0,
        n > 0 ==> be_bytes(n)[0] != 0,
    decreases n,
{
    be_bytes_bounds(n);
    let f = |value: int, byte: u8| value * 256 + byte;
    if n > 0 {
        number_is_read_back(n / 256);
        let bytes = be_bytes(n);
        assert(bytes.drop_last() =~= be_bytes(n / 256));
        assert(bytes.last() == (n % 256) as u8);
        assert(bytes.fold_left(0int, f) == f(bytes.drop_last().fold_left(0int, f), bytes.last()))
            by {
            reveal_with_fuel(Seq::fold_left, 2);
        }
    } else {
        reveal_with_fuel(Seq::fold_left, 2);
    }
}

/// A byte string is read back from its encoding: a single byte below `0x80` is the whole of it, and
/// any other string is an item with the string as its content.
pub proof fn string_is_read_back(content: Seq<u8>)
    requires
        content.len() <= u64::MAX,
    ensures
        content.len() == 1 && content[0] < 0x80 ==> rlp_string(content) == content,
        !(content.len() == 1 && content[0] < 0x80) ==> reads_as(
            rlp_string(content),
            0x80,
            content,
        ),
{
    let bytes = rlp_string(content);
    if !(content.len() == 1 && content[0] < 0x80) {
        if content.len() < 56 {
            assert(bytes.skip(1) =~= content);
        } else {
            number_is_read_back(content.len());
            be_bytes_bounds(content.len());
            let k = be_bytes(content.len()).len() as int;
            assert(bytes.subrange(1, 1 + k) =~= be_bytes(content.len()));
            assert(bytes.skip(1 + k) =~= content);
        }
    }
}

/// The content of a list is read back from its encoding.
pub proof fn list_is_read_back(content: Seq<u8>)
    requires
        content.len() <= u64::MAX,
    ensures
        reads_as(rlp_list(content), 0xc0, content),
{
    let bytes = rlp_list(content);
    if content.len() < 56 {
        assert(bytes.skip(1) =~= content);
    } else {
        number_is_read_back(content.len());
        be_bytes_bounds(content.len());
        let k = be_bytes(content.len()).len() as int;
        assert(bytes.subrange(1, 1 + k) =~= be_bytes(content.len()));
        assert(bytes.skip(1 + k) =~= content);
    }
}

/// A number is encoded as the string of its bytes: one below `0x80` is a single byte, zero being
/// the empty string, and a larger one is its length and its bytes without a leading zero.
pub proof fn numbers_are_read_back(n: u64)
    ensures
        n == 0 ==> n.rlp() == seq![0x80u8],
        0 < n < 0x80 ==> n.rlp() == seq![n as u8],
        n >= 0x80 ==> {
            &&& 2 <= n.rlp().len() <= 9
            &&& n.rlp()[0] == 0x80 + (n.rlp().len() - 1)
            &&& n.rlp()[1] != 0
            &&& big_endian(n.rlp().skip(1)) == n
        },
{
    number_is_read_back(n as nat);
    be_bytes_bounds(n as nat);
    string_is_read_back(be_bytes(n as nat));
    reveal_with_fuel(be_bytes, 3);
    let bytes = n.rlp();
    if n == 0 {
        assert(bytes =~= seq![0x80u8]);
    } else if n < 0x80 {
        assert(be_bytes(n as nat) =~= seq![n as u8]);
    } else {
        if be_bytes(n as nat).len() == 1 {
            assert(be_bytes(n as nat)[0] == n % 256);
        }
        assert(bytes.skip(1) == be_bytes(n as nat));
        assert(bytes[1] == bytes.skip(1)[0]);
    }
}

/// A byte is encoded as the number that it is, and a truth value as one or zero.
pub proof fn bytes_and_truth_values_are_numbers(byte: u8, truth: bool)
    ensures
        byte.rlp() == (byte as u64).rlp(),
        true.rlp() == seq![1u8],
        false.rlp() == seq![0x80u8],
{
    numbers_are_read_back(1);
    numbers_are_read_back(0);
    assert(true.rlp() == 1u64.rlp());
    assert(false.rlp() == 0u64.rlp());
}

/// A hash is its thirty-two bytes behind `0xa0`, and an address its twenty bytes behind `0x94`.
pub proof fn hashes_and_addresses_are_read_back(hash: H256, address: Address)
    ensures
        hash.rlp() == seq![0xa0u8] + hash.0@,
        address.rlp() == seq![0x94u8] + address.0@,
{
}

/// A touched address is encoded as the address, and a storage access as the list of the address and
/// the slot.
pub proof fn observations_are_read_back(
    account: CanonicalObservedAddress,
    access: CanonicalObservedStorageAccess,
)
    ensures
        account.rlp() == seq![0x94u8] + account.address.0@,
        access.rlp() == seq![0xf6u8, 0x94u8] + access.address.0@ + seq![0xa0u8] + access.slot.0@,
{
    hashes_and_addresses_are_read_back(access.slot, access.address);
    hashes_and_addresses_are_read_back(access.slot, account.address);
    assert(access.rlp() =~= seq![0xf6u8, 0x94u8] + access.address.0@ + seq![0xa0u8]
        + access.slot.0@);
}

/// A list of values is the list of their encodings, in order.
pub proof fn lists_are_read_back<T: RLPEncode>(items: Vec<T>)
    requires
        items@.map_values(|item: T| item.rlp()).flatten().len() <= u64::MAX,
    ensures
        reads_as(items.rlp(), 0xc0, items@.map_values(|item: T| item.rlp()).flatten()),
{
    items_are_flattened(items@);
    list_is_read_back(items@.map_values(|item: T| item.rlp()).flatten());
}

proof fn items_are_flattened<T: RLPEncode>(items: Seq<T>)
    ensures
        concat(item_encodings(items)) == items.map_values(|item: T| item.rlp()).flatten(),
{
    assert(item_encodings(items) =~= items.map_values(|item: T| item.rlp()));
    parts_are_flattened(item_encodings(items));
}

proof fn parts_are_flattened(parts: Seq<Seq<u8>>)
    ensures
        concat(parts) == parts.flatten(),
    decreases parts.len(),
{
    parts.lemma_flatten_and_flatten_alt_are_equivalent();
    if parts.len() > 0 {
        parts_are_flattened(parts.drop_last());
        parts.drop_last().lemma_flatten_and_flatten_alt_are_equivalent();
    }
}

/// A range is the list of its two bounds, the start first.
pub proof fn ranges_are_read_back(range: ChunkRange)
    ensures
        reads_as(range.rlp(), 0xc0, range.start_tx.rlp() + range.end_tx_exclusive.rlp()),
{
    numbers_are_read_back(range.start_tx);
    numbers_are_read_back(range.end_tx_exclusive);
    list_is_read_back(range.start_tx.rlp() + range.end_tx_exclusive.rlp());
}

/// A summary is the list of index, type, status, gas spent, gas used, state gas used and logs, in
/// this order.
pub proof fn summaries_are_read_back(summary: TxExecutionSummary)
    requires
        (summary.tx_index.rlp() + summary.tx_type.rlp() + summary.succeeded.rlp()
            + summary.gas_spent.rlp() + summary.gas_used.rlp() + summary.state_gas_used.rlp()
            + summary.logs.rlp()).len() <= u64::MAX,
    ensures
        reads_as(
            summary.rlp(),
            0xc0,
            summary.tx_index.rlp() + summary.tx_type.rlp() + summary.succeeded.rlp()
                + summary.gas_spent.rlp() + summary.gas_used.rlp() + summary.state_gas_used.rlp()
                + summary.logs.rlp(),
        ),
{
    list_is_read_back(
        summary.tx_index.rlp() + summary.tx_type.rlp() + summary.succeeded.rlp()
            + summary.gas_spent.rlp() + summary.gas_used.rlp() + summary.state_gas_used.rlp()
            + summary.logs.rlp(),
    );
}

/// An artifact is the list of block hash, block access list hash, range, summaries, touched
/// addresses and storage accesses, in this order.
pub proof fn artifacts_are_read_back(artifact: CanonicalChunkArtifact)
    requires
        (artifact.block_hash.rlp() + artifact.bal_hash.rlp() + artifact.range.rlp()
            + artifact.tx_summaries.rlp() + artifact.observed_touched_addresses.rlp()
            + artifact.observed_storage_accesses.rlp()).len() <= u64::MAX,
    ensures
        reads_as(
            artifact.rlp(),
            0xc0,
            artifact.block_hash.rlp() + artifact.bal_hash.rlp() + artifact.range.rlp()
                + artifact.tx_summaries.rlp() + artifact.observed_touched_addresses.rlp()
                + artifact.observed_storage_accesses.rlp(),
        ),
{
    list_is_read_back(
        artifact.block_hash.rlp() + artifact.bal_hash.rlp() + artifact.range.rlp()
            + artifact.tx_summaries.rlp() + artifact.observed_touched_addresses.rlp()
            + artifact.observed_storage_accesses.rlp(),
    );
}

/// An output is the list of its artifact and the hash of the artifact.
pub proof fn outputs_are_read_back(output: ChunkProgramOutput, bytes: Vec<u8>)
    requires
        (output.artifact.rlp() + output.artifact_hash.rlp()).len() <= u64::MAX,
        call_ensures(ChunkProgramOutput::encode, (&output,), bytes),
    ensures
        reads_as(output.rlp(), 0xc0, output.artifact.rlp() + output.artifact_hash.rlp()),
        reads_as(bytes@, 0xc0, output.artifact.rlp() + output.artifact_hash.rlp()),
{
    list_is_read_back(output.artifact.rlp() + output.artifact_hash.rlp());
}

/// The hash of an artifact is the Keccak-256 hash of its encoding, and the output that is made of
/// an artifact holds the artifact and that hash.
pub proof fn outputs_carry_the_hash_of_their_artifact(
    artifact: CanonicalChunkArtifact,
    hash: H256,
    output: ChunkProgramOutput,
)
    ensures
        call_ensures(CanonicalChunkArtifact::compute_hash, (&artifact,), hash) ==> hash.0@
            == keccak256(artifact.rlp()),
        call_ensures(ChunkProgramOutput::new, (artifact,), output) ==> {
            &&& output.artifact == artifact
            &&& output.artifact_hash.0@ == keccak256(artifact.rlp())
        },
{
}

/// The chunks of a block are committed to by the Keccak-256 hash of the list of their artifact
/// hashes, in order: each is its thirty-two bytes behind `0xa0`.
pub proof fn commitment_is_that_of_the_artifact_hashes(
    outputs: &[ChunkProgramOutput],
    hash: H256,
) -> (bytes: Seq<u8>)
    requires
        call_ensures(chunk_commitment_hash, (outputs,), hash),
        outputs@.map_values(
            |o: ChunkProgramOutput| seq![0xa0u8] + o.artifact_hash.0@,
        ).flatten().len() <= u64::MAX,
    ensures
        hash.0@ == keccak256(bytes),
        reads_as(
            bytes,
            0xc0,
            outputs@.map_values(
                |o: ChunkProgramOutput| seq![0xa0u8] + o.artifact_hash.0@,
            ).flatten(),
        ),
{
    let parts = item_encodings(artifact_hashes(outputs@));
    let inline = outputs@.map_values(|o: ChunkProgramOutput| seq![0xa0u8] + o.artifact_hash.0@);
    assert forall|i: int| 0 <= i < parts.len() implies parts[i] == inline[i] by {
        hashes_and_addresses_are_read_back(outputs@[i].artifact_hash, arbitrary());
    }
    assert(parts =~= inline);
    parts_are_flattened(parts);
    list_is_read_back(inline.flatten());
    rlp_list(inline.flatten())
}

} // verus!
