//! Laws of the artifact encoding: the bytes that are hashed determine the artifact.

use crate::artifact::{
    artifact_hashes, summary_contents, CanonicalChunkArtifact, CanonicalObservedAddress,
    CanonicalObservedStorageAccess, ChunkProgramOutput,
};
use crate::primitives::{Address, H256};
use crate::range::ChunkRange;
use crate::rlp::{
    be_bytes, be_bytes_bounds, concat, item_encodings, rlp_header, rlp_list, rlp_string, rlp_uint,
    RLPEncode,
};
use crate::rlp_laws::{
    be_bytes_is_injective, is_item, item_is_self_delimiting, items_are_readable, length_limit,
    list_is_readable, string_is_readable,
};
use crate::summary::TxExecutionSummary;
use vstd::prelude::*;

verus! {

/// A number can be read back from its encoding, whatever follows it.
pub proof fn uint_is_readable(a: u64, x: Seq<u8>, b: u64, y: Seq<u8>)
    requires
        rlp_uint(a as nat) + x == rlp_uint(b as nat) + y,
    ensures
        a == b,
        x == y,
{
    be_bytes_bounds(a as nat);
    be_bytes_bounds(b as nat);
    string_is_readable(be_bytes(a as nat), x, be_bytes(b as nat), y);
    be_bytes_is_injective(a as nat, b as nat);
}

proof fn uint_is_item(n: u64)
    ensures
        is_item(rlp_uint(n as nat)),
{
    be_bytes_bounds(n as nat);
    assert(rlp_uint(n as nat) == rlp_string(be_bytes(n as nat)));
}

proof fn fixed_bytes_are_item(bytes: Seq<u8>)
    requires
        bytes.len() < length_limit(),
    ensures
        is_item(rlp_string(bytes)),
{
}

proof fn list_of_is_item(content: Seq<u8>)
    requires
        rlp_list(content).len() < length_limit(),
    ensures
        is_item(rlp_list(content)),
        content.len() < length_limit(),
{
    assert(rlp_list(content).len() >= content.len());
}

proof fn part_is_shorter(parts: Seq<Seq<u8>>, i: int)
    requires
        0 <= i < parts.len(),
    ensures
        parts[i].len() <= concat(parts).len(),
    decreases parts.len(),
{
    if i < parts.len() - 1 {
        part_is_shorter(parts.drop_last(), i);
    }
}

/// The item encodings of a vector can be read back from its encoding, whatever follows it.
proof fn vec_is_readable<T: RLPEncode>(a: Vec<T>, x: Seq<u8>, b: Vec<T>, y: Seq<u8>)
    requires
        a.rlp() + x == b.rlp() + y,
        a.rlp().len() < length_limit(),
        b.rlp().len() < length_limit(),
        forall|i: int| 0 <= i < a@.len() ==> is_item(#[trigger] item_encodings(a@)[i]),
        forall|i: int| 0 <= i < b@.len() ==> is_item(#[trigger] item_encodings(b@)[i]),
    ensures
        a@.len() == b@.len(),
        forall|i: int| 0 <= i < a@.len() ==> (#[trigger] a@[i]).rlp() == b@[i].rlp(),
        x == y,
{
    let p = item_encodings(a@);
    let q = item_encodings(b@);
    list_of_is_item(concat(p));
    list_of_is_item(concat(q));
    list_is_readable(concat(p), x, concat(q), y);
    items_are_readable(p, q);
    assert forall|i: int| 0 <= i < a@.len() implies (#[trigger] a@[i]).rlp() == b@[i].rlp() by {
        assert(p[i] == q[i]);
    }
}

proof fn vec_item_is_shorter<T: RLPEncode>(a: Vec<T>, i: int)
    requires
        0 <= i < a@.len(),
    ensures
        a@[i].rlp().len() <= a.rlp().len(),
{
    part_is_shorter(item_encodings(a@), i);
    assert(item_encodings(a@)[i] == a@[i].rlp());
}

/// A byte vector can be read back from its encoding, whatever follows it.
proof fn bytes_are_readable(a: Vec<u8>, x: Seq<u8>, b: Vec<u8>, y: Seq<u8>)
    requires
        a.rlp() + x == b.rlp() + y,
        a.rlp().len() < length_limit(),
        b.rlp().len() < length_limit(),
    ensures
        a@ == b@,
        x == y,
{
    assert forall|i: int| 0 <= i < a@.len() implies is_item(
        #[trigger] item_encodings(a@)[i],
    ) by {
        uint_is_item(a@[i] as u64);
    }
    assert forall|i: int| 0 <= i < b@.len() implies is_item(
        #[trigger] item_encodings(b@)[i],
    ) by {
        uint_is_item(b@[i] as u64);
    }
    vec_is_readable(a, x, b, y);
    assert forall|i: int| 0 <= i < a@.len() implies a@[i] == b@[i] by {
        assert(a@[i].rlp() == b@[i].rlp());
        let none = Seq::<u8>::empty();
        uint_is_readable(a@[i] as u64, none, b@[i] as u64, none);
    }
    assert(a@ =~= b@);
}

/// The logs of a summary can be read back from their encoding.
proof fn logs_are_readable(a: Vec<Vec<u8>>, x: Seq<u8>, b: Vec<Vec<u8>>, y: Seq<u8>)
    requires
        a.rlp() + x == b.rlp() + y,
        a.rlp().len() < length_limit(),
        b.rlp().len() < length_limit(),
    ensures
        a@.len() == b@.len(),
        forall|i: int| 0 <= i < a@.len() ==> (#[trigger] a@[i])@ == b@[i]@,
        x == y,
{
    assert forall|i: int| 0 <= i < a@.len() implies is_item(
        #[trigger] item_encodings(a@)[i],
    ) by {
        vec_item_is_shorter(a, i);
        list_of_is_item(concat(item_encodings(a@[i]@)));
    }
    assert forall|i: int| 0 <= i < b@.len() implies is_item(
        #[trigger] item_encodings(b@)[i],
    ) by {
        vec_item_is_shorter(b, i);
        list_of_is_item(concat(item_encodings(b@[i]@)));
    }
    vec_is_readable(a, x, b, y);
    assert forall|i: int| 0 <= i < a@.len() implies (#[trigger] a@[i])@ == b@[i]@ by {
        assert(a@[i].rlp() == b@[i].rlp());
        vec_item_is_shorter(a, i);
        vec_item_is_shorter(b, i);
        let none = Seq::<u8>::empty();
        bytes_are_readable(a@[i], none, b@[i], none);
    }
}

/// A range can be read back from its encoding.
pub proof fn range_encoding_is_injective(a: ChunkRange, b: ChunkRange)
    requires
        a.rlp() == b.rlp(),
    ensures
        a == b,
{
    range_fits(a);
    range_fits(b);
    let p = a.start_tx.rlp() + a.end_tx_exclusive.rlp();
    let q = b.start_tx.rlp() + b.end_tx_exclusive.rlp();
    let none = Seq::<u8>::empty();
    assert(rlp_list(p) + none =~= rlp_list(p));
    assert(rlp_list(q) + none =~= rlp_list(q));
    list_is_readable(p, none, q, none);
    uint_is_readable(a.start_tx, a.end_tx_exclusive.rlp(), b.start_tx, b.end_tx_exclusive.rlp());
    assert(a.end_tx_exclusive.rlp() + none =~= a.end_tx_exclusive.rlp());
    assert(b.end_tx_exclusive.rlp() + none =~= b.end_tx_exclusive.rlp());
    uint_is_readable(a.end_tx_exclusive, none, b.end_tx_exclusive, none);
}

proof fn range_fits(a: ChunkRange)
    ensures
        a.start_tx.rlp().len() <= 9,
        a.end_tx_exclusive.rlp().len() <= 9,
        a.rlp().len() < length_limit(),
        is_item(a.rlp()),
{
    be_bytes_bounds(a.start_tx as nat);
    be_bytes_bounds(a.end_tx_exclusive as nat);
    let p = a.start_tx.rlp() + a.end_tx_exclusive.rlp();
    assert(rlp_header(0xc0, p.len()).len() == 1);
    list_of_is_item(p);
}

/// A concatenation can be bracketed from either side.
proof fn regroup(
    f0: Seq<u8>,
    f1: Seq<u8>,
    f2: Seq<u8>,
    f3: Seq<u8>,
    f4: Seq<u8>,
    f5: Seq<u8>,
    f6: Seq<u8>,
)
    ensures
        f0 + f1 + f2 + f3 + f4 + f5 + f6 == f0 + (f1 + (f2 + (f3 + (f4 + (f5 + f6))))),
{
    assert(f0 + f1 + f2 + f3 + f4 + f5 + f6 =~= f0 + (f1 + (f2 + (f3 + (f4 + (f5 + f6))))));
}

/// Two summaries with the same encoding have the same content.
pub proof fn summary_encoding_is_injective(a: TxExecutionSummary, b: TxExecutionSummary)
    requires
        a.rlp() == b.rlp(),
        a.rlp().len() < length_limit(),
    ensures
        a@ == b@,
{
    let none = Seq::<u8>::empty();
    let a6 = a.logs.rlp();
    let a5 = a.state_gas_used.rlp() + a6;
    let a4 = a.gas_used.rlp() + a5;
    let a3 = a.gas_spent.rlp() + a4;
    let a2 = a.succeeded.rlp() + a3;
    let a1 = a.tx_type.rlp() + a2;
    let a0 = a.tx_index.rlp() + a1;
    let b6 = b.logs.rlp();
    let b5 = b.state_gas_used.rlp() + b6;
    let b4 = b.gas_used.rlp() + b5;
    let b3 = b.gas_spent.rlp() + b4;
    let b2 = b.succeeded.rlp() + b3;
    let b1 = b.tx_type.rlp() + b2;
    let b0 = b.tx_index.rlp() + b1;
    regroup(
        a.tx_index.rlp(),
        a.tx_type.rlp(),
        a.succeeded.rlp(),
        a.gas_spent.rlp(),
        a.gas_used.rlp(),
        a.state_gas_used.rlp(),
        a6,
    );
    regroup(
        b.tx_index.rlp(),
        b.tx_type.rlp(),
        b.succeeded.rlp(),
        b.gas_spent.rlp(),
        b.gas_used.rlp(),
        b.state_gas_used.rlp(),
        b6,
    );
    assert(a.rlp() == rlp_list(a0));
    assert(b.rlp() == rlp_list(b0));
    list_of_is_item(a0);
    list_of_is_item(b0);
    assert(rlp_list(a0) + none =~= rlp_list(a0));
    assert(rlp_list(b0) + none =~= rlp_list(b0));
    list_is_readable(a0, none, b0, none);
    uint_is_readable(a.tx_index, a1, b.tx_index, b1);
    uint_is_readable(a.tx_type as u64, a2, b.tx_type as u64, b2);
    uint_is_readable(
        if a.succeeded { 1 } else { 0 },
        a3,
        if b.succeeded { 1 } else { 0 },
        b3,
    );
    uint_is_readable(a.gas_spent, a4, b.gas_spent, b4);
    uint_is_readable(a.gas_used, a5, b.gas_used, b5);
    uint_is_readable(a.state_gas_used, a6, b.state_gas_used, b6);
    assert(a6 + none =~= a6);
    assert(b6 + none =~= b6);
    logs_are_readable(a.logs, none, b.logs, none);
    assert(a@.logs =~= b@.logs);
}

proof fn address_is_readable(a: Address, x: Seq<u8>, b: Address, y: Seq<u8>)
    requires
        a.rlp() + x == b.rlp() + y,
    ensures
        a == b,
        x == y,
{
    string_is_readable(a@, x, b@, y);
    assert(a.0 =~= b.0);
}

proof fn hash_is_readable(a: H256, x: Seq<u8>, b: H256, y: Seq<u8>)
    requires
        a.rlp() + x == b.rlp() + y,
    ensures
        a == b,
        x == y,
{
    string_is_readable(a@, x, b@, y);
    assert(a.0 =~= b.0);
}

proof fn access_fits(a: CanonicalObservedStorageAccess)
    ensures
        a.rlp().len() < length_limit(),
        is_item(a.rlp()),
{
    let p = a.address.rlp() + a.slot.rlp();
    assert(p.len() == 54);
    assert(rlp_header(0xc0, p.len()).len() == 1);
    list_of_is_item(p);
}

proof fn access_encoding_is_injective(
    a: CanonicalObservedStorageAccess,
    b: CanonicalObservedStorageAccess,
)
    requires
        a.rlp() == b.rlp(),
    ensures
        a == b,
{
    access_fits(a);
    access_fits(b);
    let none = Seq::<u8>::empty();
    let p = a.address.rlp() + a.slot.rlp();
    let q = b.address.rlp() + b.slot.rlp();
    assert(rlp_list(p) + none =~= rlp_list(p));
    assert(rlp_list(q) + none =~= rlp_list(q));
    list_of_is_item(p);
    list_of_is_item(q);
    list_is_readable(p, none, q, none);
    address_is_readable(a.address, a.slot.rlp(), b.address, b.slot.rlp());
    assert(a.slot.rlp() + none =~= a.slot.rlp());
    assert(b.slot.rlp() + none =~= b.slot.rlp());
    hash_is_readable(a.slot, none, b.slot, none);
}

proof fn accounts_are_readable(
    a: Vec<CanonicalObservedAddress>,
    x: Seq<u8>,
    b: Vec<CanonicalObservedAddress>,
    y: Seq<u8>,
)
    requires
        a.rlp() + x == b.rlp() + y,
        a.rlp().len() < length_limit(),
        b.rlp().len() < length_limit(),
    ensures
        a@ == b@,
        x == y,
{
    assert forall|i: int| 0 <= i < a@.len() implies is_item(
        #[trigger] item_encodings(a@)[i],
    ) by {
        fixed_bytes_are_item(a@[i].address@);
    }
    assert forall|i: int| 0 <= i < b@.len() implies is_item(
        #[trigger] item_encodings(b@)[i],
    ) by {
        fixed_bytes_are_item(b@[i].address@);
    }
    vec_is_readable(a, x, b, y);
    assert forall|i: int| 0 <= i < a@.len() implies a@[i] == b@[i] by {
        assert(a@[i].rlp() == b@[i].rlp());
        let none = Seq::<u8>::empty();
        address_is_readable(a@[i].address, none, b@[i].address, none);
    }
    assert(a@ =~= b@);
}

proof fn accesses_are_readable(
    a: Vec<CanonicalObservedStorageAccess>,
    x: Seq<u8>,
    b: Vec<CanonicalObservedStorageAccess>,
    y: Seq<u8>,
)
    requires
        a.rlp() + x == b.rlp() + y,
        a.rlp().len() < length_limit(),
        b.rlp().len() < length_limit(),
    ensures
        a@ == b@,
        x == y,
{
    assert forall|i: int| 0 <= i < a@.len() implies is_item(
        #[trigger] item_encodings(a@)[i],
    ) by {
        access_fits(a@[i]);
    }
    assert forall|i: int| 0 <= i < b@.len() implies is_item(
        #[trigger] item_encodings(b@)[i],
    ) by {
        access_fits(b@[i]);
    }
    vec_is_readable(a, x, b, y);
    assert forall|i: int| 0 <= i < a@.len() implies a@[i] == b@[i] by {
        assert(a@[i].rlp() == b@[i].rlp());
        access_encoding_is_injective(a@[i], b@[i]);
    }
    assert(a@ =~= b@);
}

proof fn summaries_are_readable(
    a: Vec<TxExecutionSummary>,
    x: Seq<u8>,
    b: Vec<TxExecutionSummary>,
    y: Seq<u8>,
)
    requires
        a.rlp() + x == b.rlp() + y,
        a.rlp().len() < length_limit(),
        b.rlp().len() < length_limit(),
    ensures
        summary_contents(a@) == summary_contents(b@),
        x == y,
{
    assert forall|i: int| 0 <= i < a@.len() implies is_item(
        #[trigger] item_encodings(a@)[i],
    ) by {
        vec_item_is_shorter(a, i);
        summary_is_item(a@[i]);
    }
    assert forall|i: int| 0 <= i < b@.len() implies is_item(
        #[trigger] item_encodings(b@)[i],
    ) by {
        vec_item_is_shorter(b, i);
        summary_is_item(b@[i]);
    }
    vec_is_readable(a, x, b, y);
    assert forall|i: int| 0 <= i < a@.len() implies (#[trigger] a@[i])@ == b@[i]@ by {
        assert(a@[i].rlp() == b@[i].rlp());
        vec_item_is_shorter(a, i);
        summary_encoding_is_injective(a@[i], b@[i]);
    }
    assert(summary_contents(a@) =~= summary_contents(b@));
}

proof fn summary_is_item(a: TxExecutionSummary)
    requires
        a.rlp().len() < length_limit(),
    ensures
        is_item(a.rlp()),
{
    list_of_is_item(
        a.tx_index.rlp() + a.tx_type.rlp() + a.succeeded.rlp() + a.gas_spent.rlp()
            + a.gas_used.rlp() + a.state_gas_used.rlp() + a.logs.rlp(),
    );
}

/// Two artifacts with the same encoding have the same content, so that equal artifact hashes of
/// different artifacts would be a collision of the hash function itself.
pub proof fn artifact_encoding_is_injective(a: CanonicalChunkArtifact, b: CanonicalChunkArtifact)
    requires
        a.rlp() == b.rlp(),
        a.rlp().len() < length_limit(),
    ensures
        a@ == b@,
{
    let none = Seq::<u8>::empty();
    let a5 = a.observed_storage_accesses.rlp();
    let a4 = a.observed_touched_addresses.rlp() + a5;
    let a3 = a.tx_summaries.rlp() + a4;
    let a2 = a.range.rlp() + a3;
    let a1 = a.bal_hash.rlp() + a2;
    let a0 = a.block_hash.rlp() + a1;
    let b5 = b.observed_storage_accesses.rlp();
    let b4 = b.observed_touched_addresses.rlp() + b5;
    let b3 = b.tx_summaries.rlp() + b4;
    let b2 = b.range.rlp() + b3;
    let b1 = b.bal_hash.rlp() + b2;
    let b0 = b.block_hash.rlp() + b1;
    let empty = Seq::<u8>::empty();
    regroup(
        empty,
        a.block_hash.rlp(),
        a.bal_hash.rlp(),
        a.range.rlp(),
        a.tx_summaries.rlp(),
        a.observed_touched_addresses.rlp(),
        a5,
    );
    regroup(
        empty,
        b.block_hash.rlp(),
        b.bal_hash.rlp(),
        b.range.rlp(),
        b.tx_summaries.rlp(),
        b.observed_touched_addresses.rlp(),
        b5,
    );
    assert(empty + a.block_hash.rlp() =~= a.block_hash.rlp());
    assert(empty + b.block_hash.rlp() =~= b.block_hash.rlp());
    assert(empty + a0 =~= a0);
    assert(empty + b0 =~= b0);
    assert(a.rlp() == rlp_list(a0));
    assert(b.rlp() == rlp_list(b0));
    list_of_is_item(a0);
    list_of_is_item(b0);
    assert(rlp_list(a0) + none =~= rlp_list(a0));
    assert(rlp_list(b0) + none =~= rlp_list(b0));
    list_is_readable(a0, none, b0, none);
    hash_is_readable(a.block_hash, a1, b.block_hash, b1);
    hash_is_readable(a.bal_hash, a2, b.bal_hash, b2);
    range_fits(a.range);
    range_fits(b.range);
    item_is_self_delimiting(a.range.rlp(), a3, b.range.rlp(), b3);
    range_encoding_is_injective(a.range, b.range);
    summaries_are_readable(a.tx_summaries, a4, b.tx_summaries, b4);
    accounts_are_readable(
        a.observed_touched_addresses,
        a5,
        b.observed_touched_addresses,
        b5,
    );
    assert(a5 + none =~= a5);
    assert(b5 + none =~= b5);
    accesses_are_readable(a.observed_storage_accesses, none, b.observed_storage_accesses, none);
}

/// Two outputs with the same encoding have the same content.
pub proof fn output_encoding_is_injective(a: ChunkProgramOutput, b: ChunkProgramOutput)
    requires
        a.rlp() == b.rlp(),
        a.rlp().len() < length_limit(),
    ensures
        a@ == b@,
{
    let none = Seq::<u8>::empty();
    let p = a.artifact.rlp() + a.artifact_hash.rlp();
    let q = b.artifact.rlp() + b.artifact_hash.rlp();
    list_of_is_item(p);
    list_of_is_item(q);
    assert(rlp_list(p) + none =~= rlp_list(p));
    assert(rlp_list(q) + none =~= rlp_list(q));
    list_is_readable(p, none, q, none);
    artifact_is_item(a.artifact);
    artifact_is_item(b.artifact);
    item_is_self_delimiting(
        a.artifact.rlp(),
        a.artifact_hash.rlp(),
        b.artifact.rlp(),
        b.artifact_hash.rlp(),
    );
    artifact_encoding_is_injective(a.artifact, b.artifact);
    assert(a.artifact_hash.rlp() + none =~= a.artifact_hash.rlp());
    assert(b.artifact_hash.rlp() + none =~= b.artifact_hash.rlp());
    hash_is_readable(a.artifact_hash, none, b.artifact_hash, none);
}

proof fn artifact_is_item(a: CanonicalChunkArtifact)
    requires
        a.rlp().len() < length_limit(),
    ensures
        is_item(a.rlp()),
{
    list_of_is_item(
        a.block_hash.rlp() + a.bal_hash.rlp() + a.range.rlp() + a.tx_summaries.rlp()
            + a.observed_touched_addresses.rlp() + a.observed_storage_accesses.rlp(),
    );
}

/// Summaries with the same content have the same encoding.
pub proof fn summary_content_determines_encoding(a: TxExecutionSummary, b: TxExecutionSummary)
    requires
        a@ == b@,
    ensures
        a.rlp() == b.rlp(),
{
    assert(a.logs@.len() == a@.logs.len());
    assert(b.logs@.len() == b@.logs.len());
    assert forall|i: int| 0 <= i < a.logs@.len() implies item_encodings(a.logs@)[i]
        == item_encodings(b.logs@)[i] by {
        assert(a.logs@[i]@ == a@.logs[i]);
        assert(b.logs@[i]@ == b@.logs[i]);
    }
    assert(item_encodings(a.logs@) =~= item_encodings(b.logs@));
}

/// Artifacts with the same content have the same encoding, and so the same hash.
pub proof fn artifact_content_determines_encoding(
    a: CanonicalChunkArtifact,
    b: CanonicalChunkArtifact,
)
    requires
        a@ == b@,
    ensures
        a.rlp() == b.rlp(),
{
    let p = item_encodings(a.tx_summaries@);
    let q = item_encodings(b.tx_summaries@);
    assert(a.tx_summaries@.len() == a@.tx_summaries.len());
    assert(b.tx_summaries@.len() == b@.tx_summaries.len());
    assert forall|i: int| 0 <= i < p.len() implies p[i] == q[i] by {
        assert(a.tx_summaries@[i]@ == a@.tx_summaries[i]);
        assert(b.tx_summaries@[i]@ == b@.tx_summaries[i]);
        summary_content_determines_encoding(a.tx_summaries@[i], b.tx_summaries@[i]);
    }
    assert(p =~= q);
}

/// What a list of hashes is encoded to determines the hashes: two lists of chunk outputs with the
/// same encoded artifact hashes have the same artifact hashes, in the same order.
pub proof fn commitment_encoding_is_injective(
    a: Seq<ChunkProgramOutput>,
    b: Seq<ChunkProgramOutput>,
)
    requires
        rlp_list(concat(item_encodings(artifact_hashes(a)))) == rlp_list(
            concat(item_encodings(artifact_hashes(b))),
        ),
        rlp_list(concat(item_encodings(artifact_hashes(a)))).len() < length_limit(),
    ensures
        artifact_hashes(a) == artifact_hashes(b),
{
    let p = item_encodings(artifact_hashes(a));
    let q = item_encodings(artifact_hashes(b));
    let none = Seq::<u8>::empty();
    list_of_is_item(concat(p));
    list_of_is_item(concat(q));
    assert(rlp_list(concat(p)) + none =~= rlp_list(concat(p)));
    assert(rlp_list(concat(q)) + none =~= rlp_list(concat(q)));
    list_is_readable(concat(p), none, concat(q), none);
    assert forall|i: int| 0 <= i < p.len() implies is_item(#[trigger] p[i]) by {
        fixed_bytes_are_item(artifact_hashes(a)[i]@);
    }
    assert forall|i: int| 0 <= i < q.len() implies is_item(#[trigger] q[i]) by {
        fixed_bytes_are_item(artifact_hashes(b)[i]@);
    }
    items_are_readable(p, q);
    assert forall|i: int| 0 <= i < a.len() implies artifact_hashes(a)[i] == artifact_hashes(
        b,
    )[i] by {
        assert(p[i] == q[i]);
        hash_is_readable(artifact_hashes(a)[i], none, artifact_hashes(b)[i], none);
    }
    assert(artifact_hashes(a) =~= artifact_hashes(b));
}

} // verus!
