//! What an accepted range, artifact or list of chunk outputs is, said in terms of indices and
//! bytes.

use crate::artifact::{
    access_before, access_ordered_at, address_ordered_at, misplaced_iff_not_following,
    CanonicalChunkArtifact, CanonicalObservedAddress, CanonicalObservedStorageAccess,
    ChunkProgramOutput,
};
use crate::coverage::{
    complains_iff_not_covered, coverage_complaint, coverage_complaint_from, covers, follows,
    validate_chunk_coverage, MergeProgramInput,
};
use crate::gather::{
    all_accessed, all_summaries, all_touched, bare_accesses, bare_addresses, check_outputs,
    output_complaint, outputs_complaint, outputs_complaint_from,
};
use crate::hash::keccak256;
use crate::laws::{ordered_accesses_increase, ordered_addresses_increase};
use crate::primitives::{agree_until, bytes_before, smaller_after, H256};
use crate::range::ChunkRange;
use crate::rlp::RLPEncode;
use crate::text::decimal;
use vstd::prelude::*;

verus! {

/// Of two byte strings, the one with the smaller byte at the first difference comes first.
pub proof fn first_difference_decides(a: Seq<u8>, b: Seq<u8>, k: int)
    requires
        0 <= k < a.len(),
        k < b.len(),
        forall|j: int| 0 <= j < k ==> a[j] == b[j],
        a[k] < b[k],
    ensures
        bytes_before(a, b),
        !bytes_before(b, a),
{
    assert(agree_until(a, b, k) && smaller_after(a, b, k));
    if bytes_before(b, a) {
        let m = choose|m: int| agree_until(b, a, m) && smaller_after(b, a, m);
        if m < k {
            assert(a[m] == b[m]);
        } else if k < m {
            assert(b[k] == a[k]);
        }
    }
}

/// A byte string comes before those that it is a proper start of, and not before itself.
pub proof fn proper_start_comes_first(a: Seq<u8>, b: Seq<u8>)
    requires
        a.len() <= b.len(),
        forall|j: int| 0 <= j < a.len() ==> a[j] == b[j],
    ensures
        bytes_before(a, b) <==> a.len() < b.len(),
        !bytes_before(b, a),
{
    if a.len() < b.len() {
        assert(agree_until(a, b, a.len() as int) && smaller_after(a, b, a.len() as int));
    }
    if bytes_before(a, b) {
        let m = choose|m: int| agree_until(a, b, m) && smaller_after(a, b, m);
        if m < a.len() {
            assert(a[m] == b[m]);
        }
    }
    if bytes_before(b, a) {
        let m = choose|m: int| agree_until(b, a, m) && smaller_after(b, a, m);
        if m < a.len() {
            assert(a[m] == b[m]);
        }
    }
}

/// The first difference of two byte strings of the same length, one of which comes first.
proof fn difference_of(a: Seq<u8>, b: Seq<u8>) -> (k: int)
    requires
        a.len() == b.len(),
        bytes_before(a, b),
    ensures
        0 <= k < a.len(),
        a[k] < b[k],
        forall|j: int| 0 <= j < k ==> a[j] == b[j],
{
    choose|k: int| agree_until(a, b, k) && smaller_after(a, b, k)
}

/// Storage accesses of one account are ordered by all bytes of their slots: the first byte in
/// which the slots differ decides.
pub proof fn slots_of_one_account_are_compared_byte_by_byte(
    a: CanonicalObservedStorageAccess,
    b: CanonicalObservedStorageAccess,
    k: int,
)
    requires
        a.address == b.address,
        0 <= k < 32,
        forall|j: int| 0 <= j < k ==> a.slot.0@[j] == b.slot.0@[j],
        a.slot.0@[k] < b.slot.0@[k],
    ensures
        access_before(a, b),
        !access_before(b, a),
{
    first_difference_decides(a.slot@, b.slot@, k);
    proper_start_comes_first(a.address@, b.address@);
}

/// Storage accesses of different accounts are ordered by all bytes of their addresses, whatever
/// the slots.
pub proof fn accounts_are_compared_before_slots(
    a: CanonicalObservedStorageAccess,
    b: CanonicalObservedStorageAccess,
    k: int,
)
    requires
        0 <= k < 20,
        forall|j: int| 0 <= j < k ==> a.address.0@[j] == b.address.0@[j],
        a.address.0@[k] < b.address.0@[k],
    ensures
        access_before(a, b),
        !access_before(b, a),
{
    first_difference_decides(a.address@, b.address@, k);
    assert(a.address@ != b.address@);
}

/// Of two different storage accesses one comes first, and none comes before itself.
pub proof fn storage_accesses_are_totally_ordered(
    a: CanonicalObservedStorageAccess,
    b: CanonicalObservedStorageAccess,
)
    ensures
        access_before(a, b) || access_before(b, a) || a == b,
        !(access_before(a, b) && access_before(b, a)),
        !access_before(a, a),
{
    proper_start_comes_first(a.address@, a.address@);
    proper_start_comes_first(a.slot@, a.slot@);
    if a.address != b.address {
        let k = some_difference(a.address@, b.address@, a.address.0 =~= b.address.0);
        if a.address@[k] < b.address@[k] {
            accounts_are_compared_before_slots(a, b, k);
        } else {
            accounts_are_compared_before_slots(b, a, k);
        }
    } else if a.slot != b.slot {
        let k = some_difference(a.slot@, b.slot@, a.slot.0 =~= b.slot.0);
        if a.slot@[k] < b.slot@[k] {
            slots_of_one_account_are_compared_byte_by_byte(a, b, k);
        } else {
            slots_of_one_account_are_compared_byte_by_byte(b, a, k);
        }
    }
}

/// The two byte strings differ first at `k`, and `a` has the smaller byte there.
pub open spec fn below_at(a: Seq<u8>, b: Seq<u8>, k: int) -> bool {
    &&& 0 <= k < a.len()
    &&& k < b.len()
    &&& a[k] < b[k]
    &&& forall|m: int| 0 <= m < k ==> a[m] == b[m]
}

/// A storage access comes before another exactly if, of the twenty bytes of the address and the
/// thirty-two bytes of the slot behind them, the first one that differs is the smaller one. Between
/// accesses of one account that is the order of the slots.
pub proof fn storage_accesses_are_ordered_by_all_bytes(
    a: CanonicalObservedStorageAccess,
    b: CanonicalObservedStorageAccess,
)
    ensures
        access_before(a, b) <==> exists|k: int| #[trigger]
            below_at(a.address.0@ + a.slot.0@, b.address.0@ + b.slot.0@, k),
        a.address == b.address ==> (access_before(a, b) <==> exists|k: int| #[trigger]
            below_at(a.slot.0@, b.slot.0@, k)),
{
    let x = a.address.0@ + a.slot.0@;
    let y = b.address.0@ + b.slot.0@;
    if access_before(a, b) {
        if bytes_before(a.address@, b.address@) {
            let k = difference_of(a.address@, b.address@);
            assert forall|m: int| 0 <= m < k implies x[m] == y[m] by {
                assert(a.address@[m] == b.address@[m]);
            }
            assert(below_at(x, y, k));
        } else {
            let k = difference_of(a.slot@, b.slot@);
            assert(below_at(a.slot.0@, b.slot.0@, k));
            assert forall|m: int| 0 <= m < 20 + k implies x[m] == y[m] by {
                if m < 20 {
                    assert(a.address@[m] == b.address@[m]);
                } else {
                    assert(a.slot@[m - 20] == b.slot@[m - 20]);
                }
            }
            assert(below_at(x, y, 20 + k));
        }
    }
    if exists|k: int| #[trigger] below_at(x, y, k) {
        let k = choose|k: int| #[trigger] below_at(x, y, k);
        if k < 20 {
            assert forall|m: int| 0 <= m < k implies a.address.0@[m] == b.address.0@[m] by {
                assert(x[m] == y[m]);
            }
            accounts_are_compared_before_slots(a, b, k);
        } else {
            assert forall|m: int| 0 <= m < 20 implies a.address.0@[m] == b.address.0@[m] by {
                assert(x[m] == y[m]);
            }
            assert(a.address.0 =~= b.address.0);
            assert forall|m: int| 0 <= m < k - 20 implies a.slot.0@[m] == b.slot.0@[m] by {
                assert(x[20 + m] == y[20 + m]);
            }
            slots_of_one_account_are_compared_byte_by_byte(a, b, k - 20);
        }
    }
    if a.address == b.address && exists|k: int| #[trigger] below_at(a.slot.0@, b.slot.0@, k) {
        let k = choose|k: int| #[trigger] below_at(a.slot.0@, b.slot.0@, k);
        slots_of_one_account_are_compared_byte_by_byte(a, b, k);
    }
}

proof fn some_difference(a: Seq<u8>, b: Seq<u8>, same: bool) -> (k: int)
    requires
        a.len() == b.len(),
        same <==> a =~= b,
        !same,
    ensures
        0 <= k < a.len(),
        a[k] != b[k],
        forall|j: int| 0 <= j < k ==> a[j] == b[j],
{
    let m = choose|m: int| 0 <= m < a.len() && a[m] != b[m];
    least_difference(a, b, m)
}

proof fn least_difference(a: Seq<u8>, b: Seq<u8>, m: int) -> (k: int)
    requires
        a.len() == b.len(),
        0 <= m < a.len(),
        a[m] != b[m],
    ensures
        0 <= k <= m,
        a[k] != b[k],
        forall|j: int| 0 <= j < k ==> a[j] == b[j],
    decreases m,
{
    if exists|j: int| 0 <= j < m && a[j] != b[j] {
        let j = choose|j: int| 0 <= j < m && a[j] != b[j];
        least_difference(a, b, j)
    } else {
        m
    }
}

/// A range is accepted exactly if, as indices, its start is below its end and its end is at most
/// the number of transactions; and what is wrong with it is said in this order.
pub proof fn accepted_ranges(range: ChunkRange, tx_count: usize)
    ensures
        range.range_complaint(tx_count) is None <==> (range.start_tx as usize) < (
        range.end_tx_exclusive as usize) && (range.end_tx_exclusive as usize) <= tx_count,
        (range.start_tx as usize) >= (range.end_tx_exclusive as usize)
            ==> range.range_complaint(tx_count) == Some("chunk range must be non-empty"@),
        (range.start_tx as usize) < (range.end_tx_exclusive as usize) && (
        range.end_tx_exclusive as usize) > tx_count ==> range.range_complaint(tx_count) == Some(
            "chunk range end "@ + decimal(range.end_tx_exclusive as nat)
                + " exceeds transaction count "@ + decimal(tx_count as nat),
        ),
{
}

/// Checking a range, an artifact or the chunks of a block answers with what is wrong, and accepts
/// exactly if nothing is.
pub proof fn checks_answer_with_the_complaint<R, W>(
    range: ChunkRange,
    artifact: CanonicalChunkArtifact,
    outputs: &[ChunkProgramOutput],
    input: MergeProgramInput<R, W>,
    block_hash: H256,
    bal_hash: H256,
    tx_count: usize,
    r: Result<(), String>,
)
    ensures
        call_ensures(ChunkRange::validate_for_tx_count, (&range, tx_count), r) ==> match r {
            Ok(_) => range.range_complaint(tx_count) is None,
            Err(text) => range.range_complaint(tx_count) == Some(text@),
        },
        call_ensures(CanonicalChunkArtifact::validate_shape, (&artifact, tx_count), r) ==> match r {
            Ok(_) => artifact.shape_complaint(tx_count) is None,
            Err(text) => artifact.shape_complaint(tx_count) == Some(text@),
        },
        call_ensures(validate_chunk_coverage, (outputs, tx_count), r) ==> match r {
            Ok(_) => coverage_complaint(outputs@, tx_count) is None,
            Err(text) => coverage_complaint(outputs@, tx_count) == Some(text@),
        },
        call_ensures(MergeProgramInput::<R, W>::validate_chunk_coverage, (&input,), r) ==> {
            let count = input.new_payload_request.execution_payload.transactions.len();
            match r {
                Ok(_) => coverage_complaint(input.chunk_outputs@, count) is None,
                Err(text) => coverage_complaint(input.chunk_outputs@, count) == Some(text@),
            }
        },
        call_ensures(check_outputs, (outputs, &block_hash, &bal_hash), r) ==> match r {
            Ok(_) => outputs_complaint(outputs@, block_hash, bal_hash) is None,
            Err(text) => outputs_complaint(outputs@, block_hash, bal_hash) == Some(text@),
        },
{
}

/// The number of transactions of a range is the distance of its bounds, and none if they are in
/// the wrong order.
pub proof fn width_is_the_distance_of_the_bounds(range: ChunkRange, n: usize)
    ensures
        call_ensures(ChunkRange::tx_count, (&range,), n) ==> n == range.width(),
        range.start_tx <= range.end_tx_exclusive && range.end_tx_exclusive - range.start_tx
            <= usize::MAX ==> range.start_tx + range.width() == range.end_tx_exclusive,
        range.start_tx > range.end_tx_exclusive ==> range.width() == 0,
{
}

/// What an accepted artifact is: a range within the block, one summary per transaction in order,
/// touched addresses in strictly increasing order, and storage accesses in strictly increasing
/// order of address and slot. The order is that of the bytes, the first difference deciding.
pub proof fn accepted_artifacts(artifact: CanonicalChunkArtifact, tx_count: usize, i: int, j: int)
    requires
        artifact.shape_complaint(tx_count) is None || call_ensures(
            CanonicalChunkArtifact::validate_shape,
            (&artifact, tx_count),
            Ok(()),
        ),
        0 <= i < j,
    ensures
        (artifact.range.start_tx as usize) < (artifact.range.end_tx_exclusive as usize),
        (artifact.range.end_tx_exclusive as usize) <= tx_count,
        artifact.range.start_tx <= usize::MAX && artifact.range.end_tx_exclusive <= usize::MAX
            ==> artifact.range.start_tx + artifact.tx_summaries@.len()
            == artifact.range.end_tx_exclusive,
        forall|k: int|
            0 <= k < artifact.tx_summaries@.len() ==> (
            #[trigger] artifact.tx_summaries@[k]).tx_index == artifact.range.start_tx + k,
        j < artifact.observed_touched_addresses@.len() ==> exists|k: int| #[trigger]
            below_at(
                artifact.observed_touched_addresses@[i].address.0@,
                artifact.observed_touched_addresses@[j].address.0@,
                k,
            ),
        j < artifact.observed_storage_accesses@.len() ==> exists|k: int| #[trigger]
            below_at(
                artifact.observed_storage_accesses@[i].address.0@
                    + artifact.observed_storage_accesses@[i].slot.0@,
                artifact.observed_storage_accesses@[j].address.0@
                    + artifact.observed_storage_accesses@[j].slot.0@,
                k,
            ),
{
    accepted_ranges(artifact.range, tx_count);
    width_is_the_distance_of_the_bounds(artifact.range, 0);
    misplaced_iff_not_following(artifact.tx_summaries@, artifact.range.start_tx, 0);
    if j < artifact.observed_touched_addresses@.len() {
        ordered_addresses_increase(artifact.observed_touched_addresses@, i, j);
        let a = artifact.observed_touched_addresses@[i].address.0@;
        let b = artifact.observed_touched_addresses@[j].address.0@;
        let k = difference_of(a, b);
        assert(below_at(a, b, k));
    }
    if j < artifact.observed_storage_accesses@.len() {
        ordered_accesses_increase(artifact.observed_storage_accesses@, i, j);
        storage_accesses_are_ordered_by_all_bytes(
            artifact.observed_storage_accesses@[i],
            artifact.observed_storage_accesses@[j],
        );
    }
}

/// No honest artifact is refused: one whose range is within the block, with one summary per
/// transaction in order, and with addresses and accesses each of which is below the next in the
/// first byte in which they differ.
pub proof fn honest_artifacts_are_accepted(artifact: CanonicalChunkArtifact, tx_count: usize)
    requires
        artifact.range.start_tx < artifact.range.end_tx_exclusive <= tx_count,
        artifact.tx_summaries@.len() == artifact.range.end_tx_exclusive - artifact.range.start_tx,
        forall|k: int|
            0 <= k < artifact.tx_summaries@.len() ==> (
            #[trigger] artifact.tx_summaries@[k]).tx_index == artifact.range.start_tx + k,
        forall|i: int|
            #![trigger artifact.observed_touched_addresses@[i]]
            0 <= i < artifact.observed_touched_addresses@.len() - 1 ==> exists|k: int| #[trigger]
                below_at(
                    artifact.observed_touched_addresses@[i].address.0@,
                    artifact.observed_touched_addresses@[i + 1].address.0@,
                    k,
                ),
        forall|i: int|
            #![trigger artifact.observed_storage_accesses@[i]]
            0 <= i < artifact.observed_storage_accesses@.len() - 1 ==> exists|k: int| #[trigger]
                below_at(
                    artifact.observed_storage_accesses@[i].address.0@
                        + artifact.observed_storage_accesses@[i].slot.0@,
                    artifact.observed_storage_accesses@[i + 1].address.0@
                        + artifact.observed_storage_accesses@[i + 1].slot.0@,
                    k,
                ),
    ensures
        artifact.shape_complaint(tx_count) is None,
{
    let accounts = artifact.observed_touched_addresses@;
    let accesses = artifact.observed_storage_accesses@;
    misplaced_iff_not_following(artifact.tx_summaries@, artifact.range.start_tx, 0);
    assert forall|j: int| 0 <= j < accounts.len() - 1 implies #[trigger] address_ordered_at(
        accounts,
        j,
    ) by {
        assert(artifact.observed_touched_addresses@[j] == accounts[j]);
        address_order_is_that_of_the_bytes(accounts, j);
    }
    assert forall|i: int| 0 <= i < accesses.len() - 1 implies #[trigger] access_ordered_at(
        accesses,
        i,
    ) by {
        assert(artifact.observed_storage_accesses@[i] == accesses[i]);
        storage_accesses_are_ordered_by_all_bytes(accesses[i], accesses[i + 1]);
    }
}

/// What is wrong with an artifact is said in this order: the range, the number of summaries, the
/// first summary out of place, the touched addresses, the storage accesses.
pub proof fn shape_complaints_come_in_order(
    artifact: CanonicalChunkArtifact,
    tx_count: usize,
    k: int,
)
    ensures
        artifact.range.range_complaint(tx_count) is Some ==> artifact.shape_complaint(tx_count)
            == artifact.range.range_complaint(tx_count),
        artifact.range.start_tx < artifact.range.end_tx_exclusive <= tx_count
            && artifact.tx_summaries@.len() != artifact.range.end_tx_exclusive
            - artifact.range.start_tx ==> artifact.shape_complaint(tx_count) == Some(
            "chunk summary count does not match range"@,
        ),
        artifact.range.start_tx < artifact.range.end_tx_exclusive <= tx_count
            && artifact.tx_summaries@.len() == artifact.range.end_tx_exclusive
            - artifact.range.start_tx && 0 <= k < artifact.tx_summaries@.len() && (forall|m: int|
            0 <= m < k ==> (#[trigger] artifact.tx_summaries@[m]).tx_index
                == artifact.range.start_tx + m) && artifact.tx_summaries@[k].tx_index
            != artifact.range.start_tx + k ==> artifact.shape_complaint(tx_count) == Some(
            "chunk summary index "@ + decimal(artifact.tx_summaries@[k].tx_index as nat)
                + " does not match expected tx index "@ + decimal(
                (artifact.range.start_tx + k) as nat,
            ),
        ),
{
    misplaced_iff_not_following(artifact.tx_summaries@, artifact.range.start_tx, 0);
}

/// Touched addresses that repeat or go back are reported, if range and summaries are as they should
/// be: two neighbours that are equal, or that differ first in a byte that is larger before.
pub proof fn disordered_addresses_are_reported(
    artifact: CanonicalChunkArtifact,
    tx_count: usize,
    i: int,
    k: int,
)
    requires
        artifact.range.start_tx < artifact.range.end_tx_exclusive <= tx_count,
        artifact.tx_summaries@.len() == artifact.range.end_tx_exclusive - artifact.range.start_tx,
        forall|m: int|
            0 <= m < artifact.tx_summaries@.len() ==> (
            #[trigger] artifact.tx_summaries@[m]).tx_index == artifact.range.start_tx + m,
        0 <= i < artifact.observed_touched_addresses@.len() - 1,
        ({
            let a = artifact.observed_touched_addresses@[i].address.0@;
            let b = artifact.observed_touched_addresses@[i + 1].address.0@;
            a == b || below_at(b, a, k)
        }),
    ensures
        artifact.shape_complaint(tx_count) == Some(
            "observed touched addresses are not strictly ordered"@,
        ),
{
    misplaced_iff_not_following(artifact.tx_summaries@, artifact.range.start_tx, 0);
    let accounts = artifact.observed_touched_addresses@;
    let a = accounts[i].address.0@;
    let b = accounts[i + 1].address.0@;
    if a == b {
        proper_start_comes_first(a, b);
    } else {
        first_difference_decides(b, a, k);
    }
    assert(!address_ordered_at(accounts, i));
}

/// Storage accesses that repeat or go back are reported, if everything before them is as it should
/// be: two neighbours that are equal in address and slot, or that differ first in a byte that is
/// larger before.
pub proof fn disordered_accesses_are_reported(
    artifact: CanonicalChunkArtifact,
    tx_count: usize,
    i: int,
    k: int,
)
    requires
        artifact.range.start_tx < artifact.range.end_tx_exclusive <= tx_count,
        artifact.tx_summaries@.len() == artifact.range.end_tx_exclusive - artifact.range.start_tx,
        forall|m: int|
            0 <= m < artifact.tx_summaries@.len() ==> (
            #[trigger] artifact.tx_summaries@[m]).tx_index == artifact.range.start_tx + m,
        forall|j: int|
            #![trigger artifact.observed_touched_addresses@[j]]
            0 <= j < artifact.observed_touched_addresses@.len() - 1 ==> exists|n: int| #[trigger]
                below_at(
                    artifact.observed_touched_addresses@[j].address.0@,
                    artifact.observed_touched_addresses@[j + 1].address.0@,
                    n,
                ),
        0 <= i < artifact.observed_storage_accesses@.len() - 1,
        ({
            let x = artifact.observed_storage_accesses@[i];
            let y = artifact.observed_storage_accesses@[i + 1];
            x == y || below_at(y.address.0@ + y.slot.0@, x.address.0@ + x.slot.0@, k)
        }),
    ensures
        artifact.shape_complaint(tx_count) == Some(
            "observed storage accesses are not strictly ordered"@,
        ),
{
    misplaced_iff_not_following(artifact.tx_summaries@, artifact.range.start_tx, 0);
    let accounts = artifact.observed_touched_addresses@;
    assert forall|j: int| 0 <= j < accounts.len() - 1 implies #[trigger] address_ordered_at(
        accounts,
        j,
    ) by {
        assert(artifact.observed_touched_addresses@[j] == accounts[j]);
        address_order_is_that_of_the_bytes(accounts, j);
    }
    let accesses = artifact.observed_storage_accesses@;
    let x = accesses[i];
    let y = accesses[i + 1];
    storage_accesses_are_totally_ordered(x, y);
    storage_accesses_are_ordered_by_all_bytes(y, x);
    assert(!access_ordered_at(accesses, i));
}

proof fn address_order_is_that_of_the_bytes(accounts: Seq<CanonicalObservedAddress>, i: int)
    requires
        exists|n: int| #[trigger]
            below_at(accounts[i].address.0@, accounts[i + 1].address.0@, n),
    ensures
        address_ordered_at(accounts, i),
{
    let a = accounts[i].address.0@;
    let b = accounts[i + 1].address.0@;
    let k = choose|k: int| #[trigger] below_at(a, b, k);
    first_difference_decides(a, b, k);
}

/// What chunk outputs that are accepted for a block are: none for a block without transactions;
/// otherwise the first starts at transaction 0, each starts where the one before it ends, the last
/// ends at the number of transactions, and each is an accepted artifact. Nothing else is refused.
pub proof fn accepted_coverage(outputs: Seq<ChunkProgramOutput>, tx_count: usize)
    ensures
        coverage_complaint(outputs, tx_count) is None <==> {
            &&& tx_count == 0 <==> outputs.len() == 0
            &&& outputs.len() > 0 ==> {
                &&& outputs[0].artifact.range.start_tx == 0
                &&& outputs[outputs.len() - 1].artifact.range.end_tx_exclusive == tx_count
            }
            &&& forall|i: int|
                0 < i < outputs.len() ==> (#[trigger] outputs[i]).artifact.range.start_tx
                    == outputs[i - 1].artifact.range.end_tx_exclusive
            &&& forall|i: int|
                0 <= i < outputs.len() ==> (#[trigger] outputs[i]).artifact.shape_complaint(
                    tx_count,
                ) is None
        },
{
    complains_iff_not_covered(outputs, tx_count);
    assert forall|i: int| 0 <= i < outputs.len() implies (
    #[trigger] outputs[i].artifact.shape_complaint(tx_count) is None
        <==> outputs[i].artifact.well_shaped(tx_count)) by {
        misplaced_iff_not_following(
            outputs[i].artifact.tx_summaries@,
            outputs[i].artifact.range.start_tx,
            0,
        );
    }
    assert forall|i: int| 0 <= i < outputs.len() implies (#[trigger] follows(outputs, i)
        <==> outputs[i].artifact.range.start_tx == if i == 0 {
        0
    } else {
        outputs[i - 1].artifact.range.end_tx_exclusive as int
    }) by {}
    if coverage_complaint(outputs, tx_count) is None {
        assert(covers(outputs, tx_count));
        assert forall|i: int| 0 <= i < outputs.len() implies (
        #[trigger] outputs[i]).artifact.shape_complaint(tx_count) is None by {
            assert(outputs[i].artifact.well_shaped(tx_count));
        }
        assert forall|i: int| 0 < i < outputs.len() implies (
        #[trigger] outputs[i]).artifact.range.start_tx == outputs[i
            - 1].artifact.range.end_tx_exclusive by {
            assert(follows(outputs, i));
        }
        if outputs.len() > 0 {
            assert(follows(outputs, 0));
            assert(outputs[0].artifact.well_shaped(tx_count));
        }
    } else if (tx_count == 0 <==> outputs.len() == 0) && outputs.len() > 0
        && outputs[0].artifact.range.start_tx == 0 && outputs[outputs.len()
        - 1].artifact.range.end_tx_exclusive == tx_count && (forall|i: int|
        0 < i < outputs.len() ==> (#[trigger] outputs[i]).artifact.range.start_tx == outputs[i
            - 1].artifact.range.end_tx_exclusive) && (forall|i: int|
        0 <= i < outputs.len() ==> (#[trigger] outputs[i]).artifact.shape_complaint(tx_count)
            is None) {
        assert forall|i: int| 0 <= i < outputs.len() implies (
        #[trigger] outputs[i]).artifact.well_shaped(tx_count) by {
            assert(outputs[i].artifact.shape_complaint(tx_count) is None);
        }
        assert forall|i: int| 0 <= i < outputs.len() implies #[trigger] follows(outputs, i) by {
            assert(outputs[i].artifact.shape_complaint(tx_count) is None);
        }
        assert(covers(outputs, tx_count));
    }
}

/// What is wrong with the chunks of a block is said in this order: chunks where there is nothing to
/// cover, no chunks where there is; then, chunk by chunk, what is wrong with its artifact, or that
/// it does not start where the one before it ends; and at last that the end is not reached.
pub proof fn coverage_complaints_come_in_order(
    outputs: Seq<ChunkProgramOutput>,
    tx_count: usize,
    k: int,
)
    requires
        0 <= k <= outputs.len(),
        forall|i: int|
            0 <= i < k ==> (#[trigger] outputs[i]).artifact.shape_complaint(tx_count) is None
                && outputs[i].artifact.range.start_tx == if i == 0 {
                0
            } else {
                outputs[i - 1].artifact.range.end_tx_exclusive as int
            },
    ensures
        tx_count == 0 && outputs.len() > 0 ==> coverage_complaint(outputs, tx_count) == Some(
            "zero-transaction blocks must not include chunk outputs"@,
        ),
        tx_count > 0 && outputs.len() == 0 ==> coverage_complaint(outputs, tx_count) == Some(
            "non-empty blocks must include chunk outputs"@,
        ),
        tx_count > 0 && k < outputs.len() && outputs[k].artifact.shape_complaint(tx_count) is Some
            ==> coverage_complaint(outputs, tx_count) == outputs[k].artifact.shape_complaint(
            tx_count,
        ),
        tx_count > 0 && k < outputs.len() && outputs[k].artifact.shape_complaint(tx_count) is None
            && outputs[k].artifact.range.start_tx != (if k == 0 {
            0
        } else {
            outputs[k - 1].artifact.range.end_tx_exclusive as int
        }) ==> coverage_complaint(outputs, tx_count) == Some(
            "chunk coverage gap or overlap at tx "@ + decimal(
                outputs[k].artifact.range.start_tx as nat,
            ),
        ),
        tx_count > 0 && k == outputs.len() > 0 && outputs[k - 1].artifact.range.end_tx_exclusive
            != tx_count ==> coverage_complaint(outputs, tx_count) == Some(
            "chunk coverage ends at "@ + decimal(
                outputs[k - 1].artifact.range.end_tx_exclusive as nat,
            ) + ", expected "@ + decimal(tx_count as nat),
        ),
{
    if tx_count > 0 && outputs.len() > 0 {
        covered_start_is_passed(outputs, tx_count, k);
    }
}

proof fn covered_start_is_passed(outputs: Seq<ChunkProgramOutput>, tx_count: usize, k: int)
    requires
        0 <= k <= outputs.len(),
        forall|i: int|
            0 <= i < k ==> (#[trigger] outputs[i]).artifact.shape_complaint(tx_count) is None
                && outputs[i].artifact.range.start_tx == if i == 0 {
                0
            } else {
                outputs[i - 1].artifact.range.end_tx_exclusive as int
            },
    ensures
        coverage_complaint_from(outputs, tx_count, 0, 0) == coverage_complaint_from(
            outputs,
            tx_count,
            k,
            if k == 0 {
                0
            } else {
                outputs[k - 1].artifact.range.end_tx_exclusive
            },
        ),
    decreases k,
{
    if k > 0 {
        covered_start_is_passed(outputs, tx_count, k - 1);
        assert(outputs[k - 1].artifact.shape_complaint(tx_count) is None);
    }
}

/// Outputs are all accepted exactly if each commits to its artifact and names the block and the
/// block access list; otherwise the complaint is that about the first one that does not.
pub proof fn foreign_outputs_are_reported(
    outputs: Seq<ChunkProgramOutput>,
    block_hash: H256,
    bal_hash: H256,
    k: int,
)
    requires
        0 <= k <= outputs.len(),
        forall|i: int|
            0 <= i < k ==> {
                &&& (#[trigger] outputs[i]).artifact_hash@ == keccak256(outputs[i].artifact.rlp())
                &&& outputs[i].artifact.block_hash == block_hash
                &&& outputs[i].artifact.bal_hash == bal_hash
            },
    ensures
        k == outputs.len() ==> outputs_complaint(outputs, block_hash, bal_hash) is None,
        k < outputs.len() && output_complaint(outputs[k], block_hash, bal_hash) is Some
            ==> outputs_complaint(outputs, block_hash, bal_hash) == output_complaint(
            outputs[k],
            block_hash,
            bal_hash,
        ),
{
    own_outputs_are_passed(outputs, block_hash, bal_hash, k);
}

proof fn own_outputs_are_passed(
    outputs: Seq<ChunkProgramOutput>,
    block_hash: H256,
    bal_hash: H256,
    k: int,
)
    requires
        0 <= k <= outputs.len(),
        forall|i: int|
            0 <= i < k ==> output_complaint(#[trigger] outputs[i], block_hash, bal_hash) is None,
    ensures
        outputs_complaint_from(outputs, block_hash, bal_hash, 0) == outputs_complaint_from(
            outputs,
            block_hash,
            bal_hash,
            k,
        ),
    decreases k,
{
    if k > 0 {
        own_outputs_are_passed(outputs, block_hash, bal_hash, k - 1);
    }
}

/// An output is refused for the first of these: its hash is not that of its artifact, it names
/// another block, it names another block access list. An output with none of them is not refused.
pub proof fn output_complaints_come_in_order(
    output: ChunkProgramOutput,
    block_hash: H256,
    bal_hash: H256,
)
    ensures
        output.artifact_hash@ != keccak256(output.artifact.rlp()) ==> output_complaint(
            output,
            block_hash,
            bal_hash,
        ) == Some("chunk artifact hash mismatch"@),
        output.artifact_hash@ == keccak256(output.artifact.rlp()) && output.artifact.block_hash
            != block_hash ==> output_complaint(output, block_hash, bal_hash) == Some(
            "chunk artifact block hash mismatch"@,
        ),
        output.artifact_hash@ == keccak256(output.artifact.rlp()) && output.artifact.block_hash
            == block_hash && output.artifact.bal_hash != bal_hash ==> output_complaint(
            output,
            block_hash,
            bal_hash,
        ) == Some("chunk artifact BAL hash mismatch"@),
        output.artifact_hash@ == keccak256(output.artifact.rlp()) && output.artifact.block_hash
            == block_hash && output.artifact.bal_hash == bal_hash ==> output_complaint(
            output,
            block_hash,
            bal_hash,
        ) is None,
{
}

/// What is gathered of one output is what it holds, and what is gathered of two lists of outputs is
/// what is gathered of the first followed by what is gathered of the second.
pub proof fn gathering_concatenates(
    output: ChunkProgramOutput,
    a: Seq<ChunkProgramOutput>,
    b: Seq<ChunkProgramOutput>,
)
    ensures
        all_summaries(seq![output]) == output.artifact.tx_summaries@,
        all_summaries(a + b) == all_summaries(a) + all_summaries(b),
        all_touched(seq![output]).len() == output.artifact.observed_touched_addresses@.len(),
        forall|i: int|
            0 <= i < output.artifact.observed_touched_addresses@.len() ==> #[trigger] all_touched(
                seq![output],
            )[i] == output.artifact.observed_touched_addresses@[i].address,
        all_touched(a + b) == all_touched(a) + all_touched(b),
        all_accessed(seq![output]).len() == output.artifact.observed_storage_accesses@.len(),
        forall|i: int|
            0 <= i < output.artifact.observed_storage_accesses@.len() ==> #[trigger] all_accessed(
                seq![output],
            )[i] == (
                output.artifact.observed_storage_accesses@[i].address,
                output.artifact.observed_storage_accesses@[i].slot,
            ),
        all_accessed(a + b) == all_accessed(a) + all_accessed(b),
    decreases b.len(),
{
    let one = seq![output];
    assert(one.drop_last() =~= Seq::<ChunkProgramOutput>::empty());
    assert(one.last() == output);
    reveal_with_fuel(all_summaries, 2);
    reveal_with_fuel(all_touched, 2);
    reveal_with_fuel(all_accessed, 2);
    assert(all_summaries(one) =~= output.artifact.tx_summaries@);
    assert(all_touched(one) =~= bare_addresses(
        output.artifact.observed_touched_addresses@,
    ));
    assert(all_accessed(one) =~= bare_accesses(
        output.artifact.observed_storage_accesses@,
    ));
    if b.len() == 0 {
        assert(a + b =~= a);
        assert(all_summaries(a) + all_summaries(b) =~= all_summaries(a));
        assert(all_touched(a) + all_touched(b) =~= all_touched(a));
        assert(all_accessed(a) + all_accessed(b) =~= all_accessed(a));
    } else {
        assert((a + b).drop_last() =~= a + b.drop_last());
        assert((a + b).last() == b.last());
        gathering_concatenates(output, a, b.drop_last());
        assert(all_summaries(a + b) =~= all_summaries(a) + all_summaries(b));
        assert(all_touched(a + b) =~= all_touched(a) + all_touched(b));
        assert(all_accessed(a + b) =~= all_accessed(a) + all_accessed(b));
    }
}

} // verus!
