//! Laws that tie the splitting of a block, the artifacts of its chunks and their coverage
//! together.

use crate::artifact::{
    access_before, access_ordered_at, accesses_ordered, address_ordered_at, addresses_ordered,
    summaries_follow, CanonicalObservedAddress, CanonicalObservedStorageAccess, ChunkProgramOutput,
};
use crate::coverage::{boundary, covers, follows};
use crate::gather::all_summaries;
use crate::primitives::{agree_until, bytes_before, smaller_after};
use crate::prover::{
    filter_is_drawn_from, is_partition, is_stable_sort, sorted_by_start, starting_at,
};
use crate::range::ChunkRange;
use vstd::prelude::*;

verus! {

/// The dictionary order of byte strings is transitive.
pub proof fn bytes_before_is_transitive(a: Seq<u8>, b: Seq<u8>, c: Seq<u8>)
    requires
        bytes_before(a, b),
        bytes_before(b, c),
    ensures
        bytes_before(a, c),
{
    let m = choose|k: int| agree_until(a, b, k) && smaller_after(a, b, k);
    let n = choose|k: int| agree_until(b, c, k) && smaller_after(b, c, k);
    let k = if m <= n { m } else { n };
    assert(agree_until(a, c, k)) by {
        assert forall|j: int| 0 <= j < k implies a[j] == c[j] by {
            assert(a[j] == b[j]);
            assert(b[j] == c[j]);
        }
    }
    if m < n {
        assert(b[m] == c[m]);
    } else if n < m {
        assert(a[n] == b[n]);
    }
    assert(smaller_after(a, c, k));
}

/// No byte string comes before itself.
pub proof fn bytes_before_is_irreflexive(a: Seq<u8>)
    ensures
        !bytes_before(a, a),
{
}

/// Of two different byte strings one comes before the other.
pub proof fn bytes_before_is_total(a: Seq<u8>, b: Seq<u8>)
    requires
        a != b,
    ensures
        bytes_before(a, b) || bytes_before(b, a),
{
    first_difference(a, b, 0);
}

proof fn first_difference(a: Seq<u8>, b: Seq<u8>, k: int)
    requires
        a != b,
        agree_until(a, b, k),
    ensures
        bytes_before(a, b) || bytes_before(b, a),
    decreases a.len() - k,
{
    if k < a.len() && k < b.len() && a[k] == b[k] {
        first_difference(a, b, k + 1);
    } else {
        assert(agree_until(b, a, k));
        if k == a.len() && k == b.len() {
            assert(a =~= b);
        } else if k < b.len() && (k == a.len() || a[k] < b[k]) {
            assert(smaller_after(a, b, k));
        } else {
            assert(smaller_after(b, a, k));
        }
    }
}

/// In a strictly ordered list of touched addresses every earlier address comes before every later
/// one, so that none occurs twice.
pub proof fn ordered_addresses_increase(accounts: Seq<CanonicalObservedAddress>, i: int, j: int)
    requires
        addresses_ordered(accounts),
        0 <= i < j < accounts.len(),
    ensures
        bytes_before(accounts[i].address@, accounts[j].address@),
        accounts[i].address != accounts[j].address,
    decreases j - i,
{
    if i + 1 == j {
        assert(address_ordered_at(accounts, i));
    } else {
        ordered_addresses_increase(accounts, i, j - 1);
        assert(address_ordered_at(accounts, j - 1));
        bytes_before_is_transitive(
            accounts[i].address@,
            accounts[j - 1].address@,
            accounts[j].address@,
        );
    }
    bytes_before_is_irreflexive(accounts[i].address@);
}

/// In a strictly ordered list of storage accesses every earlier access comes before every later
/// one, so that none occurs twice.
pub proof fn ordered_accesses_increase(
    accesses: Seq<CanonicalObservedStorageAccess>,
    i: int,
    j: int,
)
    requires
        accesses_ordered(accesses),
        0 <= i < j < accesses.len(),
    ensures
        access_before(accesses[i], accesses[j]),
        accesses[i] != accesses[j],
    decreases j - i,
{
    if i + 1 == j {
        assert(access_ordered_at(accesses, i));
    } else {
        ordered_accesses_increase(accesses, i, j - 1);
        assert(access_ordered_at(accesses, j - 1));
        let a = accesses[i];
        let b = accesses[j - 1];
        let c = accesses[j];
        if bytes_before(a.address@, b.address@) {
            if bytes_before(b.address@, c.address@) {
                bytes_before_is_transitive(a.address@, b.address@, c.address@);
            }
        } else if !bytes_before(b.address@, c.address@) {
            bytes_before_is_transitive(a.slot@, b.slot@, c.slot@);
        }
    }
    bytes_before_is_irreflexive(accesses[i].address@);
    bytes_before_is_irreflexive(accesses[i].slot@);
}

/// The chunks of a partition are non-empty, hold at most `max` transactions, and all but the last
/// hold exactly `max`.
pub proof fn partition_chunks_are_bounded(
    ranges: Seq<ChunkRange>,
    tx_count: usize,
    max: usize,
    i: int,
)
    requires
        is_partition(ranges, tx_count, max),
        0 <= i < ranges.len(),
    ensures
        0 < ranges[i].end_tx_exclusive - ranges[i].start_tx <= max,
        i + 1 < ranges.len() ==> ranges[i].end_tx_exclusive - ranges[i].start_tx == max,
{
    assert((i + 1) * max == i * max + max) by (nonlinear_arith);
    if i + 1 < ranges.len() {
        assert((i + 2) * max == (i + 1) * max + max) by (nonlinear_arith);
        assert(ranges[i + 1].start_tx < ranges[i + 1].end_tx_exclusive);
    }
}

/// The chunks of a partition lie next to each other, from transaction 0 to the last one.
pub proof fn partition_chunks_are_adjacent(
    ranges: Seq<ChunkRange>,
    tx_count: usize,
    max: usize,
    i: int,
)
    requires
        is_partition(ranges, tx_count, max),
        0 <= i < ranges.len(),
    ensures
        i == 0 ==> ranges[i].start_tx == 0,
        i > 0 ==> ranges[i].start_tx == ranges[i - 1].end_tx_exclusive,
        i == ranges.len() - 1 ==> ranges[i].end_tx_exclusive == tx_count,
{
    assert(0 * max == 0) by (nonlinear_arith);
}

/// A block without transactions has no chunks, and one with transactions has some.
pub proof fn partition_is_empty_iff_block_is(
    ranges: Seq<ChunkRange>,
    tx_count: usize,
    max: usize,
)
    requires
        is_partition(ranges, tx_count, max),
    ensures
        ranges.len() == 0 <==> tx_count == 0,
{
    assert(0 * max == 0) by (nonlinear_arith);
    if ranges.len() > 0 {
        partition_chunks_are_bounded(ranges, tx_count, max, 0);
    }
}

/// There is one partition only.
pub proof fn partition_is_unique(
    a: Seq<ChunkRange>,
    b: Seq<ChunkRange>,
    tx_count: usize,
    max: usize,
)
    requires
        is_partition(a, tx_count, max),
        is_partition(b, tx_count, max),
    ensures
        a == b,
{
    if a.len() < b.len() {
        let r = b[a.len() as int];
        assert(r.start_tx == tx_count);
        partition_end_is_within(b, tx_count, max, a.len() as int);
    } else if b.len() < a.len() {
        let r = a[b.len() as int];
        assert(r.start_tx == tx_count);
        partition_end_is_within(a, tx_count, max, b.len() as int);
    }
    assert(a =~= b);
}

proof fn partition_end_is_within(ranges: Seq<ChunkRange>, tx_count: usize, max: usize, i: int)
    requires
        is_partition(ranges, tx_count, max),
        0 <= i < ranges.len(),
    ensures
        ranges[i].end_tx_exclusive <= tx_count,
{
}

/// The chunks of a partition pass the coverage check: if the artifacts have the ranges of a
/// partition, one summary per transaction in order, and strictly ordered observations, the
/// outputs cover the block.
pub proof fn partition_covers_the_block(
    ranges: Seq<ChunkRange>,
    outputs: Seq<ChunkProgramOutput>,
    tx_count: usize,
    max: usize,
)
    requires
        is_partition(ranges, tx_count, max),
        outputs.len() == ranges.len(),
        forall|i: int|
            0 <= i < outputs.len() ==> {
                let artifact = (#[trigger] outputs[i]).artifact;
                &&& artifact.range == ranges[i]
                &&& artifact.tx_summaries@.len() == artifact.range.width()
                &&& summaries_follow(
                    artifact.tx_summaries@,
                    artifact.range.start_tx,
                )
                &&& addresses_ordered(artifact.observed_touched_addresses@)
                &&& accesses_ordered(artifact.observed_storage_accesses@)
            },
    ensures
        covers(outputs, tx_count),
{
    assert forall|i: int| 0 <= i < outputs.len() implies (
    #[trigger] outputs[i]).artifact.well_shaped(tx_count) by {
        partition_end_is_within(ranges, tx_count, max, i);
        assert(ranges[i].start_tx < ranges[i].end_tx_exclusive);
    }
    assert forall|i: int| 0 <= i < outputs.len() implies #[trigger] follows(outputs, i) by {
        partition_chunks_are_adjacent(ranges, tx_count, max, i);
        if i > 0 {
            assert(outputs[i - 1].artifact.range == ranges[i - 1]);
        }
        assert(outputs[i].artifact.range == ranges[i]);
    }
    partition_is_empty_iff_block_is(ranges, tx_count, max);
    if outputs.len() > 0 {
        let last = outputs.len() - 1;
        assert(outputs[last].artifact.range == ranges[last]);
        partition_chunks_are_adjacent(ranges, tx_count, max, last);
    }
}

/// The ends of the ranges are indices, as they always are where `usize` has 64 bits.
pub open spec fn ends_are_indices(outputs: Seq<ChunkProgramOutput>) -> bool {
    forall|i: int|
        0 <= i < outputs.len() ==> (#[trigger] outputs[i]).artifact.range.end_tx_exclusive
            <= usize::MAX
}

/// Outputs that cover a block hold the summary of each of its transactions exactly once, in the
/// order of the block.
pub proof fn coverage_lists_every_transaction_once(
    outputs: Seq<ChunkProgramOutput>,
    tx_count: usize,
)
    requires
        covers(outputs, tx_count),
        ends_are_indices(outputs),
    ensures
        all_summaries(outputs).len() == tx_count,
        forall|k: int|
            0 <= k < tx_count ==> (#[trigger] all_summaries(outputs)[k]).tx_index == k,
{
    prefix_is_listed(outputs, tx_count, outputs.len() as int);
    assert(outputs.take(outputs.len() as int) =~= outputs);
}

proof fn prefix_is_listed(outputs: Seq<ChunkProgramOutput>, tx_count: usize, n: int)
    requires
        covers(outputs, tx_count),
        ends_are_indices(outputs),
        0 <= n <= outputs.len(),
    ensures
        all_summaries(outputs.take(n)).len() == boundary(outputs, n),
        forall|k: int|
            0 <= k < boundary(outputs, n) ==> (#[trigger] all_summaries(
                outputs.take(n),
            )[k]).tx_index == k,
    decreases n,
{
    if n > 0 {
        prefix_is_listed(outputs, tx_count, n - 1);
        let front = outputs.take(n - 1);
        let artifact = outputs[n - 1].artifact;
        assert(outputs.take(n).drop_last() =~= front);
        assert(outputs.take(n).last() == outputs[n - 1]);
        assert(artifact.well_shaped(tx_count));
        assert(follows(outputs, n - 1));
        if n > 1 {
            assert(outputs[n - 2].artifact.range.end_tx_exclusive <= usize::MAX);
        }
        assert(artifact.range.start_tx == boundary(outputs, n - 1));
        assert(artifact.range.start_tx < artifact.range.end_tx_exclusive);
        let width = artifact.range.end_tx_exclusive - artifact.range.start_tx;
        assert(artifact.tx_summaries@.len() == width);
        let all = all_summaries(outputs.take(n));
        assert forall|k: int| 0 <= k < boundary(outputs, n) implies (
        #[trigger] all[k]).tx_index == k by {
            if k < boundary(outputs, n - 1) {
                assert(all[k] == all_summaries(front)[k]);
            } else {
                let offset = k - boundary(outputs, n - 1);
                assert(all[k] == artifact.tx_summaries@[offset]);
            }
        }
    }
}

/// The range of chunk `i` holds transaction `k`.
pub open spec fn holds_transaction(outputs: Seq<ChunkProgramOutput>, i: int, k: int) -> bool {
    outputs[i].artifact.range.start_tx <= k < outputs[i].artifact.range.end_tx_exclusive
}

/// In outputs that cover a block every transaction belongs to the range of exactly one chunk.
pub proof fn coverage_gives_each_transaction_one_chunk(
    outputs: Seq<ChunkProgramOutput>,
    tx_count: usize,
    k: int,
)
    requires
        covers(outputs, tx_count),
        ends_are_indices(outputs),
        0 <= k < tx_count,
    ensures
        exists|i: int| 0 <= i < outputs.len() && #[trigger] holds_transaction(outputs, i, k),
        forall|i: int, j: int|
            0 <= i < outputs.len() && 0 <= j < outputs.len() && #[trigger] holds_transaction(
                outputs,
                i,
                k,
            ) && #[trigger] holds_transaction(outputs, j, k) ==> i == j,
{
    prefix_holds(outputs, tx_count, k, outputs.len() as int);
    assert forall|i: int, j: int|
        0 <= i < outputs.len() && 0 <= j < outputs.len() && #[trigger] holds_transaction(
            outputs,
            i,
            k,
        ) && #[trigger] holds_transaction(outputs, j, k) implies i == j by {
        if i < j {
            boundaries_increase(outputs, tx_count, i + 1, j);
            assert(follows(outputs, j));
        } else if j < i {
            boundaries_increase(outputs, tx_count, j + 1, i);
            assert(follows(outputs, i));
        }
    }
}

proof fn prefix_holds(outputs: Seq<ChunkProgramOutput>, tx_count: usize, k: int, n: int)
    requires
        covers(outputs, tx_count),
        0 <= n <= outputs.len(),
        0 <= k < boundary(outputs, n),
    ensures
        exists|i: int| 0 <= i < n && #[trigger] holds_transaction(outputs, i, k),
    decreases n,
{
    if n > 0 {
        assert(follows(outputs, n - 1));
        if k < boundary(outputs, n - 1) {
            prefix_holds(outputs, tx_count, k, n - 1);
        } else {
            assert(holds_transaction(outputs, n - 1, k));
        }
    }
}

proof fn boundaries_increase(
    outputs: Seq<ChunkProgramOutput>,
    tx_count: usize,
    m: int,
    n: int,
)
    requires
        covers(outputs, tx_count),
        ends_are_indices(outputs),
        0 <= m <= n <= outputs.len(),
    ensures
        boundary(outputs, m) <= boundary(outputs, n),
    decreases n - m,
{
    if m < n {
        boundaries_increase(outputs, tx_count, m, n - 1);
        let artifact = outputs[n - 1].artifact;
        assert(artifact.well_shaped(tx_count));
        assert(follows(outputs, n - 1));
        if n > 1 {
            assert(outputs[n - 2].artifact.range.end_tx_exclusive <= usize::MAX);
        }
    }
}

/// There is one stable sort only.
pub proof fn stable_sort_is_unique(a: Seq<ChunkProgramOutput>, b: Seq<ChunkProgramOutput>)
    requires
        sorted_by_start(a),
        sorted_by_start(b),
        forall|start: u64| #[trigger] starting_at(a, start) == starting_at(b, start),
    ensures
        a == b,
    decreases a.len(),
{
    if a.len() == 0 && b.len() == 0 {
        assert(a =~= b);
    } else {
        if a.len() > 0 {
            last_is_kept(a);
            last_start_dominates(b, a.last().artifact.range.start_tx);
        }
        if b.len() > 0 {
            last_is_kept(b);
            last_start_dominates(a, b.last().artifact.range.start_tx);
        }
        assert(a.len() > 0 && b.len() > 0);
        let start = a.last().artifact.range.start_tx;
        assert(starting_at(a, start) == starting_at(b, start));
        assert(a.last() == b.last());
        assert forall|s: u64| #[trigger]
            starting_at(a.drop_last(), s) == starting_at(b.drop_last(), s) by {
            assert(starting_at(a, s) == starting_at(b, s));
            reveal_with_fuel(Seq::filter, 1);
            if s == start {
                assert(starting_at(a.drop_last(), s) =~= starting_at(a, s).drop_last());
                assert(starting_at(b.drop_last(), s) =~= starting_at(b, s).drop_last());
            }
        }
        stable_sort_is_unique(a.drop_last(), b.drop_last());
        assert(a =~= a.drop_last().push(a.last()));
        assert(b =~= b.drop_last().push(b.last()));
    }
}

proof fn last_is_kept(outputs: Seq<ChunkProgramOutput>)
    requires
        outputs.len() > 0,
    ensures
        ({
            let group = starting_at(outputs, outputs.last().artifact.range.start_tx);
            group.len() > 0 && group.last() == outputs.last()
        }),
{
    reveal_with_fuel(Seq::filter, 1);
}

proof fn last_start_dominates(outputs: Seq<ChunkProgramOutput>, start: u64)
    requires
        sorted_by_start(outputs),
        starting_at(outputs, start).len() > 0,
    ensures
        outputs.len() > 0,
        outputs.last().artifact.range.start_tx >= start,
{
    broadcast use vstd::seq_lib::group_filter_ensures;

    let pred = |output: ChunkProgramOutput| output.artifact.range.start_tx == start;
    assert(pred(outputs.filter(pred)[0]));
    filter_is_drawn_from(outputs, pred, 0);
}

/// Outputs that already are in the order of their first transactions stay as they are.
pub proof fn sorting_keeps_sorted_outputs(
    sorted: Seq<ChunkProgramOutput>,
    outputs: Seq<ChunkProgramOutput>,
)
    requires
        is_stable_sort(sorted, outputs),
        sorted_by_start(outputs),
    ensures
        sorted == outputs,
{
    stable_sort_is_unique(sorted, outputs);
}

/// Outputs with the ranges of a partition, in its order, are in the order of their first
/// transactions.
pub proof fn partition_outputs_are_sorted(
    ranges: Seq<ChunkRange>,
    outputs: Seq<ChunkProgramOutput>,
    tx_count: usize,
    max: usize,
)
    requires
        is_partition(ranges, tx_count, max),
        outputs.len() == ranges.len(),
        forall|i: int|
            0 <= i < outputs.len() ==> (#[trigger] outputs[i]).artifact.range == ranges[i],
    ensures
        sorted_by_start(outputs),
{
    assert forall|i: int, j: int| 0 <= i <= j < outputs.len() implies (
    #[trigger] outputs[i]).artifact.range.start_tx <= (
    #[trigger] outputs[j]).artifact.range.start_tx by {
        assert(outputs[i].artifact.range == ranges[i]);
        assert(outputs[j].artifact.range == ranges[j]);
        assert(i * max <= j * max) by (nonlinear_arith)
            requires
                i <= j,
                max >= 0,
        ;
    }
}

/// Splitting a block, running the chunks and gathering the outputs in the order of the chunks
/// ends with outputs that cover the block.
pub proof fn gathered_chunks_cover_the_block(
    ranges: Seq<ChunkRange>,
    outputs: Seq<ChunkProgramOutput>,
    gathered: Seq<ChunkProgramOutput>,
    tx_count: usize,
    max: usize,
)
    requires
        is_partition(ranges, tx_count, max),
        outputs.len() == ranges.len(),
        forall|i: int|
            0 <= i < outputs.len() ==> {
                &&& (#[trigger] outputs[i]).artifact.range == ranges[i]
                &&& outputs[i].artifact.well_shaped(tx_count)
            },
        is_stable_sort(gathered, outputs),
    ensures
        gathered == outputs,
        covers(gathered, tx_count),
{
    partition_outputs_are_sorted(ranges, outputs, tx_count, max);
    sorting_keeps_sorted_outputs(gathered, outputs);
    partition_covers_the_block(ranges, outputs, tx_count, max);
}

} // verus!
