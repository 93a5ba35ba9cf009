//! How a block is split into chunks and how the outputs of the chunk workers are put together, of
//! whatever the functions return.

use crate::artifact::{output_contents, ChunkProgramOutput};
use crate::coverage::{MergeProgramInput, NewPayloadRequest};
use crate::laws::partition_is_empty_iff_block_is;
use crate::merge::ProgramOutput;
use crate::prover::{
    chunk_start, delivered, finish_execution, is_partition, join_workers, merge_input_from_workers,
    partition_chunk_ranges, plan_chunks, sort_outputs, starting_at, BackendError, ChunkedL1Config,
    ChunkedL1Execution, WorkerOutcome,
};
use crate::range::ChunkRange;
use vstd::prelude::*;

verus! {

/// The chunks of a block start at its first transaction, follow each other without a gap and end at
/// its last one. None is empty, none is larger than the limit, and all but the last are as large as
/// the limit. A block without transactions has none. Only a limit of zero is refused.
pub proof fn chunks_split_the_block(
    tx_count: usize,
    max: usize,
    r: Result<Vec<ChunkRange>, BackendError>,
    i: int,
)
    requires
        call_ensures(partition_chunk_ranges, (tx_count, max), r),
    ensures
        max == 0 ==> (r matches Err(BackendError::Execution(text)) && text@
            == "max_txs_per_chunk must be greater than zero"@),
        max > 0 ==> r is Ok,
        r matches Ok(ranges) ==> {
            &&& ranges@.len() == 0 <==> tx_count == 0
            &&& ranges@.len() > 0 ==> ranges@[0].start_tx == 0
            &&& ranges@.len() > 0 ==> ranges@[ranges@.len() - 1].end_tx_exclusive == tx_count
            &&& 0 <= i < ranges@.len() ==> 0 < ranges@[i].end_tx_exclusive - ranges@[i].start_tx
                <= max
            &&& 0 <= i < ranges@.len() - 1 ==> {
                &&& ranges@[i].end_tx_exclusive == ranges@[i + 1].start_tx
                &&& ranges@[i].end_tx_exclusive - ranges@[i].start_tx == max
            }
        },
{
    match r {
        Ok(ranges) => {
            partition_splits_the_block(tx_count, max, ranges@, i);
        },
        Err(_) => {},
    }
}

proof fn partition_splits_the_block(
    tx_count: usize,
    max: usize,
    ranges: Seq<ChunkRange>,
    i: int,
)
    requires
        max > 0,
        is_partition(ranges, tx_count, max),
    ensures
        ranges.len() == 0 <==> tx_count == 0,
        ranges.len() > 0 ==> ranges[0].start_tx == 0,
        ranges.len() > 0 ==> ranges[ranges.len() - 1].end_tx_exclusive == tx_count,
        0 <= i < ranges.len() ==> 0 < ranges[i].end_tx_exclusive - ranges[i].start_tx <= max,
        0 <= i < ranges.len() - 1 ==> {
            &&& ranges[i].end_tx_exclusive == ranges[i + 1].start_tx
            &&& ranges[i].end_tx_exclusive - ranges[i].start_tx == max
        },
{
    partition_is_empty_iff_block_is(ranges, tx_count, max);
    if ranges.len() > 0 {
        let last = ranges[ranges.len() - 1];
        assert(0 * max == 0) by (nonlinear_arith);
        assert(ranges[0].start_tx == chunk_start(tx_count, max, 0));
        assert(last.end_tx_exclusive == chunk_start(tx_count, max, ranges.len() as int));
    }
    if 0 <= i < ranges.len() {
        assert((i + 1) * max == i * max + max) by (nonlinear_arith);
        assert(ranges[i].start_tx == chunk_start(tx_count, max, i));
        assert(ranges[i].end_tx_exclusive == chunk_start(tx_count, max, i + 1));
    }
    if 0 <= i < ranges.len() - 1 {
        assert(ranges[i + 1].start_tx == chunk_start(tx_count, max, i + 1));
        assert(ranges[i + 1].start_tx < ranges[i + 1].end_tx_exclusive);
        assert((i + 2) * max == i * max + max + max) by (nonlinear_arith);
        assert(ranges[i + 1].end_tx_exclusive == chunk_start(tx_count, max, i + 2));
    }
}

/// A range, an error and the default configuration hold what they are made of; the default limit is
/// sixty-four transactions per chunk.
pub proof fn parts_are_held(
    start: u64,
    end: u64,
    range: ChunkRange,
    message: &str,
    error: BackendError,
    config: ChunkedL1Config,
)
    ensures
        call_ensures(ChunkRange::new, (start, end), range) ==> range.start_tx == start
            && range.end_tx_exclusive == end,
        call_ensures(BackendError::execution, (message,), error) ==> (error matches
            BackendError::Execution(text) && text@ == message@),
        call_ensures(<ChunkedL1Config as Default>::default, (), config)
            ==> config.max_txs_per_chunk == 64,
{
}

/// A request that could not be prepared is not split, and its text is the error; a block is split
/// as the configuration says.
pub proof fn planned_chunks_split_the_block(
    prepared: Result<usize, String>,
    config: ChunkedL1Config,
    r: Result<Vec<ChunkRange>, BackendError>,
    i: int,
)
    requires
        call_ensures(plan_chunks, (prepared, &config), r),
    ensures
        prepared matches Err(text) ==> (r matches Err(BackendError::Execution(message))
            && message@ == text@),
        prepared is Ok && config.max_txs_per_chunk == 0 ==> (r matches Err(
            BackendError::Execution(message),
        ) && message@ == "max_txs_per_chunk must be greater than zero"@),
        prepared is Ok && config.max_txs_per_chunk > 0 ==> r is Ok,
        match (prepared, r) {
            (Ok(tx_count), Ok(ranges)) => {
                &&& ranges@.len() == 0 <==> tx_count == 0
                &&& ranges@.len() > 0 ==> ranges@[0].start_tx == 0
                &&& ranges@.len() > 0 ==> ranges@[ranges@.len() - 1].end_tx_exclusive == tx_count
                &&& 0 <= i < ranges@.len() ==> 0 < ranges@[i].end_tx_exclusive
                    - ranges@[i].start_tx <= config.max_txs_per_chunk
                &&& 0 <= i < ranges@.len() - 1 ==> {
                    &&& ranges@[i].end_tx_exclusive == ranges@[i + 1].start_tx
                    &&& ranges@[i].end_tx_exclusive - ranges@[i].start_tx
                        == config.max_txs_per_chunk
                }
            },
            _ => true,
        },
{
    match (prepared, r) {
        (Ok(tx_count), Ok(ranges)) => {
            partition_splits_the_block(tx_count, config.max_txs_per_chunk, ranges@, i);
        },
        _ => {},
    }
}

/// Sorting puts the outputs in the order of their first transactions. None is added or lost, and
/// those with the same first transaction stay in their order.
pub proof fn outputs_are_sorted_by_first_transaction(
    outputs: Vec<ChunkProgramOutput>,
    sorted: Vec<ChunkProgramOutput>,
    i: int,
    j: int,
    start: u64,
)
    requires
        call_ensures(sort_outputs, (outputs,), sorted),
    ensures
        sorted@.len() == outputs@.len(),
        0 <= i < j < sorted@.len() ==> sorted@[i].artifact.range.start_tx
            <= sorted@[j].artifact.range.start_tx,
        sorted@.filter(|o: ChunkProgramOutput| o.artifact.range.start_tx == start)
            == outputs@.filter(|o: ChunkProgramOutput| o.artifact.range.start_tx == start),
{
    assert(starting_at(sorted@, start) == starting_at(outputs@, start));
}

/// What the workers delivered comes out in the order of the first transactions, provided that every
/// worker delivered. If one failed or panicked, the first such worker gives the error.
pub proof fn workers_are_joined(
    outcomes: Vec<WorkerOutcome>,
    r: Result<Vec<ChunkProgramOutput>, BackendError>,
    i: int,
    j: int,
    start: u64,
)
    requires
        call_ensures(join_workers, (outcomes,), r),
    ensures
        r is Ok <==> (forall|k: int|
            0 <= k < outcomes@.len() ==> (#[trigger] outcomes@[k] matches WorkerOutcome::Finished(
                Ok(_),
            ))),
        r matches Ok(outputs) ==> {
            let own = Seq::new(outcomes@.len(), |k: int| outcomes@[k]->Finished_0->Ok_0);
            &&& outputs@.len() == outcomes@.len()
            &&& 0 <= i < j < outputs@.len() ==> outputs@[i].artifact.range.start_tx
                <= outputs@[j].artifact.range.start_tx
            &&& outputs@.filter(|o: ChunkProgramOutput| o.artifact.range.start_tx == start)
                == own.filter(|o: ChunkProgramOutput| o.artifact.range.start_tx == start)
        },
        r matches Err(BackendError::Execution(text)) ==> exists|k: int|
            {
                &&& 0 <= k < outcomes@.len()
                &&& match #[trigger] outcomes@[k] {
                    WorkerOutcome::Finished(Ok(_)) => false,
                    WorkerOutcome::Finished(Err(BackendError::Execution(message))) => text@
                        == message@,
                    WorkerOutcome::Panicked => text@ == "chunk worker panicked"@,
                }
                &&& forall|m: int|
                    0 <= m < k ==> (#[trigger] outcomes@[m] matches WorkerOutcome::Finished(Ok(_)))
            },
{
    match r {
        Ok(outputs) => {
            let own = Seq::new(outcomes@.len(), |k: int| outcomes@[k]->Finished_0->Ok_0);
            assert(own =~= delivered(outcomes@));
            assert(starting_at(outputs@, start) == starting_at(own, start));
        },
        Err(BackendError::Execution(text)) => {},
    }
}

/// The input of the merge is the request, the witness and the block access list as they were handed
/// in, with the outputs of the workers; the same outputs are returned beside it.
pub proof fn merge_input_holds_its_parts<R, W>(
    new_payload_request: NewPayloadRequest<R>,
    execution_witness: W,
    header_bal: Vec<u8>,
    outcomes: Vec<WorkerOutcome>,
    r: Result<(Vec<ChunkProgramOutput>, MergeProgramInput<R, W>), BackendError>,
    i: int,
    j: int,
    start: u64,
)
    requires
        call_ensures(
            merge_input_from_workers::<R, W>,
            (new_payload_request, execution_witness, header_bal, outcomes),
            r,
        ),
    ensures
        r is Ok <==> (forall|k: int|
            0 <= k < outcomes@.len() ==> (#[trigger] outcomes@[k] matches WorkerOutcome::Finished(
                Ok(_),
            ))),
        r matches Ok((outputs, input)) ==> {
            let own = Seq::new(outcomes@.len(), |k: int| outcomes@[k]->Finished_0->Ok_0);
            &&& input.new_payload_request == new_payload_request
            &&& input.execution_witness == execution_witness
            &&& input.header_bal == header_bal
            &&& outputs@.len() == outcomes@.len()
            &&& 0 <= i < j < outputs@.len() ==> outputs@[i].artifact.range.start_tx
                <= outputs@[j].artifact.range.start_tx
            &&& outputs@.filter(|o: ChunkProgramOutput| o.artifact.range.start_tx == start)
                == own.filter(|o: ChunkProgramOutput| o.artifact.range.start_tx == start)
            &&& input.chunk_outputs@.len() == outputs@.len()
            &&& 0 <= i < outputs@.len() ==> {
                let copy = input.chunk_outputs@[i];
                let output = outputs@[i];
                &&& copy.artifact_hash == output.artifact_hash
                &&& copy.artifact.block_hash == output.artifact.block_hash
                &&& copy.artifact.bal_hash == output.artifact.bal_hash
                &&& copy.artifact.range == output.artifact.range
                &&& copy.artifact.tx_summaries@.len() == output.artifact.tx_summaries@.len()
                &&& copy.artifact.observed_touched_addresses@
                    == output.artifact.observed_touched_addresses@
                &&& copy.artifact.observed_storage_accesses@
                    == output.artifact.observed_storage_accesses@
            }
        },
        r matches Err(BackendError::Execution(text)) ==> exists|k: int|
            {
                &&& 0 <= k < outcomes@.len()
                &&& match #[trigger] outcomes@[k] {
                    WorkerOutcome::Finished(Ok(_)) => false,
                    WorkerOutcome::Finished(Err(BackendError::Execution(message))) => text@
                        == message@,
                    WorkerOutcome::Panicked => text@ == "chunk worker panicked"@,
                }
                &&& forall|m: int|
                    0 <= m < k ==> (#[trigger] outcomes@[m] matches WorkerOutcome::Finished(Ok(_)))
            },
{
    match r {
        Ok((outputs, input)) => {
            let own = Seq::new(outcomes@.len(), |k: int| outcomes@[k]->Finished_0->Ok_0);
            assert(own =~= delivered(outcomes@));
            assert(starting_at(outputs@, start) == starting_at(own, start));
            assert(output_contents(input.chunk_outputs@).len() == input.chunk_outputs@.len());
            assert(output_contents(outputs@).len() == outputs@.len());
            if 0 <= i < outputs@.len() {
                let copy = input.chunk_outputs@[i];
                let output = outputs@[i];
                assert(output_contents(input.chunk_outputs@)[i] == copy@);
                assert(output_contents(outputs@)[i] == output@);
                assert(copy@.artifact == copy.artifact@ && output@.artifact == output.artifact@);
                assert(copy.artifact@.tx_summaries.len() == copy.artifact.tx_summaries@.len());
                assert(output.artifact@.tx_summaries.len() == output.artifact.tx_summaries@.len());
            }
        },
        Err(BackendError::Execution(text)) => {},
    }
}

/// The execution is finished exactly if the merge went through; it then holds what it was made of,
/// and otherwise the text of the merge is the error.
pub proof fn execution_holds_its_parts<R, W>(
    chunk_outputs: Vec<ChunkProgramOutput>,
    merge_input: MergeProgramInput<R, W>,
    merged: Result<ProgramOutput, String>,
    r: Result<ChunkedL1Execution<R, W>, BackendError>,
)
    requires
        call_ensures(finish_execution::<R, W>, (chunk_outputs, merge_input, merged), r),
    ensures
        match merged {
            Ok(output) => r matches Ok(execution) && {
                &&& execution.chunk_outputs == chunk_outputs
                &&& execution.merge_input == merge_input
                &&& execution.merge_output == output
            },
            Err(text) => r matches Err(BackendError::Execution(message)) && message@ == text@,
        },
{
}

} // verus!
