//! Splitting a block into chunks and gathering what the chunk workers return.

use crate::artifact::{output_contents, ChunkProgramOutput};
use crate::coverage::{MergeProgramInput, NewPayloadRequest};
use crate::merge::ProgramOutput;
use crate::range::ChunkRange;
use vstd::prelude::*;

verus! {

/// How a block is split into chunks.
#[derive(Clone, Debug)]
pub struct ChunkedL1Config {
    pub max_txs_per_chunk: usize,
}

impl Default for ChunkedL1Config {
    fn default() -> (config: Self)
        ensures
            config.max_txs_per_chunk == 64,
    {
        Self { max_txs_per_chunk: 64 }
    }
}

/// Why a proving backend gave up.
#[derive(Clone, Debug, PartialEq, Eq)]
pub enum BackendError {
    Execution(String),
}

impl BackendError {
    /// The text of the error.
    pub open spec fn text(self) -> Seq<char> {
        match self {
            BackendError::Execution(message) => message@,
        }
    }

    /// An execution error with the given text.
    pub fn execution(message: &str) -> (e: Self)
        ensures
            e.text() == message@,
    {
        BackendError::Execution(message.to_owned())
    }
}

/// A chunked execution that went through; `R` is the rest of the request and `W` the execution
/// witness.
#[derive(Clone, Debug)]
pub struct ChunkedL1Execution<R, W> {
    pub chunk_outputs: Vec<ChunkProgramOutput>,
    pub merge_input: MergeProgramInput<R, W>,
    pub merge_output: ProgramOutput,
}

/// Where chunk `i` starts when each chunk holds `max` of `tx_count` transactions.
pub open spec fn chunk_start(tx_count: usize, max: usize, i: int) -> int {
    if i * max <= tx_count {
        i * max
    } else {
        tx_count as int
    }
}

/// The ranges are the chunks of `max` transactions each, the last one possibly shorter.
pub open spec fn is_partition(ranges: Seq<ChunkRange>, tx_count: usize, max: usize) -> bool {
    &&& forall|i: int|
        0 <= i < ranges.len() ==> {
            &&& (#[trigger] ranges[i]).start_tx == chunk_start(tx_count, max, i)
            &&& ranges[i].end_tx_exclusive == chunk_start(tx_count, max, i + 1)
            &&& ranges[i].start_tx < ranges[i].end_tx_exclusive
        }
    &&& chunk_start(tx_count, max, ranges.len() as int) == tx_count
}

/// Splits `tx_count` transactions into chunks of at most `max_txs_per_chunk`.
pub fn partition_chunk_ranges(tx_count: usize, max_txs_per_chunk: usize) -> (r: Result<
    Vec<ChunkRange>,
    BackendError,
>)
    ensures
        r is Err <==> max_txs_per_chunk == 0,
        r matches Err(e) ==> e.text() == "max_txs_per_chunk must be greater than zero"@,
        r matches Ok(ranges) ==> is_partition(ranges@, tx_count, max_txs_per_chunk),
{
    if max_txs_per_chunk == 0 {
        return Err(BackendError::execution("max_txs_per_chunk must be greater than zero"));
    }
    let mut ranges: Vec<ChunkRange> = Vec::new();
    let mut start: usize = 0;
    assert(0 * max_txs_per_chunk == 0) by (nonlinear_arith);
    while start < tx_count
        invariant
            max_txs_per_chunk > 0,
            start <= tx_count,
            start == chunk_start(tx_count, max_txs_per_chunk, ranges@.len() as int),
            start < tx_count ==> start == ranges@.len() * max_txs_per_chunk,
            forall|i: int|
                0 <= i < ranges@.len() ==> {
                    &&& (#[trigger] ranges@[i]).start_tx == chunk_start(
                        tx_count,
                        max_txs_per_chunk,
                        i,
                    )
                    &&& ranges@[i].end_tx_exclusive == chunk_start(
                        tx_count,
                        max_txs_per_chunk,
                        i + 1,
                    )
                    &&& ranges@[i].start_tx < ranges@[i].end_tx_exclusive
                },
        decreases tx_count - start,
    {
        let end: usize = if max_txs_per_chunk >= tx_count - start {
            tx_count
        } else {
            start + max_txs_per_chunk
        };
        proof {
            let n = ranges@.len() as int;
            assert((n + 1) * max_txs_per_chunk == n * max_txs_per_chunk + max_txs_per_chunk)
                by (nonlinear_arith);
            assert(end == chunk_start(tx_count, max_txs_per_chunk, n + 1));
        }
        ranges.push(ChunkRange::new(start as u64, end as u64));
        start = end;
    }
    Ok(ranges)
}

/// How a chunk worker ended.
#[derive(Debug)]
pub enum WorkerOutcome {
    Finished(Result<ChunkProgramOutput, BackendError>),
    Panicked,
}

/// The outputs are in the order of their first transactions.
pub open spec fn sorted_by_start(outputs: Seq<ChunkProgramOutput>) -> bool {
    forall|i: int, j: int|
        0 <= i <= j < outputs.len() ==> (#[trigger] outputs[i]).artifact.range.start_tx <= (
        #[trigger] outputs[j]).artifact.range.start_tx
}

/// The outputs that start at transaction `start`, in order.
pub open spec fn starting_at(outputs: Seq<ChunkProgramOutput>, start: u64) -> Seq<
    ChunkProgramOutput,
> {
    outputs.filter(|output: ChunkProgramOutput| output.artifact.range.start_tx == start)
}

/// `sorted` holds the outputs of `outputs` in the order of their first transactions; outputs with
/// the same first transaction keep their order.
pub open spec fn is_stable_sort(
    sorted: Seq<ChunkProgramOutput>,
    outputs: Seq<ChunkProgramOutput>,
) -> bool {
    &&& sorted.len() == outputs.len()
    &&& sorted_by_start(sorted)
    &&& forall|start: u64| #[trigger] starting_at(sorted, start) == starting_at(outputs, start)
}

/// A filtered output is one of the outputs.
pub proof fn filter_is_drawn_from(
    outputs: Seq<ChunkProgramOutput>,
    pred: spec_fn(ChunkProgramOutput) -> bool,
    i: int,
)
    requires
        0 <= i < outputs.filter(pred).len(),
    ensures
        exists|j: int| 0 <= j < outputs.len() && #[trigger] outputs[j] == outputs.filter(pred)[i],
    decreases outputs.len(),
{
    reveal_with_fuel(Seq::filter, 1);
    if outputs.len() > 0 {
        let front = outputs.drop_last();
        if i < front.filter(pred).len() {
            filter_is_drawn_from(front, pred, i);
            let j = choose|j: int|
                0 <= j < front.len() && #[trigger] front[j] == front.filter(pred)[i];
            assert(outputs[j] == outputs.filter(pred)[i]);
        } else {
            assert(outputs[outputs.len() - 1] == outputs.filter(pred)[i]);
        }
    }
}

/// Putting an output behind all those that start no later keeps the others apart and appends it
/// to those that start with it.
proof fn insertion_is_stable(
    sorted: Seq<ChunkProgramOutput>,
    pos: int,
    output: ChunkProgramOutput,
    start: u64,
)
    requires
        0 <= pos <= sorted.len(),
        forall|i: int|
            pos <= i < sorted.len() ==> (#[trigger] sorted[i]).artifact.range.start_tx
                > output.artifact.range.start_tx,
    ensures
        starting_at(sorted.insert(pos, output), start) == starting_at(sorted.push(output), start),
{
    let pred = |o: ChunkProgramOutput| o.artifact.range.start_tx == start;
    let front = sorted.take(pos);
    let back = sorted.skip(pos);
    let one = seq![output];
    assert(sorted.insert(pos, output) =~= front + one + back);
    assert(sorted.push(output) =~= front + back + one);
    Seq::filter_distributes_over_add(front + one, back, pred);
    Seq::filter_distributes_over_add(front, one, pred);
    Seq::filter_distributes_over_add(front + back, one, pred);
    Seq::filter_distributes_over_add(front, back, pred);
    if output.artifact.range.start_tx == start {
        assert(back.filter(pred).len() == 0) by {
            broadcast use vstd::seq_lib::group_filter_ensures;

            if back.filter(pred).len() > 0 {
                assert(pred(back.filter(pred)[0]));
                filter_is_drawn_from(back, pred, 0);
            }
        }
        assert(back.filter(pred) =~= Seq::empty());
    } else {
        assert(one.filter(pred) =~= Seq::empty()) by {
            reveal_with_fuel(Seq::filter, 2);
        }
    }
    assert(starting_at(sorted.insert(pos, output), start) =~= starting_at(
        sorted.push(output),
        start,
    ));
}

/// Sorts the outputs by their first transactions.
pub fn sort_outputs(outputs: Vec<ChunkProgramOutput>) -> (sorted: Vec<ChunkProgramOutput>)
    ensures
        is_stable_sort(sorted@, outputs@),
{
    let mut sorted: Vec<ChunkProgramOutput> = Vec::new();
    for output in it: outputs
        invariant
            it.seq() == outputs@,
            sorted@.len() == it.index(),
            sorted_by_start(sorted@),
            forall|start: u64| #[trigger]
                starting_at(sorted@, start) == starting_at(
                    outputs@.take(it.index() as int),
                    start,
                ),
    {
        let ghost before = sorted@;
        let ghost done = it.index() as int;
        let mut pos: usize = sorted.len();
        while pos > 0 && sorted[pos - 1].artifact.range.start_tx > output.artifact.range.start_tx
            invariant
                pos <= sorted@.len(),
                sorted@ == before,
                sorted_by_start(before),
                forall|i: int|
                    pos <= i < before.len() ==> (#[trigger] before[i]).artifact.range.start_tx
                        > output.artifact.range.start_tx,
            decreases pos,
        {
            pos = pos - 1;
        }
        sorted.insert(pos, output);
        proof {
            assert forall|start: u64| #[trigger]
                starting_at(sorted@, start) == starting_at(outputs@.take(done + 1), start) by {
                let pred = |o: ChunkProgramOutput| o.artifact.range.start_tx == start;
                insertion_is_stable(before, pos as int, output, start);
                let next = outputs@.take(done + 1);
                assert(next.drop_last() =~= outputs@.take(done));
                assert(next.last() == output);
                assert(before.push(output).drop_last() =~= before);
                reveal_with_fuel(Seq::filter, 1);
                assert(starting_at(before, start) == starting_at(outputs@.take(done), start));
            }
        }
    }
    assert(outputs@.take(outputs@.len() as int) =~= outputs@);
    sorted
}

/// Why a worker did not deliver an output.
pub open spec fn worker_complaint(outcome: WorkerOutcome) -> Option<Seq<char>> {
    match outcome {
        WorkerOutcome::Finished(Ok(_)) => None,
        WorkerOutcome::Finished(Err(e)) => Some(e.text()),
        WorkerOutcome::Panicked => Some("chunk worker panicked"@),
    }
}

/// The outputs that the workers delivered.
pub open spec fn delivered(outcomes: Seq<WorkerOutcome>) -> Seq<ChunkProgramOutput> {
    outcomes.map_values(|outcome: WorkerOutcome| outcome->Finished_0->Ok_0)
}

/// Gathers what the workers returned: the outputs in the order of their first transactions, or
/// the complaint of the first worker that delivered none.
pub fn join_workers(outcomes: Vec<WorkerOutcome>) -> (r: Result<
    Vec<ChunkProgramOutput>,
    BackendError,
>)
    ensures
        match r {
            Ok(outputs) => {
                &&& forall|i: int|
                    0 <= i < outcomes@.len() ==> worker_complaint(#[trigger] outcomes@[i]) is None
                &&& is_stable_sort(outputs@, delivered(outcomes@))
            },
            Err(e) => exists|i: int|
                {
                    &&& 0 <= i < outcomes@.len()
                    &&& worker_complaint(#[trigger] outcomes@[i]) == Some(e.text())
                    &&& forall|j: int|
                        0 <= j < i ==> worker_complaint(#[trigger] outcomes@[j]) is None
                },
        },
{
    let mut outputs: Vec<ChunkProgramOutput> = Vec::new();
    for outcome in it: outcomes
        invariant
            it.seq() == outcomes@,
            outputs@ == delivered(outcomes@.take(it.index() as int)),
            forall|j: int|
                0 <= j < it.index() ==> worker_complaint(#[trigger] outcomes@[j]) is None,
    {
        let ghost done = it.index() as int;
        assert(outcomes@[done] == outcome);
        match outcome {
            WorkerOutcome::Finished(Ok(output)) => {
                outputs.push(output);
            },
            WorkerOutcome::Finished(Err(e)) => {
                return Err(e);
            },
            WorkerOutcome::Panicked => {
                return Err(BackendError::execution("chunk worker panicked"));
            },
        }
        assert(outputs@ =~= delivered(outcomes@.take(done + 1)));
    }
    assert(outcomes@.take(outcomes@.len() as int) =~= outcomes@);
    Ok(sort_outputs(outputs))
}

/// The chunks to run once the payload request was prepared: `prepared` is the number of
/// transactions of its block, or the text of what is wrong with it.
pub fn plan_chunks(prepared: Result<usize, String>, config: &ChunkedL1Config) -> (r: Result<
    Vec<ChunkRange>,
    BackendError,
>)
    ensures
        match (prepared, r) {
            (Ok(tx_count), Ok(ranges)) => {
                &&& config.max_txs_per_chunk > 0
                &&& is_partition(ranges@, tx_count, config.max_txs_per_chunk)
            },
            (Ok(_), Err(e)) => {
                &&& config.max_txs_per_chunk == 0
                &&& e.text() == "max_txs_per_chunk must be greater than zero"@
            },
            (Err(text), Err(e)) => e.text() == text@,
            (Err(_), Ok(_)) => false,
        },
{
    match prepared {
        Ok(tx_count) => partition_chunk_ranges(tx_count, config.max_txs_per_chunk),
        Err(text) => Err(BackendError::Execution(text)),
    }
}

/// The input of the merge once all workers ended, beside the outputs themselves.
pub fn merge_input_from_workers<R, W>(
    new_payload_request: NewPayloadRequest<R>,
    execution_witness: W,
    header_bal: Vec<u8>,
    outcomes: Vec<WorkerOutcome>,
) -> (r: Result<(Vec<ChunkProgramOutput>, MergeProgramInput<R, W>), BackendError>)
    ensures
        match r {
            Ok((outputs, input)) => {
                &&& forall|i: int|
                    0 <= i < outcomes@.len() ==> worker_complaint(#[trigger] outcomes@[i]) is None
                &&& is_stable_sort(outputs@, delivered(outcomes@))
                &&& input.new_payload_request == new_payload_request
                &&& input.execution_witness == execution_witness
                &&& input.header_bal == header_bal
                &&& output_contents(input.chunk_outputs@) == output_contents(outputs@)
            },
            Err(e) => exists|i: int|
                {
                    &&& 0 <= i < outcomes@.len()
                    &&& worker_complaint(#[trigger] outcomes@[i]) == Some(e.text())
                    &&& forall|j: int|
                        0 <= j < i ==> worker_complaint(#[trigger] outcomes@[j]) is None
                },
        },
{
    let chunk_outputs = match join_workers(outcomes) {
        Ok(outputs) => outputs,
        Err(e) => {
            return Err(e);
        },
    };
    let copies = chunk_outputs.clone();
    assert(output_contents(copies@) =~= output_contents(chunk_outputs@));
    let input = MergeProgramInput {
        new_payload_request,
        execution_witness,
        header_bal,
        chunk_outputs: copies,
    };
    Ok((chunk_outputs, input))
}

/// The finished execution, if the merge went through; `merged` is its output or the text of its
/// error.
pub fn finish_execution<R, W>(
    chunk_outputs: Vec<ChunkProgramOutput>,
    merge_input: MergeProgramInput<R, W>,
    merged: Result<ProgramOutput, String>,
) -> (r: Result<ChunkedL1Execution<R, W>, BackendError>)
    ensures
        match (merged, r) {
            (Ok(output), Ok(execution)) => {
                &&& execution.chunk_outputs == chunk_outputs
                &&& execution.merge_input == merge_input
                &&& execution.merge_output == output
            },
            (Err(text), Err(e)) => e.text() == text@,
            _ => false,
        },
{
    match merged {
        Ok(merge_output) => Ok(ChunkedL1Execution { chunk_outputs, merge_input, merge_output }),
        Err(text) => Err(BackendError::Execution(text)),
    }
}

} // verus!
