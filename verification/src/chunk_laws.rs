//! Laws of the chunk program as a whole.

use crate::artifact::{
    accesses_ordered, addresses_ordered, misplaced_iff_not_following, ChunkProgramOutput,
};
use crate::chunk::{index16, ChunkAction, ChunkEvent, ChunkRun, ChunkStep};
use crate::gather::belongs;
use crate::hash::keccak256;
use crate::payload::BlockHeader;
use crate::primitives::H256;
use crate::rlp::RLPEncode;
use vstd::prelude::*;

verus! {

/// The states of a chunk run, from one event to the next.
pub open spec fn is_chunk_trace<B, E>(
    states: Seq<ChunkRun<B, E>>,
    events: Seq<ChunkEvent<B, E>>,
) -> bool {
    &&& states.len() == events.len() + 1
    &&& states[0].wf()
    &&& forall|i: int|
        0 <= i < events.len() ==> (#[trigger] states[i]).steps_to(events[i], states[i + 1])
            && states[i + 1].wf()
}

/// How many more events a chunk run waits for at most.
pub open spec fn chunk_work<B, E>(run: ChunkRun<B, E>) -> int {
    let left = run.tx_total() - run.executed().len();
    match run.stage() {
        ChunkStep::HeaderBal => 8 + 2 * left,
        ChunkStep::Witness => 7 + 2 * left,
        ChunkStep::BlockHashes => 6 + 2 * left,
        ChunkStep::SystemPhase => 5 + 2 * left,
        ChunkStep::Seed => 4 + 2 * left,
        ChunkStep::Senders => 3 + 2 * left,
        ChunkStep::Execute => 2 + 2 * left,
        ChunkStep::Validate => 3 + 2 * left,
        ChunkStep::Observation => 2,
        ChunkStep::Hashes => 1,
        ChunkStep::Finished => 0,
    }
}

/// Every event that a chunk run waits for brings it closer to its end, and a run with no work left
/// is finished: the program ends after at most eight events and two more per transaction.
pub proof fn chunk_run_makes_progress<B, E>(
    run: ChunkRun<B, E>,
    event: ChunkEvent<B, E>,
    next: ChunkRun<B, E>,
)
    requires
        run.wf(),
        run.expects(event),
        run.steps_to(event, next),
        next.wf(),
    ensures
        0 <= chunk_work(next) < chunk_work(run),
        chunk_work(next) == 0 <==> next.stage() == ChunkStep::Finished,
{
}

/// A finished chunk run stays as it is.
pub proof fn finished_chunk_run_stays<B, E>(
    run: ChunkRun<B, E>,
    event: ChunkEvent<B, E>,
    next: ChunkRun<B, E>,
)
    requires
        run.stage() == ChunkStep::Finished,
        run.steps_to(event, next),
    ensures
        next == run,
{
}

/// A transaction is validated at the block access list index at which it was executed, seeded
/// from the index of the transaction itself.
pub proof fn validation_follows_execution<B, E>(
    run: ChunkRun<B, E>,
    event: ChunkEvent<B, E>,
    next: ChunkRun<B, E>,
)
    requires
        run.wf(),
        run.stage() == ChunkStep::Execute,
        run.expects(event),
        run.failure(event) is None,
        run.steps_to(event, next),
    ensures
        run.pending() matches ChunkAction::ExecuteTx { tx_idx, bal_index, .. }
            && next.pending() == (ChunkAction::ValidateTx {
            bal_index,
            seed_index: index16(tx_idx as int),
        }),
{
}

/// Each summary of the output has the type of the transaction of the block that it is the summary
/// of.
pub open spec fn names_types<B, E>(output: ChunkProgramOutput, run: ChunkRun<B, E>) -> bool {
    forall|k: int|
        0 <= k < output.artifact.tx_summaries@.len() ==> (
        #[trigger] output.artifact.tx_summaries@[k]).tx_type == run.tx_type(run.first_tx() + k)
}

/// The output of a chunk run is well shaped, is that of the range the run was started with, names
/// the type of each transaction of the block, and commits to its artifact and to the block.
pub proof fn chunk_output_is_well_shaped<B, E>(
    run: ChunkRun<B, E>,
    block_hash: H256,
    bal_hash: H256,
    next: ChunkRun<B, E>,
    output: ChunkProgramOutput,
)
    requires
        run.wf(),
        run.stage() == ChunkStep::Hashes,
        run.steps_to(ChunkEvent::Hashed { block_hash, bal_hash }, next),
        next.ended() matches Some(Ok(o)) && o == output,
    ensures
        output.artifact.well_shaped(run.block_tx_count()),
        output.artifact.range == run.chunk_range(),
        names_types(output, run),
        belongs(output, block_hash, bal_hash),
{
    misplaced_iff_not_following(output.artifact.tx_summaries@, output.artifact.range.start_tx, 0);
}

/// The bounds of the range are indices, as they always are where `usize` has 64 bits.
pub open spec fn bounds_are_indices<B, E>(run: ChunkRun<B, E>) -> bool {
    run.chunk_range().start_tx <= usize::MAX && run.chunk_range().end_tx_exclusive <= usize::MAX
}

/// The last check of a chunk run can fail only on accesses that are not strictly ordered: range,
/// number and order of the summaries are right by then.
pub proof fn chunk_shape_fails_only_on_unordered_accesses<B, E>(run: ChunkRun<B, E>)
    requires
        run.wf(),
        run.stage() == ChunkStep::Hashes,
        bounds_are_indices(run),
    ensures
        run.gathered_complaint() is None <==> addresses_ordered(run.touched_addresses())
            && accesses_ordered(run.storage_accesses()),
        !addresses_ordered(run.touched_addresses()) ==> run.gathered_complaint() == Some(
            "observed touched addresses are not strictly ordered"@,
        ),
{
    misplaced_iff_not_following(run.executed(), run.chunk_range().start_tx, 0);
}

/// A chunk run ends with the error of the first event that reports a failure, whatever comes
/// after it.
pub proof fn first_failure_decides_chunk<B, E>(
    states: Seq<ChunkRun<B, E>>,
    events: Seq<ChunkEvent<B, E>>,
    i: int,
)
    requires
        is_chunk_trace(states, events),
        0 <= i < events.len(),
        states[i].expects(events[i]),
        states[i].failure(events[i]) is Some,
    ensures
        states.last().has_failed(states[i].failure(events[i])->0),
{
    assert(states[i].steps_to(events[i], states[i + 1]));
    chunk_stays_finished(states, events, i + 1, states.len() - 1);
}

/// A chunk run that ended does not change any more.
pub proof fn chunk_stays_finished<B, E>(
    states: Seq<ChunkRun<B, E>>,
    events: Seq<ChunkEvent<B, E>>,
    i: int,
    j: int,
)
    requires
        is_chunk_trace(states, events),
        0 <= i <= j < states.len(),
        states[i].stage() == ChunkStep::Finished,
    ensures
        states[j] == states[i],
    decreases j - i,
{
    if i < j {
        assert(states[i].steps_to(events[i], states[i + 1]));
        chunk_stays_finished(states, events, i + 1, j);
    }
}

/// A chunk run that ends well had no event that it waited for and that reports a failure, and its
/// output is well shaped, is that of the range the run was started with, names the type of each
/// transaction of the block, and carries the hash of its artifact.
pub proof fn successful_chunk_had_no_failure<B, E>(
    states: Seq<ChunkRun<B, E>>,
    events: Seq<ChunkEvent<B, E>>,
    output: ChunkProgramOutput,
)
    requires
        is_chunk_trace(states, events),
        states[0].stage() != ChunkStep::Finished,
        states.last().ended() matches Some(Ok(o)) && o == output,
    ensures
        forall|i: int|
            0 <= i < events.len() && (#[trigger] states[i]).expects(events[i])
                ==> states[i].failure(events[i]) is None,
        output.artifact.well_shaped(states[0].block_tx_count()),
        output.artifact.range == states[0].chunk_range(),
        names_types(output, states[0]),
        output.artifact_hash@ == keccak256(output.artifact.rlp()),
{
    assert forall|i: int|
        0 <= i < events.len() && (#[trigger] states[i]).expects(
            events[i],
        ) implies states[i].failure(events[i]) is None by {
        if states[i].failure(events[i]) is Some {
            first_failure_decides_chunk(states, events, i);
        }
    }
    chunk_trace_is_wf(states, events, states.len() - 1);
    let n = last_step(states, events, states.len() - 1);
    chunk_stays_finished(states, events, n + 1, states.len() - 1);
    chunk_identity_is_kept(states, events, n);
    chunk_trace_is_wf(states, events, n);
    assert(states[n].steps_to(events[n], states[n + 1]));
    finishing_step_makes_the_output(states[n], events[n], states[n + 1], output);
}

proof fn finishing_step_makes_the_output<B, E>(
    run: ChunkRun<B, E>,
    event: ChunkEvent<B, E>,
    next: ChunkRun<B, E>,
    output: ChunkProgramOutput,
)
    requires
        run.wf(),
        run.stage() != ChunkStep::Finished,
        run.steps_to(event, next),
        next.ended() matches Some(Ok(o)) && o == output,
    ensures
        output.artifact.well_shaped(run.block_tx_count()),
        output.artifact.range == run.chunk_range(),
        names_types(output, run),
        output.artifact_hash@ == keccak256(output.artifact.rlp()),
{
    match event {
        ChunkEvent::Hashed { block_hash, bal_hash } => {
            chunk_output_is_well_shaped(run, block_hash, bal_hash, next, output);
        },
        _ => {},
    }
}

/// Every state of a chunk run is one that the program can be in.
pub proof fn chunk_trace_is_wf<B, E>(
    states: Seq<ChunkRun<B, E>>,
    events: Seq<ChunkEvent<B, E>>,
    j: int,
)
    requires
        is_chunk_trace(states, events),
        0 <= j < states.len(),
    ensures
        states[j].wf(),
{
    if j > 0 {
        assert(states[j - 1].steps_to(events[j - 1], states[j - 1 + 1]));
    }
}

/// Whatever summaries a chunk run holds at some point are in its output, in the same order and
/// from the first transaction on: no report is lost, replaced or moved.
pub proof fn recorded_summaries_reach_the_output<B, E>(
    states: Seq<ChunkRun<B, E>>,
    events: Seq<ChunkEvent<B, E>>,
    output: ChunkProgramOutput,
    i: int,
)
    requires
        is_chunk_trace(states, events),
        states[0].stage() != ChunkStep::Finished,
        states.last().ended() matches Some(Ok(o)) && o == output,
        0 <= i < states.len(),
        states[i].stage() != ChunkStep::Finished,
    ensures
        states[i].executed().is_prefix_of(output.artifact.tx_summaries@),
{
    chunk_trace_is_wf(states, events, states.len() - 1);
    let n = last_step(states, events, states.len() - 1);
    chunk_stays_finished(states, events, n + 1, states.len() - 1);
    chunk_trace_is_wf(states, events, n);
    assert(states[n].steps_to(events[n], states[n + 1]));
    if i > n {
        chunk_stays_finished(states, events, n + 1, i);
    }
    summaries_are_kept(states, events, i, n);
}

/// The summaries that a chunk run holds are the first ones that it holds later on.
pub proof fn summaries_are_kept<B, E>(
    states: Seq<ChunkRun<B, E>>,
    events: Seq<ChunkEvent<B, E>>,
    i: int,
    j: int,
)
    requires
        is_chunk_trace(states, events),
        0 <= i <= j < states.len(),
        states[j].stage() != ChunkStep::Finished,
    ensures
        states[i].executed().is_prefix_of(states[j].executed()),
    decreases j - i,
{
    if i < j {
        chunk_trace_is_wf(states, events, j - 1);
        chunk_trace_is_wf(states, events, j);
        assert(states[j - 1].steps_to(events[j - 1], states[j - 1 + 1]));
        if states[j - 1].stage() == ChunkStep::Finished {
            finished_chunk_run_stays(states[j - 1], events[j - 1], states[j]);
        }
        summaries_are_kept(states, events, i, j - 1);
    }
}

/// Whenever a chunk run has something decoded or hashed, it is by these functions and on its input.
pub open spec fn chunk_reads_with<
    B,
    E,
    D: Fn(&Vec<u8>) -> Result<B, String>,
    H: Fn(&BlockHeader) -> H256,
    G: Fn(&B) -> H256,
>(
    states: Seq<ChunkRun<B, E>>,
    events: Seq<ChunkEvent<B, E>>,
    decode: D,
    hash_header: H,
    hash_bal: G,
) -> bool {
    forall|i: int|
        0 <= i < events.len() && (#[trigger] states[i]).expects(events[i]) ==> match events[i] {
            ChunkEvent::Decoded(decoded) => decode.ensures((&states[i].encoded_bal(),), decoded),
            ChunkEvent::Hashed { block_hash, bal_hash } => {
                &&& hash_header.ensures((&states[i].chunk_block().header,), block_hash)
                &&& hash_bal.ensures((&states[i].decoded_bal()->0,), bal_hash)
            },
            ChunkEvent::Reply(_) => true,
        }
}

/// The output of a chunk run is bound to its input: the block hash is that of the header of the
/// block, and the hash of the block access list that of what the encoded list decodes to.
pub proof fn successful_chunk_is_bound_to_its_input<
    B,
    E,
    D: Fn(&Vec<u8>) -> Result<B, String>,
    H: Fn(&BlockHeader) -> H256,
    G: Fn(&B) -> H256,
>(
    states: Seq<ChunkRun<B, E>>,
    events: Seq<ChunkEvent<B, E>>,
    decode: D,
    hash_header: H,
    hash_bal: G,
    output: ChunkProgramOutput,
)
    requires
        is_chunk_trace(states, events),
        states[0].stage() == ChunkStep::HeaderBal,
        chunk_reads_with(states, events, decode, hash_header, hash_bal),
        states.last().ended() matches Some(Ok(o)) && o == output,
    ensures
        hash_header.ensures((&states[0].chunk_block().header,), output.artifact.block_hash),
        exists|bal: B| #[trigger]
            decode.ensures((&states[0].encoded_bal(),), Ok(bal)) && hash_bal.ensures(
                (&bal,),
                output.artifact.bal_hash,
            ),
{
    chunk_trace_is_wf(states, events, states.len() - 1);
    let n = last_step(states, events, states.len() - 1);
    chunk_stays_finished(states, events, n + 1, states.len() - 1);
    chunk_identity_is_kept(states, events, n);
    chunk_trace_is_wf(states, events, n);
    assert(states[n].steps_to(events[n], states[n + 1]));
    if states[n].stage() != ChunkStep::HeaderBal {
        bal_comes_from_the_input(states, events, decode, hash_header, hash_bal, n);
    }
    assert(decode.ensures((&states[0].encoded_bal(),), Ok(states[n].decoded_bal()->0)));
}

proof fn bal_comes_from_the_input<
    B,
    E,
    D: Fn(&Vec<u8>) -> Result<B, String>,
    H: Fn(&BlockHeader) -> H256,
    G: Fn(&B) -> H256,
>(
    states: Seq<ChunkRun<B, E>>,
    events: Seq<ChunkEvent<B, E>>,
    decode: D,
    hash_header: H,
    hash_bal: G,
    j: int,
)
    requires
        is_chunk_trace(states, events),
        states[0].stage() == ChunkStep::HeaderBal,
        chunk_reads_with(states, events, decode, hash_header, hash_bal),
        0 <= j < states.len(),
        states[j].stage() != ChunkStep::HeaderBal,
        states[j].stage() != ChunkStep::Finished,
    ensures
        states[j].decoded_bal() is Some,
        decode.ensures((&states[0].encoded_bal(),), Ok(states[j].decoded_bal()->0)),
    decreases j,
{
    let i = j - 1;
    chunk_trace_is_wf(states, events, j);
    chunk_trace_is_wf(states, events, i);
    chunk_identity_is_kept(states, events, i);
    assert(states[i].steps_to(events[i], states[i + 1]));
    if states[i].stage() != ChunkStep::HeaderBal {
        bal_comes_from_the_input(states, events, decode, hash_header, hash_bal, i);
    }
}

/// If every event is one that the run waits for and none reports a failure, a finished chunk run
/// ended with an output exactly if the accesses that were recorded are strictly ordered.
pub proof fn unfailing_chunk_succeeds_on_ordered_accesses<B, E>(
    states: Seq<ChunkRun<B, E>>,
    events: Seq<ChunkEvent<B, E>>,
)
    requires
        is_chunk_trace(states, events),
        states[0].stage() == ChunkStep::HeaderBal,
        bounds_are_indices(states[0]),
        forall|i: int|
            0 <= i < events.len() ==> (#[trigger] states[i]).expects(events[i])
                && states[i].failure(events[i]) is None,
        states.last().stage() == ChunkStep::Finished,
    ensures
        states.last().ended() matches Some(Ok(_)) <==> addresses_ordered(
            states[states.len() - 2].touched_addresses(),
        ) && accesses_ordered(states[states.len() - 2].storage_accesses()),
{
    let n = states.len() - 2;
    chunk_trace_is_wf(states, events, n);
    chunk_identity_is_kept(states, events, n);
    assert(states[n].expects(events[n]));
    assert(states[n].steps_to(events[n], states[n + 1]));
    chunk_shape_fails_only_on_unordered_accesses(states[n]);
}

/// The step that finishes a run.
pub proof fn last_step<B, E>(
    states: Seq<ChunkRun<B, E>>,
    events: Seq<ChunkEvent<B, E>>,
    j: int,
) -> (n: int)
    requires
        is_chunk_trace(states, events),
        states[0].stage() != ChunkStep::Finished,
        0 <= j < states.len(),
        states[j].stage() == ChunkStep::Finished,
    ensures
        0 <= n < j,
        states[n].stage() != ChunkStep::Finished,
        states[n + 1].stage() == ChunkStep::Finished,
    decreases j,
{
    if states[j - 1].stage() == ChunkStep::Finished {
        last_step(states, events, j - 1)
    } else {
        j - 1
    }
}

/// A chunk run keeps its block, its encoded block access list and its range.
pub proof fn chunk_identity_is_kept<B, E>(
    states: Seq<ChunkRun<B, E>>,
    events: Seq<ChunkEvent<B, E>>,
    j: int,
)
    requires
        is_chunk_trace(states, events),
        0 <= j < states.len(),
    ensures
        states[0].same_input(states[j]),
    decreases j,
{
    if j > 0 {
        chunk_identity_is_kept(states, events, j - 1);
        assert(states[j - 1].steps_to(events[j - 1], states[j - 1 + 1]));
    }
}

} // verus!
