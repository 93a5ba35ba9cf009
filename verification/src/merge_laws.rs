//! Laws of the merge program as a whole, and of chunk outputs that go into it.

use crate::artifact::{
    output_contents, summary_contents, CanonicalChunkArtifact, ChunkProgramOutput,
};
use crate::chunk::{observed_accesses, observed_addresses, ChunkEvent, ChunkRun, ChunkStep};
use crate::chunk_laws::chunk_output_is_well_shaped;
use crate::commitment_laws::{
    artifact_content_determines_encoding, artifact_encoding_is_injective,
};
use crate::coverage::{complains_iff_not_covered, coverage_complaint, covers, follows};
use crate::error::ExecutionError;
use crate::gather::{
    all_accessed, all_belong, all_summaries, all_touched, belongs, output_complaint,
    outputs_complaint, outputs_complaint_from,
};
use crate::hash::keccak256;
use crate::laws::{gathered_chunks_cover_the_block, partition_covers_the_block};
use crate::merge::{
    bal_is_read, rank, MergeAction, MergeEvent, MergeReply, MergeRun, MergeStep, PreparedRequest,
    ProgramOutput,
};
use crate::payload::BlockHeader;
use crate::primitives::H256;
use crate::prover::{delivered, is_partition, is_stable_sort, WorkerOutcome};
use crate::range::ChunkRange;
use crate::rlp::RLPEncode;
use crate::rlp_laws::length_limit;
use crate::summary::{
    block_gas, receipts_result, total_regular_gas, total_state_gas, Receipt, TxExecutionSummary,
};
use crate::summary_laws::{content_determines_receipts, reads_bytes_alone};
use vstd::prelude::*;

verus! {

/// The states of a merge run, from one event to the next.
pub open spec fn is_merge_trace<B, E, T, L>(
    states: Seq<MergeRun<B, E, T, L>>,
    events: Seq<MergeEvent<B, E, T, L>>,
) -> bool {
    &&& states.len() == events.len() + 1
    &&& states[0].wf()
    &&& forall|i: int|
        0 <= i < events.len() ==> (#[trigger] states[i]).steps_to(events[i], states[i + 1])
            && states[i + 1].wf()
}

/// Every event that a merge run waits for takes it to a later stage, so the program ends after at
/// most as many events as there are stages.
pub proof fn merge_run_makes_progress<B, E, T, L>(
    run: MergeRun<B, E, T, L>,
    event: MergeEvent<B, E, T, L>,
    next: MergeRun<B, E, T, L>,
)
    requires
        run.expects(event),
        run.steps_to(event, next),
    ensures
        rank(run.stage()) < rank(next.stage()) <= rank(MergeStep::Finished),
{
}

/// A finished merge run stays as it is.
pub proof fn finished_merge_run_stays<B, E, T, L>(
    run: MergeRun<B, E, T, L>,
    event: MergeEvent<B, E, T, L>,
    next: MergeRun<B, E, T, L>,
)
    requires
        run.stage() == MergeStep::Finished,
        run.steps_to(event, next),
    ensures
        next == run,
{
}

/// The gas that the merge program has validated is that of all transactions of all chunks.
pub proof fn merge_meters_every_chunk<B, E, T, L>(run: MergeRun<B, E, T, L>)
    requires
        run.wf(),
        run.stage() == MergeStep::Gas,
    ensures
        run.pending() == (MergeAction::ValidateGas {
            gas: block_gas(all_summaries(run.chunk_outputs())),
        }),
{
    content_determines_gas(run.gathered(), all_summaries(run.chunk_outputs()));
}

/// Summaries with the same contents have the same block gas.
pub proof fn content_determines_gas(a: Seq<TxExecutionSummary>, b: Seq<TxExecutionSummary>)
    requires
        summary_contents(a) == summary_contents(b),
    ensures
        total_regular_gas(a) == total_regular_gas(b),
        total_state_gas(a) == total_state_gas(b),
        block_gas(a) == block_gas(b),
    decreases a.len(),
{
    assert(a.len() == summary_contents(a).len());
    assert(b.len() == summary_contents(b).len());
    if a.len() > 0 {
        assert(a.last()@ == summary_contents(a).last());
        assert(b.last()@ == summary_contents(b).last());
        assert(a.last()@.gas_used == a.last().gas_used);
        assert(summary_contents(a.drop_last()) =~= summary_contents(a).drop_last());
        assert(summary_contents(b.drop_last()) =~= summary_contents(b).drop_last());
        content_determines_gas(a.drop_last(), b.drop_last());
    }
}

/// Every state of a merge run is one that the program can be in, and goes over to the next one.
pub proof fn merge_trace_is_wf<B, E, T, L>(
    states: Seq<MergeRun<B, E, T, L>>,
    events: Seq<MergeEvent<B, E, T, L>>,
    j: int,
)
    requires
        is_merge_trace(states, events),
        0 <= j < states.len(),
    ensures
        states[j].wf(),
        j < events.len() ==> states[j].steps_to(events[j], states[j + 1]),
{
    if j > 0 {
        assert(states[j - 1].steps_to(events[j - 1], states[j - 1 + 1]));
    }
}

/// A merge run that ended does not change any more.
pub proof fn merge_stays_finished<B, E, T, L>(
    states: Seq<MergeRun<B, E, T, L>>,
    events: Seq<MergeEvent<B, E, T, L>>,
    i: int,
    j: int,
)
    requires
        is_merge_trace(states, events),
        0 <= i <= j < states.len(),
        states[i].stage() == MergeStep::Finished,
    ensures
        states[j] == states[i],
    decreases j - i,
{
    if i < j {
        merge_trace_is_wf(states, events, i);
        merge_stays_finished(states, events, i + 1, j);
    }
}

/// A merge run ends with the error of the first event that fails it, whatever comes after it.
pub proof fn first_failure_decides_merge<B, E, T, L>(
    states: Seq<MergeRun<B, E, T, L>>,
    events: Seq<MergeEvent<B, E, T, L>>,
    i: int,
)
    requires
        is_merge_trace(states, events),
        0 <= i < events.len(),
        states[i].expects(events[i]),
        states[i].failure(events[i]) is Some,
    ensures
        states.last().has_failed(states[i].failure(events[i])->0),
{
    merge_trace_is_wf(states, events, i);
    merge_stays_finished(states, events, i + 1, states.len() - 1);
}

/// At `i` the run is at the stage `step`, and the event lets it go on.
pub open spec fn passes<B, E, T, L>(
    states: Seq<MergeRun<B, E, T, L>>,
    events: Seq<MergeEvent<B, E, T, L>>,
    i: int,
    step: MergeStep,
) -> bool {
    &&& 0 <= i < events.len()
    &&& states[i].stage() == step
    &&& states[i].expects(events[i])
    &&& states[i].failure(events[i]) is None
}

/// The stages that no run leaves out. The others apply updates, if there are any, and process
/// withdrawals, if the block has them.
pub open spec fn is_mandatory(step: MergeStep) -> bool {
    &&& step != MergeStep::TxApply
    &&& step != MergeStep::Withdrawals
    &&& step != MergeStep::PostApply
    &&& step != MergeStep::Finished
}

/// A run that got beyond a mandatory stage without an error passed it.
pub proof fn stage_was_passed<B, E, T, L>(
    states: Seq<MergeRun<B, E, T, L>>,
    events: Seq<MergeEvent<B, E, T, L>>,
    n: int,
    step: MergeStep,
) -> (i: int)
    requires
        is_merge_trace(states, events),
        states[0].stage() == MergeStep::HeaderBal,
        0 <= n < states.len(),
        is_mandatory(step),
        rank(step) < rank(states[n].stage()),
        !(states[n].ended() matches Some(Err(_))),
    ensures
        i < n,
        passes(states, events, i, step),
    decreases n,
{
    merge_trace_is_wf(states, events, n - 1);
    let run = states[n - 1];
    let event = events[n - 1];
    if run.stage() == step {
        n - 1
    } else {
        step_leaves_out_nothing(run, event, states[n], step);
        stage_was_passed(states, events, n - 1, step)
    }
}

proof fn step_leaves_out_nothing<B, E, T, L>(
    run: MergeRun<B, E, T, L>,
    event: MergeEvent<B, E, T, L>,
    next: MergeRun<B, E, T, L>,
    step: MergeStep,
)
    requires
        run.wf(),
        run.steps_to(event, next),
        is_mandatory(step),
        run.stage() != step,
        rank(step) < rank(next.stage()),
        !(next.ended() matches Some(Err(_))),
    ensures
        rank(step) < rank(run.stage()),
        !(run.ended() matches Some(Err(_))),
{
}

/// A merge run that ends well passed every mandatory stage, no event failed it, and its output
/// says that the request is valid.
pub proof fn accepted_merge_passed_every_stage<B, E, T, L>(
    states: Seq<MergeRun<B, E, T, L>>,
    events: Seq<MergeEvent<B, E, T, L>>,
    output: ProgramOutput,
)
    requires
        is_merge_trace(states, events),
        states[0].stage() == MergeStep::HeaderBal,
        states.last().ended() == Some(
            Ok::<ProgramOutput, ExecutionError<E>>(output),
        ),
    ensures
        forall|step: MergeStep|
            is_mandatory(step) ==> exists|i: int| #[trigger] passes(states, events, i, step),
        forall|i: int|
            0 <= i < events.len() && (#[trigger] states[i]).expects(events[i])
                ==> states[i].failure(events[i]) is None,
        output.valid,
{
    let n = states.len() - 1;
    merge_trace_is_wf(states, events, n);
    assert forall|step: MergeStep| is_mandatory(step) implies exists|i: int|
        #[trigger] passes(states, events, i, step) by {
        let i = stage_was_passed(states, events, n, step);
    }
    assert forall|i: int|
        0 <= i < events.len() && (#[trigger] states[i]).expects(
            events[i],
        ) implies states[i].failure(events[i]) is None by {
        if states[i].failure(events[i]) is Some {
            first_failure_decides_merge(states, events, i);
        }
    }
    let f = stage_was_passed(states, events, n, MergeStep::FinalRoot);
    merge_trace_is_wf(states, events, f);
    merge_stays_finished(states, events, f + 1, n);
}

/// If every event is one that the run waits for and none fails it, a finished merge run ended well.
pub proof fn unfailing_merge_is_accepted<B, E, T, L>(
    states: Seq<MergeRun<B, E, T, L>>,
    events: Seq<MergeEvent<B, E, T, L>>,
)
    requires
        is_merge_trace(states, events),
        states[0].stage() == MergeStep::HeaderBal,
        forall|i: int|
            0 <= i < events.len() ==> (#[trigger] states[i]).expects(events[i])
                && states[i].failure(events[i]) is None,
        states.last().stage() == MergeStep::Finished,
    ensures
        states.last().ended() matches Some(Ok(output)) && output.valid,
{
    let n = states.len() - 2;
    merge_trace_is_wf(states, events, n);
    assert(states[n].expects(events[n]));
}

/// What a run knows is kept: the later of two states, before the end, agrees with the earlier one
/// on everything that was settled by then.
proof fn facts_are_kept<B, E, T, L>(
    states: Seq<MergeRun<B, E, T, L>>,
    events: Seq<MergeEvent<B, E, T, L>>,
    i: int,
    j: int,
)
    requires
        is_merge_trace(states, events),
        0 <= i <= j < states.len(),
        states[j].stage() != MergeStep::Finished,
    ensures
        states[i].stage() != MergeStep::Finished,
        rank(states[i].stage()) <= rank(states[j].stage()),
        states[j].chunk_outputs() == states[i].chunk_outputs(),
        states[j].encoded_bal() == states[i].encoded_bal(),
        rank(MergeStep::HeaderBal) < rank(states[i].stage()) ==> states[j].header_bal_hash()
            == states[i].header_bal_hash(),
        rank(MergeStep::Request) < rank(states[i].stage()) ==> states[j].request()
            == states[i].request(),
        rank(MergeStep::Parent) < rank(states[i].stage()) ==> states[j].parent_state_root()
            == states[i].parent_state_root(),
        rank(MergeStep::BlockHash) < rank(states[i].stage()) ==> states[j].expected_block_hash()
            == states[i].expected_block_hash(),
        rank(MergeStep::Receipts) < rank(states[i].stage()) ==> states[j].block_receipts()
            == states[i].block_receipts(),
        rank(MergeStep::BlockHash) < rank(states[i].stage()) && rank(states[j].stage()) <= rank(
            MergeStep::PreObservation,
        ) ==> {
            &&& states[j].touched() == states[i].touched()
            &&& states[j].accessed() == states[i].accessed()
        },
        rank(MergeStep::PreObservation) < rank(states[i].stage()) && rank(states[j].stage())
            <= rank(MergeStep::PostObservation) ==> {
            &&& states[j].touched() == states[i].touched()
            &&& states[j].accessed() == states[i].accessed()
        },
        rank(MergeStep::PostObservation) < rank(states[i].stage()) ==> {
            &&& states[j].touched() == states[i].touched()
            &&& states[j].accessed() == states[i].accessed()
        },
    decreases j - i,
{
    if i < j {
        merge_trace_is_wf(states, events, j - 1);
        merge_trace_is_wf(states, events, j);
        step_keeps_facts(states[j - 1], events[j - 1], states[j]);
        facts_are_kept(states, events, i, j - 1);
    }
}

proof fn step_keeps_facts<B, E, T, L>(
    run: MergeRun<B, E, T, L>,
    event: MergeEvent<B, E, T, L>,
    next: MergeRun<B, E, T, L>,
)
    requires
        run.steps_to(event, next),
        run.wf(),
        next.wf(),
        next.stage() != MergeStep::Finished,
    ensures
        run.stage() != MergeStep::Finished,
        rank(run.stage()) <= rank(next.stage()),
        next.chunk_outputs() == run.chunk_outputs(),
        next.encoded_bal() == run.encoded_bal(),
        run.stage() != MergeStep::HeaderBal ==> next.header_bal_hash() == run.header_bal_hash(),
        run.stage() != MergeStep::Request ==> next.request() == run.request(),
        run.stage() != MergeStep::Parent ==> next.parent_state_root() == run.parent_state_root(),
        run.stage() != MergeStep::BlockHash ==> next.expected_block_hash()
            == run.expected_block_hash(),
        run.stage() != MergeStep::Receipts ==> next.block_receipts() == run.block_receipts(),
        run.stage() != MergeStep::BlockHash && run.stage() != MergeStep::PreObservation
            && run.stage() != MergeStep::PostObservation ==> {
            &&& next.touched() == run.touched()
            &&& next.accessed() == run.accessed()
        },
        run.stage() == MergeStep::PreObservation && next.stage() != run.stage() ==> rank(
            next.stage(),
        ) > rank(MergeStep::PreObservation),
{
}

/// What an accepted merge run established, in terms of what it was told: the outputs
/// cover the block of the request, carry the hashes of their artifacts, and belong to the block
/// and its access list; the state started from the root of the parent block and ended at the root
/// in the header; and the output of the program names the root of the request.
pub proof fn accepted_merge_established<B, E, T, L>(
    states: Seq<MergeRun<B, E, T, L>>,
    events: Seq<MergeEvent<B, E, T, L>>,
    output: ProgramOutput,
    decoded: int,
    prepared: int,
    parent: int,
    initial: int,
    hashed: int,
    last: int,
)
    requires
        is_merge_trace(states, events),
        states[0].stage() == MergeStep::HeaderBal,
        states.last().ended() == Some(
            Ok::<ProgramOutput, ExecutionError<E>>(output),
        ),
        passes(states, events, decoded, MergeStep::HeaderBal),
        passes(states, events, prepared, MergeStep::Request),
        passes(states, events, parent, MergeStep::Parent),
        passes(states, events, initial, MergeStep::InitialRoot),
        passes(states, events, hashed, MergeStep::BlockHash),
        passes(states, events, last, MergeStep::FinalRoot),
    ensures
        events[decoded] matches MergeEvent::Decoded(Ok((_, bal_hash)))
            && events[hashed] matches MergeEvent::Hashed(block_hash)
            && all_belong(states[0].chunk_outputs(), block_hash, bal_hash),
        events[prepared] matches MergeEvent::Reply(MergeReply::Prepared(Ok(request))) && covers(
            states[0].chunk_outputs(),
            request.block.body.transactions@.len() as usize,
        ) && events[last] == MergeEvent::<B, E, T, L>::Reply(
            MergeReply::Root(Ok(request.block.header.state_root)),
        ) && output == (ProgramOutput {
            new_payload_request_root: request.new_payload_request_root,
            valid: true,
        }),
        events[parent] matches MergeEvent::Reply(MergeReply::Root(Ok(root))) && events[initial]
            == MergeEvent::<B, E, T, L>::Reply(MergeReply::Root(Ok(root))),
{
    follows_in_order(states, events, decoded, last);
    follows_in_order(states, events, prepared, last);
    follows_in_order(states, events, hashed, last);
    follows_in_order(states, events, parent, initial);
    merge_trace_is_wf(states, events, decoded);
    merge_trace_is_wf(states, events, prepared);
    merge_trace_is_wf(states, events, parent);
    merge_trace_is_wf(states, events, initial);
    merge_trace_is_wf(states, events, hashed);
    merge_trace_is_wf(states, events, last);
    facts_are_kept(states, events, decoded + 1, last);
    facts_are_kept(states, events, prepared + 1, last);
    facts_are_kept(states, events, hashed + 1, last);
    facts_are_kept(states, events, parent + 1, initial);
    facts_are_kept(states, events, 0, last);
    merge_stays_finished(states, events, last + 1, states.len() - 1);
}

/// Whenever a merge run has something decoded or hashed, it is by these functions, on the encoded
/// block access list of its input and on the header of the block of the request.
pub open spec fn merge_reads_with<
    B,
    E,
    T,
    L,
    D: Fn(&Vec<u8>) -> Result<B, String>,
    H: Fn(&BlockHeader) -> H256,
    G: Fn(&B) -> H256,
>(
    states: Seq<MergeRun<B, E, T, L>>,
    events: Seq<MergeEvent<B, E, T, L>>,
    decode: D,
    hash_header: H,
    hash_bal: G,
) -> bool {
    forall|i: int|
        0 <= i < events.len() && (#[trigger] states[i]).expects(events[i]) ==> match events[i] {
            MergeEvent::Decoded(decoded) => bal_is_read(
                states[i].encoded_bal(),
                decode,
                hash_bal,
                decoded,
            ),
            MergeEvent::Hashed(block_hash) => hash_header.ensures(
                (&states[i].block().header,),
                block_hash,
            ),
            _ => true,
        }
}

/// A merge run that compared the outputs with the block is bound to its input: the outputs commit
/// to the hash of the header of the block of the request, and to the hash of what the encoded block
/// access list decodes to.
pub proof fn merge_is_bound_to_its_input<
    B,
    E,
    T,
    L,
    D: Fn(&Vec<u8>) -> Result<B, String>,
    H: Fn(&BlockHeader) -> H256,
    G: Fn(&B) -> H256,
>(
    states: Seq<MergeRun<B, E, T, L>>,
    events: Seq<MergeEvent<B, E, T, L>>,
    decode: D,
    hash_header: H,
    hash_bal: G,
    decoded: int,
    prepared: int,
    hashed: int,
)
    requires
        is_merge_trace(states, events),
        merge_reads_with(states, events, decode, hash_header, hash_bal),
        passes(states, events, decoded, MergeStep::HeaderBal),
        passes(states, events, prepared, MergeStep::Request),
        passes(states, events, hashed, MergeStep::BlockHash),
    ensures
        events[decoded] matches MergeEvent::Decoded(Ok((bal, bal_hash)))
            && events[hashed] matches MergeEvent::Hashed(block_hash)
            && events[prepared] matches MergeEvent::Reply(MergeReply::Prepared(Ok(request))) && {
            &&& decode.ensures((&states[0].encoded_bal(),), Ok(bal))
            &&& hash_bal.ensures((&bal,), bal_hash)
            &&& hash_header.ensures((&request.block.header,), block_hash)
            &&& all_belong(states[0].chunk_outputs(), block_hash, bal_hash)
        },
{
    follows_in_order(states, events, decoded, hashed);
    follows_in_order(states, events, prepared, hashed);
    merge_trace_is_wf(states, events, decoded);
    merge_trace_is_wf(states, events, prepared);
    merge_trace_is_wf(states, events, hashed);
    facts_are_kept(states, events, 0, decoded);
    facts_are_kept(states, events, 0, hashed);
    facts_are_kept(states, events, decoded + 1, hashed);
    facts_are_kept(states, events, prepared + 1, hashed);
    outputs_complain_iff_foreign(
        states[hashed].chunk_outputs(),
        events[hashed]->Hashed_0,
        states[hashed].header_bal_hash(),
    );
}

/// Of two states before the end, the one at the earlier stage comes first.
proof fn follows_in_order<B, E, T, L>(
    states: Seq<MergeRun<B, E, T, L>>,
    events: Seq<MergeEvent<B, E, T, L>>,
    i: int,
    j: int,
)
    requires
        is_merge_trace(states, events),
        0 <= i < states.len(),
        0 <= j < states.len(),
        states[i].stage() != MergeStep::Finished,
        rank(states[i].stage()) < rank(states[j].stage()),
    ensures
        i < j,
{
    if j < i {
        facts_are_kept(states, events, j, i);
    }
}

/// The accesses that are validated against the block access list are all that were observed: by
/// the chunks, before the transactions and after them.
pub proof fn every_observed_access_is_validated<B, E, T, L>(
    states: Seq<MergeRun<B, E, T, L>>,
    events: Seq<MergeEvent<B, E, T, L>>,
    hashed: int,
    before: int,
    after: int,
    validated: int,
)
    requires
        is_merge_trace(states, events),
        passes(states, events, hashed, MergeStep::BlockHash),
        passes(states, events, before, MergeStep::PreObservation),
        passes(states, events, after, MergeStep::PostObservation),
        passes(states, events, validated, MergeStep::RawAccesses),
    ensures
        events[before] matches MergeEvent::Reply(MergeReply::Observed(early))
            && events[after] matches MergeEvent::Reply(MergeReply::Observed(late)) && {
            &&& states[validated].touched() == all_touched(states[0].chunk_outputs())
                + observed_addresses(early) + observed_addresses(late)
            &&& states[validated].accessed() == all_accessed(states[0].chunk_outputs())
                + observed_accesses(early) + observed_accesses(late)
        },
{
    follows_in_order(states, events, hashed, before);
    follows_in_order(states, events, before, after);
    follows_in_order(states, events, after, validated);
    merge_trace_is_wf(states, events, hashed);
    merge_trace_is_wf(states, events, before);
    merge_trace_is_wf(states, events, after);
    facts_are_kept(states, events, 0, hashed);
    facts_are_kept(states, events, hashed + 1, before);
    facts_are_kept(states, events, before + 1, after);
    facts_are_kept(states, events, after + 1, validated);
}

/// Whenever the receipts are built, they are built with `kind_of` and `decode`.
pub open spec fn builds_with<
    B,
    E,
    T,
    L,
    K: Fn(u8) -> Option<T>,
    D: Fn(&Vec<u8>) -> Result<L, String>,
>(
    states: Seq<MergeRun<B, E, T, L>>,
    events: Seq<MergeEvent<B, E, T, L>>,
    kind_of: K,
    decode: D,
) -> bool {
    forall|i: int|
        0 <= i < events.len() ==> match #[trigger] events[i] {
            MergeEvent::Built(built) => receipts_result(
                states[i].gathered(),
                kind_of,
                decode,
                built,
            ),
            _ => true,
        }
}

/// The receipts that a merge run builds are those of all transactions of all chunks, provided
/// that the decoder of the logs looks at their bytes alone.
pub proof fn merge_builds_the_receipts_of_every_chunk<
    B,
    E,
    T,
    L,
    K: Fn(u8) -> Option<T>,
    D: Fn(&Vec<u8>) -> Result<L, String>,
>(run: MergeRun<B, E, T, L>, kind_of: K, decode: D, built: Result<Vec<Receipt<T, L>>, String>)
    requires
        run.wf(),
        run.stage() == MergeStep::Receipts,
        reads_bytes_alone(decode),
    ensures
        receipts_result(run.gathered(), kind_of, decode, built) <==> receipts_result(
            all_summaries(run.chunk_outputs()),
            kind_of,
            decode,
            built,
        ),
{
    let all = all_summaries(run.chunk_outputs());
    if receipts_result(run.gathered(), kind_of, decode, built) {
        content_determines_receipts(run.gathered(), all, kind_of, decode, built);
    }
    if receipts_result(all, kind_of, decode, built) {
        content_determines_receipts(all, run.gathered(), kind_of, decode, built);
    }
}

/// What a merge run that got through its gas and receipts established: receipts could be built from
/// the summaries of all chunks; these receipts are the ones that were validated against the header
/// and that the requests were extracted from; and the gas that was validated is that of the
/// summaries of all chunks.
pub proof fn merge_validated_gas_and_receipts<
    B,
    E,
    T,
    L,
    K: Fn(u8) -> Option<T>,
    D: Fn(&Vec<u8>) -> Result<L, String>,
>(
    states: Seq<MergeRun<B, E, T, L>>,
    events: Seq<MergeEvent<B, E, T, L>>,
    kind_of: K,
    decode: D,
    built: int,
    metered: int,
    rooted: int,
    extracted: int,
)
    requires
        is_merge_trace(states, events),
        builds_with(states, events, kind_of, decode),
        reads_bytes_alone(decode),
        passes(states, events, built, MergeStep::Receipts),
        passes(states, events, metered, MergeStep::Gas),
        passes(states, events, rooted, MergeStep::ReceiptsRoot),
        passes(states, events, extracted, MergeStep::Requests),
    ensures
        events[built] matches MergeEvent::Built(Ok(receipts)) && {
            &&& receipts_result(
                all_summaries(states[0].chunk_outputs()),
                kind_of,
                decode,
                Ok(receipts),
            )
            &&& states[rooted].block_receipts() == receipts@
            &&& states[extracted].block_receipts() == receipts@
        },
        states[metered].pending() == (MergeAction::ValidateGas {
            gas: block_gas(all_summaries(states[0].chunk_outputs())),
        }),
        events[metered] == MergeEvent::<B, E, T, L>::Reply(MergeReply::Done(Ok(()))),
        states[rooted].pending() == MergeAction::ValidateReceiptsRoot,
        events[rooted] == MergeEvent::<B, E, T, L>::Reply(MergeReply::Done(Ok(()))),
{
    receipts_were_built(states, events, kind_of, decode, built);
    receipts_are_kept(states, events, built, rooted);
    receipts_are_kept(states, events, built, extracted);
    merge_trace_is_wf(states, events, metered);
    facts_are_kept(states, events, 0, metered);
    merge_meters_every_chunk(states[metered]);
    done_passes(states[metered], events[metered]);
    done_passes(states[rooted], events[rooted]);
}

proof fn done_passes<B, E, T, L>(run: MergeRun<B, E, T, L>, event: MergeEvent<B, E, T, L>)
    requires
        run.stage() == MergeStep::Gas || run.stage() == MergeStep::ReceiptsRoot,
        run.expects(event),
        run.failure(event) is None,
    ensures
        event == MergeEvent::<B, E, T, L>::Reply(MergeReply::Done(Ok(()))),
{
    match event {
        MergeEvent::Reply(MergeReply::Done(Ok(done))) => {
            assert(done == ());
        },
        _ => {},
    }
}

proof fn receipts_were_built<
    B,
    E,
    T,
    L,
    K: Fn(u8) -> Option<T>,
    D: Fn(&Vec<u8>) -> Result<L, String>,
>(
    states: Seq<MergeRun<B, E, T, L>>,
    events: Seq<MergeEvent<B, E, T, L>>,
    kind_of: K,
    decode: D,
    built: int,
)
    requires
        is_merge_trace(states, events),
        builds_with(states, events, kind_of, decode),
        reads_bytes_alone(decode),
        passes(states, events, built, MergeStep::Receipts),
    ensures
        events[built] matches MergeEvent::Built(Ok(receipts)) && receipts_result(
            all_summaries(states[0].chunk_outputs()),
            kind_of,
            decode,
            Ok(receipts),
        ),
{
    merge_trace_is_wf(states, events, built);
    facts_are_kept(states, events, 0, built);
    match events[built] {
        MergeEvent::Built(r) => {
            assert(receipts_result(states[built].gathered(), kind_of, decode, r));
            merge_builds_the_receipts_of_every_chunk(states[built], kind_of, decode, r);
        },
        _ => {},
    }
}

proof fn receipts_are_kept<B, E, T, L>(
    states: Seq<MergeRun<B, E, T, L>>,
    events: Seq<MergeEvent<B, E, T, L>>,
    built: int,
    j: int,
)
    requires
        is_merge_trace(states, events),
        passes(states, events, built, MergeStep::Receipts),
        events[built] is Built,
        0 <= j < states.len(),
        rank(MergeStep::Receipts) < rank(states[j].stage()) < rank(MergeStep::Finished),
    ensures
        states[j].block_receipts() == events[built]->Built_0->Ok_0@,
{
    follows_in_order(states, events, built, j);
    merge_trace_is_wf(states, events, built);
    facts_are_kept(states, events, built + 1, j);
}

/// A block whose summaries give no receipts is never accepted.
pub proof fn summaries_without_receipts_are_refused<
    B,
    E,
    T,
    L,
    K: Fn(u8) -> Option<T>,
    D: Fn(&Vec<u8>) -> Result<L, String>,
>(
    states: Seq<MergeRun<B, E, T, L>>,
    events: Seq<MergeEvent<B, E, T, L>>,
    kind_of: K,
    decode: D,
)
    requires
        is_merge_trace(states, events),
        states[0].stage() == MergeStep::HeaderBal,
        builds_with(states, events, kind_of, decode),
        reads_bytes_alone(decode),
        forall|receipts: Vec<Receipt<T, L>>| #[trigger]
            receipts_result(
                all_summaries(states[0].chunk_outputs()),
                kind_of,
                decode,
                Ok(receipts),
            ) ==> false,
    ensures
        !(states.last().ended() matches Some(Ok(_))),
{
    if let Some(Ok(output)) = states.last().ended() {
        let n = states.len() - 1;
        merge_trace_is_wf(states, events, n);
        let built = stage_was_passed(states, events, n, MergeStep::Receipts);
        receipts_were_built(states, events, kind_of, decode, built);
    }
}

/// There is no complaint about the outputs exactly if all belong to the block.
pub proof fn outputs_complain_iff_foreign(
    outputs: Seq<ChunkProgramOutput>,
    block_hash: H256,
    bal_hash: H256,
)
    ensures
        outputs_complaint(outputs, block_hash, bal_hash) is None <==> all_belong(
            outputs,
            block_hash,
            bal_hash,
        ),
{
    complain_from(outputs, block_hash, bal_hash, 0);
}

proof fn complain_from(
    outputs: Seq<ChunkProgramOutput>,
    block_hash: H256,
    bal_hash: H256,
    k: int,
)
    requires
        0 <= k <= outputs.len(),
    ensures
        outputs_complaint_from(outputs, block_hash, bal_hash, k) is None <==> (forall|i: int|
            k <= i < outputs.len() ==> belongs(#[trigger] outputs[i], block_hash, bal_hash)),
    decreases outputs.len() - k,
{
    if k < outputs.len() {
        complain_from(outputs, block_hash, bal_hash, k + 1);
        assert(belongs(outputs[k], block_hash, bal_hash) <==> output_complaint(
            outputs[k],
            block_hash,
            bal_hash,
        ) is None);
    }
}

/// A copy of an output with the same content belongs to the same block.
pub proof fn belonging_survives_copying(
    a: ChunkProgramOutput,
    b: ChunkProgramOutput,
    block_hash: H256,
    bal_hash: H256,
)
    requires
        a@ == b@,
        belongs(a, block_hash, bal_hash),
    ensures
        belongs(b, block_hash, bal_hash),
{
    artifact_content_determines_encoding(a.artifact, b.artifact);
    assert(a@.artifact == a.artifact@ && b@.artifact == b.artifact@);
}

/// A changed artifact is detected: an output that keeps the hash of another output but not the
/// content of its artifact is refused, unless the two encodings collide under Keccak-256.
pub proof fn changed_artifact_is_detected(
    honest: ChunkProgramOutput,
    changed: ChunkProgramOutput,
    block_hash: H256,
    bal_hash: H256,
)
    requires
        belongs(honest, block_hash, bal_hash),
        changed.artifact_hash == honest.artifact_hash,
        changed.artifact@ != honest.artifact@,
        honest.artifact.rlp().len() < length_limit(),
        keccak256(changed.artifact.rlp()) == keccak256(honest.artifact.rlp())
            ==> changed.artifact.rlp() == honest.artifact.rlp(),
    ensures
        output_complaint(changed, block_hash, bal_hash) == Some("chunk artifact hash mismatch"@),
{
    if keccak256(changed.artifact.rlp()) == keccak256(honest.artifact.rlp()) {
        artifact_encoding_is_injective(honest.artifact, changed.artifact);
    }
}

/// Copies of the outputs with the same contents cover the same blocks.
pub proof fn coverage_survives_copying(
    a: Seq<ChunkProgramOutput>,
    b: Seq<ChunkProgramOutput>,
    tx_count: usize,
)
    requires
        output_contents(a) == output_contents(b),
        covers(a, tx_count),
    ensures
        covers(b, tx_count),
{
    assert(a.len() == output_contents(a).len());
    assert(b.len() == output_contents(b).len());
    assert forall|i: int| 0 <= i < b.len() implies {
        &&& b[i].artifact.range == a[i].artifact.range
        &&& #[trigger] b[i].artifact.well_shaped(tx_count)
    } by {
        assert(output_contents(a)[i] == a[i]@ && output_contents(b)[i] == b[i]@);
        assert(a[i].artifact.well_shaped(tx_count));
        shape_survives_copying(a[i].artifact, b[i].artifact, tx_count);
    }
    assert forall|i: int| 0 <= i < b.len() implies #[trigger] follows(b, i) by {
        assert(follows(a, i));
        assert(b[i].artifact.well_shaped(tx_count));
        if i > 0 {
            assert(b[i - 1].artifact.well_shaped(tx_count));
        }
    }
    if b.len() > 0 {
        assert(b[b.len() - 1].artifact.well_shaped(tx_count));
    }
}

proof fn shape_survives_copying(
    a: CanonicalChunkArtifact,
    b: CanonicalChunkArtifact,
    tx_count: usize,
)
    requires
        a@ == b@,
        a.well_shaped(tx_count),
    ensures
        b.well_shaped(tx_count),
        b.range == a.range,
{
    assert(a@.range == a.range && b@.range == b.range);
    assert(a@.observed_touched_addresses == a.observed_touched_addresses@);
    assert(b@.observed_touched_addresses == b.observed_touched_addresses@);
    assert(a@.observed_storage_accesses == a.observed_storage_accesses@);
    assert(b@.observed_storage_accesses == b.observed_storage_accesses@);
    assert(a.tx_summaries@.len() == a@.tx_summaries.len());
    assert(b.tx_summaries@.len() == b@.tx_summaries.len());
    assert forall|k: int| 0 <= k < b.tx_summaries@.len() implies (
    #[trigger] b.tx_summaries@[k]).tx_index == b.range.start_tx + k by {
        assert(a.tx_summaries@[k].tx_index == a.range.start_tx + k);
        assert(a@.tx_summaries[k].tx_index == a.tx_summaries@[k].tx_index);
        assert(b@.tx_summaries[k].tx_index == b.tx_summaries@[k].tx_index);
    }
}

/// What the workers deliver for the ranges of a partition goes through the merge: sorted and
/// copied into the input of the merge, well-shaped outputs that belong to the block pass the
/// coverage check and the comparison with the block.
pub proof fn delivered_chunks_pass_the_merge(
    ranges: Seq<ChunkRange>,
    tx_count: usize,
    max: usize,
    outcomes: Seq<WorkerOutcome>,
    outputs: Seq<ChunkProgramOutput>,
    copies: Seq<ChunkProgramOutput>,
    block_hash: H256,
    bal_hash: H256,
)
    requires
        is_partition(ranges, tx_count, max),
        outcomes.len() == ranges.len(),
        forall|i: int|
            0 <= i < ranges.len() ==> {
                &&& (#[trigger] delivered(outcomes)[i]).artifact.range == ranges[i]
                &&& delivered(outcomes)[i].artifact.well_shaped(tx_count)
                &&& belongs(delivered(outcomes)[i], block_hash, bal_hash)
            },
        is_stable_sort(outputs, delivered(outcomes)),
        output_contents(copies) == output_contents(outputs),
    ensures
        coverage_complaint(copies, tx_count) is None,
        outputs_complaint(copies, block_hash, bal_hash) is None,
{
    gathered_chunks_cover_the_block(ranges, delivered(outcomes), outputs, tx_count, max);
    coverage_survives_copying(outputs, copies, tx_count);
    complains_iff_not_covered(copies, tx_count);
    assert(copies.len() == output_contents(copies).len());
    assert(outputs.len() == output_contents(outputs).len());
    assert forall|i: int| 0 <= i < copies.len() implies belongs(
        #[trigger] copies[i],
        block_hash,
        bal_hash,
    ) by {
        assert(output_contents(copies)[i] == copies[i]@);
        assert(output_contents(outputs)[i] == outputs[i]@);
        assert(belongs(delivered(outcomes)[i], block_hash, bal_hash));
        belonging_survives_copying(outputs[i], copies[i], block_hash, bal_hash);
    }
    outputs_complain_iff_foreign(copies, block_hash, bal_hash);
}

/// The outputs of chunk runs over the ranges of a partition are accepted: if the hashes are those
/// of the block, neither the coverage check nor the comparison with the block fails a merge run
/// over them.
pub proof fn honest_chunks_are_accepted<B, E, F, T, L>(
    ranges: Seq<ChunkRange>,
    max: usize,
    runs: Seq<ChunkRun<B, E>>,
    ends: Seq<ChunkRun<B, E>>,
    outputs: Seq<ChunkProgramOutput>,
    block_hash: H256,
    bal_hash: H256,
    at_request: MergeRun<B, F, T, L>,
    request: PreparedRequest,
    at_hash: MergeRun<B, F, T, L>,
)
    requires
        is_partition(ranges, request.block.body.transactions@.len() as usize, max),
        runs.len() == ranges.len(),
        ends.len() == ranges.len(),
        outputs.len() == ranges.len(),
        forall|i: int|
            0 <= i < runs.len() ==> {
                &&& (#[trigger] runs[i]).wf()
                &&& runs[i].stage() == ChunkStep::Hashes
                &&& runs[i].chunk_range() == ranges[i]
                &&& runs[i].block_tx_count() == request.block.body.transactions@.len()
                &&& runs[i].steps_to(ChunkEvent::Hashed { block_hash, bal_hash }, ends[i])
                &&& ends[i].ended() matches Some(Ok(output)) && output == outputs[i]
            },
        at_request.chunk_outputs() == outputs,
        at_hash.chunk_outputs() == outputs,
        at_hash.header_bal_hash() == bal_hash,
    ensures
        at_request.failure(MergeEvent::Reply(MergeReply::Prepared(Ok(request)))) is None,
        at_hash.failure(MergeEvent::Hashed(block_hash)) is None,
{
    let tx_count = request.block.body.transactions@.len() as usize;
    assert forall|i: int| 0 <= i < outputs.len() implies {
        &&& (#[trigger] outputs[i]).artifact.range == ranges[i]
        &&& outputs[i].artifact.well_shaped(tx_count)
        &&& belongs(outputs[i], block_hash, bal_hash)
    } by {
        assert(runs[i].wf());
        chunk_output_is_well_shaped(runs[i], block_hash, bal_hash, ends[i], outputs[i]);
    }
    partition_covers_the_block(ranges, outputs, tx_count, max);
    complains_iff_not_covered(outputs, tx_count);
    outputs_complain_iff_foreign(outputs, block_hash, bal_hash);
}

} // verus!
