//! Laws of the single steps of the chunk program, said in terms of stages, replies and outcomes.

use crate::artifact::{parts_complaint, ChunkProgramOutput};
use crate::chunk::{
    ChunkAction, ChunkEvent, ChunkReply, ChunkRun, ChunkStep, Observation, TxReport,
};
use crate::chunk_laws::{
    chunk_identity_is_kept, chunk_stays_finished, chunk_trace_is_wf, is_chunk_trace, last_step,
    summaries_are_kept,
};
use crate::error::ExecutionError;
use crate::hash::keccak256;
use crate::payload::TxKind;
use crate::primitives::{Address, H256};
use crate::rlp::RLPEncode;
use vstd::prelude::*;

verus! {

/// An action that only succeeds or fails and that failed ends the chunk, with an error that says
/// which layer failed and holds what was reported. At a stage that waits for something else,
/// nothing changes.
pub proof fn refused_action_ends_the_chunk<B, E>(
    run: ChunkRun<B, E>,
    e: E,
    next: ChunkRun<B, E>,
)
    requires
        run.wf(),
        run.steps_to(ChunkEvent::Reply(ChunkReply::Done(Err(e))), next),
    ensures
        match run.stage() {
            ChunkStep::Witness => next.ended() == Some(
                Err::<ChunkProgramOutput, ExecutionError<E>>(ExecutionError::GuestProgramState(e)),
            ),
            ChunkStep::BlockHashes => next.ended() == Some(
                Err::<ChunkProgramOutput, ExecutionError<E>>(ExecutionError::State(e)),
            ),
            ChunkStep::SystemPhase | ChunkStep::Seed | ChunkStep::Validate => next.ended() == Some(
                Err::<ChunkProgramOutput, ExecutionError<E>>(ExecutionError::Evm(e)),
            ),
            _ => next == run,
        },
{
}

/// An action that only succeeds or fails and that succeeded takes the chunk to the stage that
/// follows, and to no other. After the validation of a transaction the next one is executed, until
/// there are as many summaries as the range has transactions.
pub proof fn accepted_action_takes_the_chunk_on<B, E>(run: ChunkRun<B, E>, next: ChunkRun<B, E>)
    requires
        run.wf(),
        run.steps_to(ChunkEvent::Reply(ChunkReply::Done(Ok(()))), next),
    ensures
        match run.stage() {
            ChunkStep::Witness => next.stage() == ChunkStep::BlockHashes,
            ChunkStep::BlockHashes => next.stage() == ChunkStep::SystemPhase,
            ChunkStep::SystemPhase => next.stage() == ChunkStep::Seed,
            ChunkStep::Seed => next.stage() == ChunkStep::Senders,
            ChunkStep::Validate => if run.executed().len() + (run.chunk_range().start_tx as usize)
                < (run.chunk_range().end_tx_exclusive as usize) {
                next.stage() == ChunkStep::Execute
            } else {
                next.stage() == ChunkStep::Observation
            },
            _ => next == run,
        },
        next.ended() == run.ended(),
        next.executed() == run.executed(),
        next.decoded_bal() == run.decoded_bal(),
        next.tx_senders() == run.tx_senders(),
        next.touched_addresses() == run.touched_addresses(),
        next.storage_accesses() == run.storage_accesses(),
        next.chunk_block() == run.chunk_block(),
        next.chunk_range() == run.chunk_range(),
{
}

/// What the program asks for at each stage. The state is seeded at the index of the first
/// transaction; a transaction is executed at the index after its own, as its sender and with its
/// callee; and it is validated at the index it was executed at, against its own.
pub proof fn chunk_asks_for_its_steps<B, E>(run: ChunkRun<B, E>)
    requires
        run.wf(),
    ensures
        ({
            let start = run.chunk_range().start_tx as usize;
            let done = run.executed().len() as int;
            match run.stage() {
                ChunkStep::HeaderBal => run.pending() == ChunkAction::DecodeHeaderBal,
                ChunkStep::Witness => run.pending() == ChunkAction::LoadWitness,
                ChunkStep::BlockHashes => run.pending() == ChunkAction::InitializeBlockHashes,
                ChunkStep::SystemPhase => run.pending() == ChunkAction::CheckpointSystemPhase,
                ChunkStep::Seed => run.pending() == (ChunkAction::SeedChunkStart {
                    bal_index: (run.chunk_range().start_tx as int) as u16,
                }),
                ChunkStep::Senders => run.pending() == ChunkAction::RecoverSenders,
                ChunkStep::Execute => run.pending() matches ChunkAction::ExecuteTx {
                    tx_idx,
                    bal_index,
                    sender,
                    callee,
                } && {
                    &&& tx_idx == start + done
                    &&& tx_idx < run.chunk_block().body.transactions@.len()
                    &&& bal_index == (start + done + 1) as u16
                    &&& sender == run.tx_senders()[start + done]
                    &&& match run.chunk_block().body.transactions@[start + done].to {
                        TxKind::Call(to) => callee == Some(to),
                        TxKind::Create => callee is None,
                    }
                },
                ChunkStep::Validate => run.pending() == (ChunkAction::ValidateTx {
                    bal_index: (start + (done - 1) + 1) as u16,
                    seed_index: (start + (done - 1)) as u16,
                }),
                ChunkStep::Observation => run.pending() == ChunkAction::TakeObservation,
                ChunkStep::Hashes => run.pending() == ChunkAction::ComputeHashes,
                ChunkStep::Finished => run.pending() == ChunkAction::Stop,
            }
        }),
{
    if run.stage() == ChunkStep::Validate {
        let start = run.chunk_range().start_tx as usize;
        assert(run.first_tx() + run.executed().len() - 1 + 1 == start + (run.executed().len() - 1)
            + 1);
    }
}

/// A block access list that does not decode ends the chunk with the text of the decoder; one that
/// decodes is kept.
pub proof fn decoded_list_is_kept_by_the_chunk<B, E>(
    run: ChunkRun<B, E>,
    decoded: Result<B, String>,
    next: ChunkRun<B, E>,
)
    requires
        run.wf(),
        run.steps_to(ChunkEvent::Decoded(decoded), next),
    ensures
        run.stage() != ChunkStep::HeaderBal ==> next == run,
        run.stage() == ChunkStep::HeaderBal ==> match decoded {
            Ok(bal) => {
                &&& next.ended() is None
                &&& next.stage() == ChunkStep::Witness
                &&& next.decoded_bal() == Some(bal)
            },
            Err(text) => next.ended() matches Some(Err(ExecutionError::Internal(t))) && t@
                == "failed to decode header BAL: "@ + text@,
        },
{
}

/// Senders that could not be recovered end the chunk with the text of the error; the recovered
/// ones, one for each transaction, are kept.
pub proof fn recovered_senders_are_kept<B, E>(
    run: ChunkRun<B, E>,
    recovered: Result<Vec<Address>, String>,
    next: ChunkRun<B, E>,
)
    requires
        run.wf(),
        run.steps_to(ChunkEvent::Reply(ChunkReply::Senders(recovered)), next),
    ensures
        run.stage() != ChunkStep::Senders ==> next == run,
        run.stage() == ChunkStep::Senders ==> match recovered {
            Ok(senders) => if senders@.len() == run.chunk_block().body.transactions@.len() {
                &&& next.ended() is None
                &&& next.stage() == ChunkStep::Execute
                &&& next.tx_senders() == senders@
                &&& next.executed() == run.executed()
            } else {
                next == run
            },
            Err(text) => next.ended() matches Some(Err(ExecutionError::Internal(t))) && t@
                == "failed to recover transaction senders: "@ + text@,
        },
{
    let transactions = run.chunk_block().body.transactions;
    assert(transactions.len() == transactions@.len());
}

/// An execution that failed ends the chunk. One that went through adds one summary: that of the
/// next transaction of the range, with the type of the transaction in the block and with the
/// status, gas and logs that were reported.
pub proof fn report_becomes_the_next_summary<B, E>(
    run: ChunkRun<B, E>,
    executed: Result<TxReport, E>,
    next: ChunkRun<B, E>,
)
    requires
        run.wf(),
        run.steps_to(ChunkEvent::Reply(ChunkReply::Executed(executed)), next),
    ensures
        run.stage() != ChunkStep::Execute ==> next == run,
        run.stage() == ChunkStep::Execute ==> match executed {
            Err(e) => next.ended() == Some(
                Err::<ChunkProgramOutput, ExecutionError<E>>(ExecutionError::Evm(e)),
            ),
            Ok(report) => {
                let n = run.executed().len() as int;
                let summary = next.executed()[n];
                let tx_idx = (run.chunk_range().start_tx as usize) + n;
                &&& next.ended() is None
                &&& next.stage() == ChunkStep::Validate
                &&& next.executed().len() == n + 1
                &&& forall|k: int|
                    0 <= k < n ==> #[trigger] next.executed()[k] == run.executed()[k]
                &&& summary.tx_index == tx_idx
                &&& summary.tx_type == run.chunk_block().body.transactions@[tx_idx].tx_type
                &&& summary.succeeded == report.succeeded
                &&& summary.gas_spent == report.gas_spent
                &&& summary.gas_used == report.gas_used
                &&& summary.state_gas_used == report.state_gas_used
                &&& summary.logs == report.logs
            },
        },
{
}

/// The recorded accesses become those of the artifact, one for one and in order; nothing recorded
/// means none.
pub proof fn observation_becomes_the_accesses<B, E>(
    run: ChunkRun<B, E>,
    observation: Option<Observation>,
    next: ChunkRun<B, E>,
)
    requires
        run.wf(),
        run.steps_to(ChunkEvent::Reply(ChunkReply::Observed(observation)), next),
    ensures
        run.stage() != ChunkStep::Observation ==> next == run,
        run.stage() == ChunkStep::Observation ==> {
            &&& next.ended() is None
            &&& next.stage() == ChunkStep::Hashes
            &&& next.executed() == run.executed()
            &&& match observation {
                None => {
                    &&& next.touched_addresses().len() == 0
                    &&& next.storage_accesses().len() == 0
                },
                Some(o) => {
                    &&& next.touched_addresses().len() == o.touched_addresses@.len()
                    &&& next.storage_accesses().len() == o.storage_accesses@.len()
                    &&& forall|k: int|
                        0 <= k < o.touched_addresses@.len() ==> (
                        #[trigger] next.touched_addresses()[k]).address == o.touched_addresses@[k]
                    &&& forall|k: int|
                        0 <= k < o.storage_accesses@.len() ==> {
                            &&& (#[trigger] next.storage_accesses()[k]).address
                                == o.storage_accesses@[k].0
                            &&& next.storage_accesses()[k].slot == o.storage_accesses@[k].1
                        }
                },
            }
        },
{
}

/// With the hashes the chunk ends: with an output that holds the hashes, the range, the summaries
/// and the accesses, and carries the Keccak-256 hash of its encoded artifact; or with the text of
/// what is wrong with its shape.
pub proof fn hashes_end_the_chunk<B, E>(
    run: ChunkRun<B, E>,
    block_hash: H256,
    bal_hash: H256,
    next: ChunkRun<B, E>,
)
    requires
        run.wf(),
        run.steps_to(ChunkEvent::Hashed { block_hash, bal_hash }, next),
    ensures
        run.stage() != ChunkStep::Hashes ==> next == run,
        run.stage() == ChunkStep::Hashes ==> match next.ended() {
            Some(Ok(output)) => {
                &&& output.artifact.block_hash == block_hash
                &&& output.artifact.bal_hash == bal_hash
                &&& output.artifact.range == run.chunk_range()
                &&& output.artifact.tx_summaries@ == run.executed()
                &&& output.artifact.observed_touched_addresses@ == run.touched_addresses()
                &&& output.artifact.observed_storage_accesses@ == run.storage_accesses()
                &&& output.artifact_hash@ == keccak256(output.artifact.rlp())
            },
            Some(Err(e)) => e matches ExecutionError::Internal(text) && parts_complaint(
                run.chunk_range(),
                run.executed(),
                run.touched_addresses(),
                run.storage_accesses(),
                run.chunk_block().body.transactions@.len() as usize,
            ) == Some(text@),
            None => false,
        },
        run.stage() == ChunkStep::Hashes ==> (next.ended() matches Some(Ok(_)) <==> parts_complaint(
            run.chunk_range(),
            run.executed(),
            run.touched_addresses(),
            run.storage_accesses(),
            run.chunk_block().body.transactions@.len() as usize,
        ) is None),
{
}

/// In a chunk run that ended well nothing that was waited for was a failure.
pub proof fn successful_chunk_heard_no_refusal<B, E>(
    states: Seq<ChunkRun<B, E>>,
    events: Seq<ChunkEvent<B, E>>,
    i: int,
)
    requires
        is_chunk_trace(states, events),
        states.last().ended() matches Some(Ok(_)),
        0 <= i < events.len(),
    ensures
        match states[i].stage() {
            ChunkStep::Witness
            | ChunkStep::BlockHashes
            | ChunkStep::SystemPhase
            | ChunkStep::Seed
            | ChunkStep::Validate => !(events[i] matches ChunkEvent::Reply(
                ChunkReply::Done(Err(_)),
            )),
            ChunkStep::HeaderBal => !(events[i] matches ChunkEvent::Decoded(Err(_))),
            ChunkStep::Senders => !(events[i] matches ChunkEvent::Reply(
                ChunkReply::Senders(Err(_)),
            )),
            ChunkStep::Execute => !(events[i] matches ChunkEvent::Reply(
                ChunkReply::Executed(Err(_)),
            )),
            _ => true,
        },
{
    chunk_trace_is_wf(states, events, i);
    chunk_trace_is_wf(states, events, i + 1);
    let run = states[i];
    let next = states[i + 1];
    assert(states[i].steps_to(events[i], states[i + 1]));
    if next.ended() is Some {
        chunk_stays_finished(states, events, i + 1, states.len() - 1);
    }
    match events[i] {
        ChunkEvent::Decoded(decoded) => {
            decoded_list_is_kept_by_the_chunk(run, decoded, next);
        },
        ChunkEvent::Reply(ChunkReply::Done(Err(e))) => {
            refused_action_ends_the_chunk(run, e, next);
        },
        ChunkEvent::Reply(ChunkReply::Senders(recovered)) => {
            recovered_senders_are_kept(run, recovered, next);
        },
        ChunkEvent::Reply(ChunkReply::Executed(executed)) => {
            report_becomes_the_next_summary(run, executed, next);
        },
        _ => {},
    }
}

/// The reports of a chunk run are its summaries: what the execution of a transaction reported is
/// found, field by field, in the summary of that transaction in the output.
pub proof fn reports_reach_the_output<B, E>(
    states: Seq<ChunkRun<B, E>>,
    events: Seq<ChunkEvent<B, E>>,
    output: ChunkProgramOutput,
    i: int,
    report: TxReport,
)
    requires
        is_chunk_trace(states, events),
        states[0].stage() != ChunkStep::Finished,
        states.last().ended() matches Some(Ok(o)) && o == output,
        0 <= i < events.len(),
        states[i].stage() == ChunkStep::Execute,
        events[i] == ChunkEvent::<B, E>::Reply(ChunkReply::Executed(Ok(report))),
    ensures
        ({
            let k = states[i].executed().len() as int;
            let summary = output.artifact.tx_summaries@[k];
            let tx_idx = (states[0].chunk_range().start_tx as usize) + k;
            &&& k < output.artifact.tx_summaries@.len()
            &&& states[i].pending() matches ChunkAction::ExecuteTx { tx_idx: asked, .. }
            &&& asked == tx_idx
            &&& summary.tx_index == tx_idx
            &&& summary.tx_type == states[0].chunk_block().body.transactions@[tx_idx].tx_type
            &&& summary.succeeded == report.succeeded
            &&& summary.gas_spent == report.gas_spent
            &&& summary.gas_used == report.gas_used
            &&& summary.state_gas_used == report.state_gas_used
            &&& summary.logs == report.logs
        }),
{
    chunk_trace_is_wf(states, events, i);
    chunk_identity_is_kept(states, events, i);
    assert(states[i].steps_to(events[i], states[i + 1]));
    report_becomes_the_next_summary(states[i], Ok(report), states[i + 1]);
    chunk_asks_for_its_steps(states[i]);
    output_starts_with(states, events, output, i + 1);
}

/// Whatever summaries a run holds, the output starts with them.
proof fn output_starts_with<B, E>(
    states: Seq<ChunkRun<B, E>>,
    events: Seq<ChunkEvent<B, E>>,
    output: ChunkProgramOutput,
    i: int,
)
    requires
        is_chunk_trace(states, events),
        states[0].stage() != ChunkStep::Finished,
        states.last().ended() matches Some(Ok(o)) && o == output,
        0 <= i < states.len(),
        states[i].ended() is None,
    ensures
        states[i].executed().len() <= output.artifact.tx_summaries@.len(),
        forall|k: int|
            0 <= k < states[i].executed().len() ==> #[trigger] output.artifact.tx_summaries@[k]
                == states[i].executed()[k],
{
    chunk_trace_is_wf(states, events, states.len() - 1);
    chunk_trace_is_wf(states, events, i);
    let n = last_step(states, events, states.len() - 1);
    chunk_stays_finished(states, events, n + 1, states.len() - 1);
    chunk_trace_is_wf(states, events, n);
    assert(states[n].steps_to(events[n], states[n + 1]));
    if i > n {
        chunk_stays_finished(states, events, n + 1, i);
    }
    summaries_are_kept(states, events, i, n);
    finishing_event_is_hashed(states[n], events[n], states[n + 1]);
    match events[n] {
        ChunkEvent::Hashed { block_hash, bal_hash } => {
            hashes_end_the_chunk(states[n], block_hash, bal_hash, states[n + 1]);
        },
        _ => {},
    }
    let a = states[i].executed();
    let b = states[n].executed();
    assert forall|k: int| 0 <= k < a.len() implies #[trigger] output.artifact.tx_summaries@[k]
        == a[k] by {
        assert(b.subrange(0, a.len() as int)[k] == b[k]);
    }
}

proof fn finishing_event_is_hashed<B, E>(
    run: ChunkRun<B, E>,
    event: ChunkEvent<B, E>,
    next: ChunkRun<B, E>,
)
    requires
        run.wf(),
        run.stage() != ChunkStep::Finished,
        run.steps_to(event, next),
        next.ended() matches Some(Ok(_)),
    ensures
        run.stage() == ChunkStep::Hashes,
        event is Hashed,
{
}

/// Each transaction of the range was executed, and validated right after: the output has a summary
/// for each, and every one of them comes from a report that was followed by a validation at the
/// index after that of the transaction, which went through.
pub proof fn every_summary_was_reported_and_validated<B, E>(
    states: Seq<ChunkRun<B, E>>,
    events: Seq<ChunkEvent<B, E>>,
    output: ChunkProgramOutput,
    k: int,
)
    requires
        is_chunk_trace(states, events),
        states[0].stage() == ChunkStep::HeaderBal,
        states.last().ended() matches Some(Ok(o)) && o == output,
        0 <= k < output.artifact.tx_summaries@.len(),
    ensures
        exists|i: int|
            {
                &&& 0 <= i < events.len()
                &&& (#[trigger] states[i]).stage() == ChunkStep::Execute
                &&& states[i].executed().len() == k
                &&& events[i] matches ChunkEvent::Reply(ChunkReply::Executed(Ok(_)))
            },
        exists|j: int|
            {
                let tx_idx = (states[0].chunk_range().start_tx as usize) + k;
                &&& 0 <= j < events.len()
                &&& (#[trigger] states[j]).stage() == ChunkStep::Validate
                &&& states[j].pending() == (ChunkAction::ValidateTx {
                    bal_index: (tx_idx + 1) as u16,
                    seed_index: tx_idx as u16,
                })
                &&& events[j] == ChunkEvent::<B, E>::Reply(ChunkReply::Done(Ok(())))
            },
{
    chunk_trace_is_wf(states, events, states.len() - 1);
    chunk_trace_is_wf(states, events, 0);
    let n = last_step(states, events, states.len() - 1);
    chunk_stays_finished(states, events, n + 1, states.len() - 1);
    chunk_trace_is_wf(states, events, n);
    assert(states[n].steps_to(events[n], states[n + 1]));
    finishing_event_is_hashed(states[n], events[n], states[n + 1]);
    match events[n] {
        ChunkEvent::Hashed { block_hash, bal_hash } => {
            hashes_end_the_chunk(states[n], block_hash, bal_hash, states[n + 1]);
        },
        _ => {},
    }
    let i = summary_was_reported(states, events, n, k);
    let j = summary_was_validated(states, events, n, k);
    assert(states[i].stage() == ChunkStep::Execute);
    assert(states[j].stage() == ChunkStep::Validate);
    chunk_trace_is_wf(states, events, j);
    chunk_identity_is_kept(states, events, j);
    chunk_asks_for_its_steps(states[j]);
    assert((states[0].chunk_range().start_tx as usize) + k == (
    states[j].chunk_range().start_tx as usize) + (states[j].executed().len() - 1));
}

proof fn summary_was_reported<B, E>(
    states: Seq<ChunkRun<B, E>>,
    events: Seq<ChunkEvent<B, E>>,
    n: int,
    k: int,
) -> (i: int)
    requires
        is_chunk_trace(states, events),
        states[0].stage() == ChunkStep::HeaderBal,
        0 <= n < states.len(),
        states[n].ended() is None,
        0 <= k < states[n].executed().len(),
    ensures
        0 <= i < n,
        states[i].stage() == ChunkStep::Execute,
        states[i].executed().len() == k,
        events[i] matches ChunkEvent::Reply(ChunkReply::Executed(Ok(_))),
    decreases n,
{
    chunk_trace_is_wf(states, events, n);
    chunk_trace_is_wf(states, events, 0);
    let run = states[n - 1];
    chunk_trace_is_wf(states, events, n - 1);
    assert(states[n - 1].steps_to(events[n - 1], states[n - 1 + 1]));
    if run.executed().len() > k {
        summary_was_reported(states, events, n - 1, k)
    } else {
        n - 1
    }
}

proof fn summary_was_validated<B, E>(
    states: Seq<ChunkRun<B, E>>,
    events: Seq<ChunkEvent<B, E>>,
    n: int,
    k: int,
) -> (j: int)
    requires
        is_chunk_trace(states, events),
        states[0].stage() == ChunkStep::HeaderBal,
        0 <= n < states.len(),
        states[n].ended() is None,
        0 <= k < states[n].executed().len(),
        states[n].stage() != ChunkStep::Validate || k < states[n].executed().len() - 1,
    ensures
        0 <= j < n,
        states[j].stage() == ChunkStep::Validate,
        states[j].executed().len() == k + 1,
        events[j] == ChunkEvent::<B, E>::Reply(ChunkReply::Done(Ok(()))),
    decreases n,
{
    chunk_trace_is_wf(states, events, n);
    chunk_trace_is_wf(states, events, 0);
    let run = states[n - 1];
    chunk_trace_is_wf(states, events, n - 1);
    assert(states[n - 1].steps_to(events[n - 1], states[n - 1 + 1]));
    if run.stage() == ChunkStep::Validate && run.executed().len() == k + 1 {
        match events[n - 1] {
            ChunkEvent::Reply(ChunkReply::Done(Ok(done))) => {
                assert(done == ());
            },
            _ => {},
        }
        n - 1
    } else {
        summary_was_validated(states, events, n - 1, k)
    }
}

/// A chunk run that ended well carried out what comes before the transactions: the block access
/// list was decoded, the witness loaded, the block hashes initialized, the system phase
/// checkpointed, the state seeded and the senders recovered. After the transactions it took the
/// recorded accesses.
pub proof fn successful_chunk_carried_out_every_action<B, E>(
    states: Seq<ChunkRun<B, E>>,
    events: Seq<ChunkEvent<B, E>>,
    step: ChunkStep,
)
    requires
        is_chunk_trace(states, events),
        states[0].stage() == ChunkStep::HeaderBal,
        states.last().ended() matches Some(Ok(_)),
    ensures
        match step {
            ChunkStep::HeaderBal => exists|i: int|
                0 <= i < events.len() && (#[trigger] states[i]).stage() == step
                    && events[i] matches ChunkEvent::Decoded(Ok(_)),
            ChunkStep::Witness
            | ChunkStep::BlockHashes
            | ChunkStep::SystemPhase
            | ChunkStep::Seed => exists|i: int|
                0 <= i < events.len() && (#[trigger] states[i]).stage() == step && events[i]
                    == ChunkEvent::<B, E>::Reply(ChunkReply::Done(Ok(()))),
            ChunkStep::Senders => exists|i: int|
                0 <= i < events.len() && (#[trigger] states[i]).stage() == step
                    && events[i] matches ChunkEvent::Reply(ChunkReply::Senders(Ok(_))),
            ChunkStep::Observation => exists|i: int|
                0 <= i < events.len() && (#[trigger] states[i]).stage() == step
                    && events[i] matches ChunkEvent::Reply(ChunkReply::Observed(_)),
            _ => true,
        },
{
    chunk_trace_is_wf(states, events, states.len() - 1);
    let n = last_step(states, events, states.len() - 1);
    chunk_stays_finished(states, events, n + 1, states.len() - 1);
    chunk_trace_is_wf(states, events, n);
    assert(states[n].steps_to(events[n], states[n + 1]));
    finishing_event_is_hashed(states[n], events[n], states[n + 1]);
    match step {
        ChunkStep::Execute | ChunkStep::Validate | ChunkStep::Hashes | ChunkStep::Finished => {},
        _ => {
            let i = stage_was_left(states, events, n, step);
            assert(states[i].stage() == step);
        },
    }
}

/// Before or at the given stage, in the order in which they are passed for the first time.
spec fn place(step: ChunkStep) -> int {
    match step {
        ChunkStep::HeaderBal => 0,
        ChunkStep::Witness => 1,
        ChunkStep::BlockHashes => 2,
        ChunkStep::SystemPhase => 3,
        ChunkStep::Seed => 4,
        ChunkStep::Senders => 5,
        ChunkStep::Execute => 6,
        ChunkStep::Validate => 6,
        ChunkStep::Observation => 7,
        ChunkStep::Hashes => 8,
        ChunkStep::Finished => 9,
    }
}

proof fn stage_was_left<B, E>(
    states: Seq<ChunkRun<B, E>>,
    events: Seq<ChunkEvent<B, E>>,
    n: int,
    step: ChunkStep,
) -> (i: int)
    requires
        is_chunk_trace(states, events),
        states[0].stage() == ChunkStep::HeaderBal,
        0 <= n < states.len(),
        states[n].ended() is None,
        place(step) < place(states[n].stage()),
        step != ChunkStep::Execute,
        step != ChunkStep::Validate,
    ensures
        0 <= i < n,
        states[i].stage() == step,
        match step {
            ChunkStep::HeaderBal => events[i] matches ChunkEvent::Decoded(Ok(_)),
            ChunkStep::Witness
            | ChunkStep::BlockHashes
            | ChunkStep::SystemPhase
            | ChunkStep::Seed => events[i] == ChunkEvent::<B, E>::Reply(
                ChunkReply::Done(Ok(())),
            ),
            ChunkStep::Senders => events[i] matches ChunkEvent::Reply(ChunkReply::Senders(Ok(_))),
            ChunkStep::Observation => events[i] matches ChunkEvent::Reply(ChunkReply::Observed(_)),
            _ => true,
        },
    decreases n,
{
    chunk_trace_is_wf(states, events, n);
    chunk_trace_is_wf(states, events, n - 1);
    assert(states[n - 1].steps_to(events[n - 1], states[n - 1 + 1]));
    if states[n - 1].stage() == step {
        match events[n - 1] {
            ChunkEvent::Reply(ChunkReply::Done(Ok(done))) => {
                assert(done == ());
            },
            _ => {},
        }
        n - 1
    } else {
        stage_was_left(states, events, n - 1, step)
    }
}

} // verus!
