//! Laws of the single steps of the merge program, said in terms of stages, replies and outcomes.

use crate::artifact::ChunkProgramOutput;
use crate::chunk::Observation;
use crate::coverage::coverage_complaint;
use crate::error::ExecutionError;
use crate::gather::outputs_complaint;
use crate::hash::keccak256;
use crate::merge::{
    withdrawal_addresses, MergeAction, MergeEvent, MergeReply, MergeRun, MergeStep, Phase,
    PreparedRequest, ProgramOutput,
};
use crate::merge_laws::{
    is_merge_trace, merge_stays_finished, merge_trace_is_wf, outputs_complain_iff_foreign,
    stage_was_passed,
};
use crate::payload::Withdrawal;
use crate::primitives::{Address, H256};
use crate::rlp::RLPEncode;
use crate::summary::Receipt;
use vstd::prelude::*;

verus! {

/// An action that only succeeds or fails and that failed ends the merge, with an error that says
/// which layer failed and holds what was reported. At a stage that waits for something else,
/// nothing changes.
pub proof fn refused_action_ends_the_merge<B, E, T, L>(
    run: MergeRun<B, E, T, L>,
    e: E,
    next: MergeRun<B, E, T, L>,
)
    requires
        run.wf(),
        run.steps_to(MergeEvent::Reply(MergeReply::Done(Err(e))), next),
    ensures
        match run.stage() {
            MergeStep::Witness
            | MergeStep::BlockHashes
            | MergeStep::TxApply
            | MergeStep::PostApply => next.ended() == Some(
                Err::<ProgramOutput, ExecutionError<E>>(ExecutionError::State(e)),
            ),
            MergeStep::Body => next.ended() == Some(
                Err::<ProgramOutput, ExecutionError<E>>(ExecutionError::BlockBodyValidation(e)),
            ),
            MergeStep::PreExecution | MergeStep::BalHash => next.ended() == Some(
                Err::<ProgramOutput, ExecutionError<E>>(ExecutionError::BlockValidation(e)),
            ),
            MergeStep::Gas => next.ended() == Some(
                Err::<ProgramOutput, ExecutionError<E>>(ExecutionError::GasValidation(e)),
            ),
            MergeStep::ReceiptsRoot => next.ended() == Some(
                Err::<ProgramOutput, ExecutionError<E>>(ExecutionError::ReceiptsRootValidation(e)),
            ),
            MergeStep::RequestsHash => next.ended() == Some(
                Err::<ProgramOutput, ExecutionError<E>>(ExecutionError::RequestsRootValidation(e)),
            ),
            MergeStep::PreCalls
            | MergeStep::PreState
            | MergeStep::Requests
            | MergeStep::Withdrawals
            | MergeStep::PostState
            | MergeStep::RawAccesses => next.ended() == Some(
                Err::<ProgramOutput, ExecutionError<E>>(ExecutionError::Evm(e)),
            ),
            _ => next == run,
        },
{
    if next.ended() is Some {
        let outcome = next.ended()->0;
        if outcome is Err {
            match outcome->Err_0 {
                ExecutionError::Internal(_) => {},
                _ => {},
            }
        }
    }
}

/// An action that only succeeds or fails and that succeeded takes the merge to the stage that
/// follows, and to no other. Withdrawals are processed exactly if the block has a list of them.
pub proof fn accepted_action_takes_the_merge_on<B, E, T, L>(
    run: MergeRun<B, E, T, L>,
    next: MergeRun<B, E, T, L>,
)
    requires
        run.wf(),
        run.steps_to(MergeEvent::Reply(MergeReply::Done(Ok(()))), next),
    ensures
        match run.stage() {
            MergeStep::Witness => next.stage() == MergeStep::BlockHashes,
            MergeStep::BlockHashes => next.stage() == MergeStep::InvalidHash,
            MergeStep::Body => next.stage() == MergeStep::PreExecution,
            MergeStep::PreExecution => next.stage() == MergeStep::BalHash,
            MergeStep::BalHash => next.stage() == MergeStep::InitialRoot,
            MergeStep::PreCalls => next.stage() == MergeStep::PreState,
            MergeStep::PreState => next.stage() == MergeStep::PreObservation,
            MergeStep::TxApply => next.stage() == MergeStep::Receipts,
            MergeStep::Gas => next.stage() == MergeStep::ReceiptsRoot,
            MergeStep::ReceiptsRoot => next.stage() == MergeStep::Requests,
            MergeStep::Requests => match run.request()->0.block.body.withdrawals {
                Some(_) => next.stage() == MergeStep::Withdrawals,
                None => next.stage() == MergeStep::PostState,
            },
            MergeStep::Withdrawals => next.stage() == MergeStep::PostState,
            MergeStep::PostState => next.stage() == MergeStep::PostObservation,
            MergeStep::PostApply => next.stage() == MergeStep::RequestsHash,
            MergeStep::RequestsHash => next.stage() == MergeStep::RawAccesses,
            MergeStep::RawAccesses => next.stage() == MergeStep::FinalRoot,
            _ => next == run,
        },
        next.request() == run.request(),
        next.header_bal_hash() == run.header_bal_hash(),
        next.parent_state_root() == run.parent_state_root(),
        next.expected_block_hash() == run.expected_block_hash(),
        next.gathered() == run.gathered(),
        next.block_receipts() == run.block_receipts(),
        next.touched() == run.touched(),
        next.accessed() == run.accessed(),
        next.ended() == run.ended(),
{
}

/// What the program asks for at each stage: the block access list index is 0 before the
/// transactions, the number of transactions for their updates, and one more after them.
pub proof fn merge_asks_for_its_steps<B, E, T, L>(run: MergeRun<B, E, T, L>)
    requires
        run.wf(),
    ensures
        ({
            let count = run.request()->0.block.body.transactions@.len();
            match run.stage() {
                MergeStep::HeaderBal => run.pending() == MergeAction::DecodeHeaderBal,
                MergeStep::Request => run.pending() == (MergeAction::PrepareRequest {
                    header_bal_hash: run.header_bal_hash(),
                }),
                MergeStep::Amsterdam => run.pending() == MergeAction::CheckAmsterdam,
                MergeStep::Witness => run.pending() == MergeAction::LoadWitness,
                MergeStep::BlockHashes => run.pending() == MergeAction::InitializeBlockHashes,
                MergeStep::InvalidHash => run.pending() == MergeAction::FindInvalidBlockHash,
                MergeStep::Parent => run.pending() == MergeAction::LoadParentHeader,
                MergeStep::Body => run.pending() == MergeAction::ValidateBlockBody,
                MergeStep::PreExecution => run.pending() == MergeAction::ValidatePreExecution,
                MergeStep::BalHash => run.pending() == MergeAction::ValidateBalHash,
                MergeStep::InitialRoot => run.pending() == MergeAction::ComputeStateRoot,
                MergeStep::BlockHash => run.pending() == MergeAction::ComputeBlockHash,
                MergeStep::PreCalls => run.pending() == (MergeAction::ApplySystemCalls {
                    bal_index: 0,
                }),
                MergeStep::PreState => run.pending() == (MergeAction::ValidateState {
                    bal_index: 0,
                    phase: Phase::PreSystem,
                }),
                MergeStep::PreObservation => run.pending() == MergeAction::TakeObservation,
                MergeStep::TxUpdates => run.pending() == (MergeAction::UpdatesThroughIndex {
                    bal_index: (count as usize as int) as u16,
                }),
                MergeStep::TxApply => run.pending() == MergeAction::ApplyUpdates,
                MergeStep::Receipts => run.pending() == MergeAction::BuildReceipts,
                MergeStep::Gas => run.pending() is ValidateGas,
                MergeStep::ReceiptsRoot => run.pending() == MergeAction::ValidateReceiptsRoot,
                MergeStep::Requests => run.pending() == (MergeAction::ExtractRequests {
                    bal_index: (count as usize + 1) as u16,
                }),
                MergeStep::Withdrawals => run.pending() == MergeAction::ProcessWithdrawals,
                MergeStep::PostState => run.pending() == (MergeAction::ValidateState {
                    bal_index: (count as usize + 1) as u16,
                    phase: Phase::WithdrawalRequest,
                }),
                MergeStep::PostObservation => run.pending() == MergeAction::TakeObservation,
                MergeStep::PostUpdates => run.pending() == MergeAction::TakeTransitions,
                MergeStep::PostApply => run.pending() == MergeAction::ApplyUpdates,
                MergeStep::RequestsHash => run.pending() == MergeAction::ValidateRequestsHash,
                MergeStep::RawAccesses => run.pending() == MergeAction::ValidateRawAccesses,
                MergeStep::FinalRoot => run.pending() == MergeAction::ComputeStateRoot,
                MergeStep::Finished => run.pending() == MergeAction::Stop,
            }
        }),
{
}

/// A request that could not be prepared ends the merge with the error of the preparation.
pub proof fn refused_request_ends_the_merge<B, E, T, L>(
    run: MergeRun<B, E, T, L>,
    e: ExecutionError<E>,
    next: MergeRun<B, E, T, L>,
)
    requires
        run.wf(),
        run.steps_to(MergeEvent::Reply(MergeReply::Prepared(Err(e))), next),
    ensures
        run.stage() != MergeStep::Request ==> next == run,
        run.stage() == MergeStep::Request ==> match e {
            ExecutionError::Internal(text) => next.ended() matches Some(
                Err(ExecutionError::Internal(t)),
            ) && t@ == text@,
            _ => next.ended() == Some(Err::<ProgramOutput, ExecutionError<E>>(e)),
        },
{
    if run.stage() == MergeStep::Request {
        let got = next.ended()->0->Err_0;
        match (e, got) {
            (ExecutionError::Internal(_), _) => {},
            (_, ExecutionError::Internal(_)) => {},
            _ => {},
        }
    }
}

/// A prepared request is kept and the merge goes on if there is nothing wrong with how the outputs
/// of the chunks cover its transactions; otherwise the merge ends with what is wrong.
pub proof fn prepared_request_is_kept<B, E, T, L>(
    run: MergeRun<B, E, T, L>,
    request: PreparedRequest,
    next: MergeRun<B, E, T, L>,
)
    requires
        run.wf(),
        run.steps_to(MergeEvent::Reply(MergeReply::Prepared(Ok(request))), next),
    ensures
        run.stage() != MergeStep::Request ==> next == run,
        run.stage() == MergeStep::Request ==> match next.ended() {
            None => {
                &&& next.stage() == MergeStep::Amsterdam
                &&& next.request() == Some(request)
                &&& next.header_bal_hash() == run.header_bal_hash()
                &&& next.chunk_outputs() == run.chunk_outputs()
                &&& coverage_complaint(
                    run.chunk_outputs(),
                    request.block.body.transactions@.len() as usize,
                ) is None
            },
            Some(Err(ExecutionError::Internal(text))) => coverage_complaint(
                run.chunk_outputs(),
                request.block.body.transactions@.len() as usize,
            ) == Some(text@),
            _ => false,
        },
{
    if run.stage() == MergeStep::Request && next.ended() is Some {
        match next.ended()->0->Err_0 {
            ExecutionError::Internal(_) => {},
            _ => {},
        }
    }
}

/// A block before the Amsterdam fork is refused, and a block after it goes on.
pub proof fn merge_needs_amsterdam<B, E, T, L>(
    run: MergeRun<B, E, T, L>,
    active: bool,
    next: MergeRun<B, E, T, L>,
)
    requires
        run.wf(),
        run.steps_to(MergeEvent::Reply(MergeReply::Amsterdam(active)), next),
    ensures
        run.stage() != MergeStep::Amsterdam ==> next == run,
        run.stage() == MergeStep::Amsterdam && active ==> {
            &&& next.ended() is None
            &&& next.stage() == MergeStep::Witness
        },
        run.stage() == MergeStep::Amsterdam && !active ==> {
            &&& next.ended() matches Some(Err(ExecutionError::Internal(t)))
            &&& t@ == "chunked BAL proving requires Amsterdam+"@
        },
{
    if run.stage() == MergeStep::Amsterdam && !active {
        match next.ended()->0->Err_0 {
            ExecutionError::Internal(_) => {},
            _ => {},
        }
    }
}

/// A header whose hash its child does not refer to ends the merge with its number; if there is
/// none, or if they could not be searched, the merge goes on.
pub proof fn invalid_block_hash_ends_the_merge<B, E, T, L>(
    run: MergeRun<B, E, T, L>,
    found: Result<Option<u64>, E>,
    next: MergeRun<B, E, T, L>,
)
    requires
        run.wf(),
        run.steps_to(MergeEvent::Reply(MergeReply::InvalidBlockHash(found)), next),
    ensures
        run.stage() != MergeStep::InvalidHash ==> next == run,
        run.stage() == MergeStep::InvalidHash ==> match found {
            Ok(Some(number)) => next.ended() == Some(
                Err::<ProgramOutput, ExecutionError<E>>(ExecutionError::InvalidBlockHash(number)),
            ),
            _ => next.ended() is None && next.stage() == MergeStep::Parent,
        },
{
    if next.ended() is Some && next.ended()->0 is Err {
        match next.ended()->0->Err_0 {
            ExecutionError::Internal(_) => {},
            _ => {},
        }
    }
}

/// What a state root does: the one of the parent is kept, the first one that is computed has to be
/// that of the parent, and the last one has to be that of the header, in which case the request is
/// valid. One that could not be had ends the merge.
pub proof fn state_roots_decide<B, E, T, L>(
    run: MergeRun<B, E, T, L>,
    root: Result<H256, E>,
    next: MergeRun<B, E, T, L>,
)
    requires
        run.wf(),
        run.steps_to(MergeEvent::Reply(MergeReply::Root(root)), next),
    ensures
        match (run.stage(), root) {
            (MergeStep::Parent, Ok(r)) => {
                &&& next.ended() is None
                &&& next.stage() == MergeStep::Body
                &&& next.parent_state_root() == r
            },
            (MergeStep::InitialRoot, Ok(r)) => if r == run.parent_state_root() {
                next.ended() is None && next.stage() == MergeStep::BlockHash
            } else {
                next.ended() == Some(
                    Err::<ProgramOutput, ExecutionError<E>>(
                        ExecutionError::InvalidInitialStateTrie,
                    ),
                )
            },
            (MergeStep::FinalRoot, Ok(r)) => if r == run.request()->0.block.header.state_root {
                next.ended() == Some(
                    Ok::<ProgramOutput, ExecutionError<E>>(
                        ProgramOutput {
                            new_payload_request_root: run.request()->0.new_payload_request_root,
                            valid: true,
                        },
                    ),
                )
            } else {
                next.ended() == Some(
                    Err::<ProgramOutput, ExecutionError<E>>(ExecutionError::InvalidFinalStateTrie),
                )
            },
            (MergeStep::Parent, Err(e))
            | (MergeStep::InitialRoot, Err(e))
            | (MergeStep::FinalRoot, Err(e)) => next.ended() == Some(
                Err::<ProgramOutput, ExecutionError<E>>(ExecutionError::State(e)),
            ),
            _ => next == run,
        },
{
    if next.ended() is Some && next.ended()->0 is Err {
        match next.ended()->0->Err_0 {
            ExecutionError::Internal(_) => {},
            _ => {},
        }
    }
}

/// Account updates are applied exactly if there are any; if they could not be had, the merge ends.
pub proof fn updates_are_applied_iff_there_are_any<B, E, T, L>(
    run: MergeRun<B, E, T, L>,
    updates: Result<usize, E>,
    next: MergeRun<B, E, T, L>,
)
    requires
        run.wf(),
        run.steps_to(MergeEvent::Reply(MergeReply::Updates(updates)), next),
    ensures
        match (run.stage(), updates) {
            (MergeStep::TxUpdates, Ok(n)) => {
                &&& next.ended() is None
                &&& n > 0 ==> next.stage() == MergeStep::TxApply
                &&& n == 0 ==> next.stage() == MergeStep::Receipts
            },
            (MergeStep::PostUpdates, Ok(n)) => {
                &&& next.ended() is None
                &&& n > 0 ==> next.stage() == MergeStep::PostApply
                &&& n == 0 ==> next.stage() == MergeStep::RequestsHash
            },
            (MergeStep::TxUpdates, Err(e)) | (MergeStep::PostUpdates, Err(e)) => next.ended()
                == Some(Err::<ProgramOutput, ExecutionError<E>>(ExecutionError::Evm(e))),
            _ => next == run,
        },
{
    if next.ended() is Some && next.ended()->0 is Err {
        match next.ended()->0->Err_0 {
            ExecutionError::Internal(_) => {},
            _ => {},
        }
    }
}

/// The accesses that a machine recorded are added to those that are known; a machine that recorded
/// nothing adds nothing.
pub proof fn observations_are_added<B, E, T, L>(
    run: MergeRun<B, E, T, L>,
    observation: Option<Observation>,
    next: MergeRun<B, E, T, L>,
)
    requires
        run.wf(),
        run.steps_to(MergeEvent::Reply(MergeReply::Observed(observation)), next),
    ensures
        run.stage() != MergeStep::PreObservation && run.stage() != MergeStep::PostObservation
            ==> next == run,
        run.stage() == MergeStep::PreObservation ==> next.stage() == MergeStep::TxUpdates,
        run.stage() == MergeStep::PostObservation ==> next.stage() == MergeStep::PostUpdates,
        run.stage() == MergeStep::PreObservation || run.stage() == MergeStep::PostObservation ==> {
            &&& next.ended() is None
            &&& next.gathered() == run.gathered()
            &&& match observation {
                Some(o) => {
                    &&& next.touched() == run.touched() + o.touched_addresses@
                    &&& next.accessed() == run.accessed() + o.storage_accesses@
                },
                None => {
                    &&& next.touched() == run.touched()
                    &&& next.accessed() == run.accessed()
                },
            }
        },
{
    assert(run.touched() + Seq::<Address>::empty() =~= run.touched());
    assert(run.accessed() + Seq::<(Address, H256)>::empty() =~= run.accessed());
}

/// A block access list that does not decode ends the merge with the text of the decoder; one that
/// decodes is kept with its hash.
pub proof fn decoded_list_is_kept<B, E, T, L>(
    run: MergeRun<B, E, T, L>,
    decoded: Result<(B, H256), String>,
    next: MergeRun<B, E, T, L>,
)
    requires
        run.wf(),
        run.steps_to(MergeEvent::Decoded(decoded), next),
    ensures
        run.stage() != MergeStep::HeaderBal ==> next == run,
        run.stage() == MergeStep::HeaderBal ==> match decoded {
            Ok((bal, hash)) => {
                &&& next.ended() is None
                &&& next.stage() == MergeStep::Request
                &&& next.decoded_bal() == Some(bal)
                &&& next.header_bal_hash() == hash
            },
            Err(text) => next.ended() matches Some(Err(ExecutionError::Internal(t))) && t@
                == "failed to decode header BAL: "@ + text@,
        },
{
    if next.ended() is Some && next.ended()->0 is Err {
        match next.ended()->0->Err_0 {
            ExecutionError::Internal(_) => {},
            _ => {},
        }
    }
}

/// With the hash of the block, the merge goes on exactly if every output carries the Keccak-256
/// hash of its encoded artifact and names the hashes of the block and of the block access list; it
/// then waits for the system calls before the transactions.
pub proof fn block_hash_decides<B, E, T, L>(
    run: MergeRun<B, E, T, L>,
    hash: H256,
    next: MergeRun<B, E, T, L>,
)
    requires
        run.wf(),
        run.steps_to(MergeEvent::Hashed(hash), next),
    ensures
        run.stage() != MergeStep::BlockHash ==> next == run,
        run.stage() == MergeStep::BlockHash ==> {
            &&& next.ended() is None <==> (forall|i: int|
                0 <= i < run.chunk_outputs().len() ==> {
                    let output: ChunkProgramOutput = #[trigger] run.chunk_outputs()[i];
                    &&& output.artifact_hash@ == keccak256(output.artifact.rlp())
                    &&& output.artifact.block_hash == hash
                    &&& output.artifact.bal_hash == run.header_bal_hash()
                })
            &&& next.ended() is None ==> {
                &&& next.stage() == MergeStep::PreCalls
                &&& next.expected_block_hash() == hash
            }
            &&& next.ended() is Some ==> {
                &&& next.ended() matches Some(Err(ExecutionError::Internal(text)))
                &&& outputs_complaint(run.chunk_outputs(), hash, run.header_bal_hash()) == Some(
                    text@,
                )
            }
        },
{
    outputs_complain_iff_foreign(run.chunk_outputs(), hash, run.header_bal_hash());
    if next.ended() is Some && next.ended()->0 is Err {
        match next.ended()->0->Err_0 {
            ExecutionError::Internal(_) => {},
            _ => {},
        }
    }
}

/// Receipts that could not be built end the merge with the text of the error; receipts that were
/// built are kept.
pub proof fn built_receipts_are_kept<B, E, T, L>(
    run: MergeRun<B, E, T, L>,
    built: Result<Vec<Receipt<T, L>>, String>,
    next: MergeRun<B, E, T, L>,
)
    requires
        run.wf(),
        run.steps_to(MergeEvent::Built(built), next),
    ensures
        run.stage() != MergeStep::Receipts ==> next == run,
        run.stage() == MergeStep::Receipts ==> match built {
            Ok(receipts) => {
                &&& next.ended() is None
                &&& next.stage() == MergeStep::Gas
                &&& next.block_receipts() == receipts@
                &&& next.gathered() == run.gathered()
            },
            Err(text) => next.ended() matches Some(Err(ExecutionError::Internal(t))) && t@
                == text@,
        },
{
    if next.ended() is Some && next.ended()->0 is Err {
        match next.ended()->0->Err_0 {
            ExecutionError::Internal(_) => {},
            _ => {},
        }
    }
}

/// The withdrawal addresses are the addresses of the withdrawals, one for one and in order.
pub proof fn withdrawal_addresses_are_those_of_the_block(withdrawals: Option<Vec<Withdrawal>>)
    ensures
        withdrawals is None ==> withdrawal_addresses(withdrawals).len() == 0,
        withdrawals matches Some(list) ==> {
            &&& withdrawal_addresses(withdrawals).len() == list@.len()
            &&& forall|i: int|
                0 <= i < list@.len() ==> #[trigger] withdrawal_addresses(
                    withdrawals,
                )[i] == list@[i].address
        },
{
}

/// In an accepted merge nothing that was waited for was a refusal: every action that only succeeds
/// or fails succeeded, whatever its stage, and so did everything else.
pub proof fn accepted_merge_heard_no_refusal<B, E, T, L>(
    states: Seq<MergeRun<B, E, T, L>>,
    events: Seq<MergeEvent<B, E, T, L>>,
    i: int,
)
    requires
        is_merge_trace(states, events),
        states.last().ended() matches Some(Ok(_)),
        0 <= i < events.len(),
    ensures
        match states[i].stage() {
            MergeStep::Witness
            | MergeStep::BlockHashes
            | MergeStep::Body
            | MergeStep::PreExecution
            | MergeStep::BalHash
            | MergeStep::PreCalls
            | MergeStep::PreState
            | MergeStep::TxApply
            | MergeStep::Gas
            | MergeStep::ReceiptsRoot
            | MergeStep::Requests
            | MergeStep::Withdrawals
            | MergeStep::PostState
            | MergeStep::PostApply
            | MergeStep::RequestsHash
            | MergeStep::RawAccesses => !(events[i] matches MergeEvent::Reply(
                MergeReply::Done(Err(_)),
            )),
            _ => true,
        },
        states[i].stage() == MergeStep::HeaderBal ==> !(events[i] matches MergeEvent::Decoded(
            Err(_),
        )),
        states[i].stage() == MergeStep::Request ==> !(events[i] matches MergeEvent::Reply(
            MergeReply::Prepared(Err(_)),
        )),
        states[i].stage() == MergeStep::Amsterdam ==> events[i] != MergeEvent::<B, E, T, L>::Reply(
            MergeReply::Amsterdam(false),
        ),
        states[i].stage() == MergeStep::InvalidHash ==> !(events[i] matches MergeEvent::Reply(
            MergeReply::InvalidBlockHash(Ok(Some(_))),
        )),
        states[i].stage() == MergeStep::Parent || states[i].stage() == MergeStep::InitialRoot
            || states[i].stage() == MergeStep::FinalRoot ==> !(events[i] matches MergeEvent::Reply(
            MergeReply::Root(Err(_)),
        )),
        states[i].stage() == MergeStep::InitialRoot ==> (events[i] matches MergeEvent::Reply(
            MergeReply::Root(Ok(root)),
        ) ==> root == states[i].parent_state_root()),
        states[i].stage() == MergeStep::FinalRoot ==> (events[i] matches MergeEvent::Reply(
            MergeReply::Root(Ok(root)),
        ) ==> root == states[i].request()->0.block.header.state_root),
        states[i].stage() == MergeStep::TxUpdates || states[i].stage() == MergeStep::PostUpdates
            ==> !(events[i] matches MergeEvent::Reply(MergeReply::Updates(Err(_)))),
        states[i].stage() == MergeStep::Receipts ==> !(events[i] matches MergeEvent::Built(Err(_))),
{
    merge_trace_is_wf(states, events, i);
    merge_trace_is_wf(states, events, i + 1);
    let run = states[i];
    let next = states[i + 1];
    if next.ended() is Some {
        merge_stays_finished(states, events, i + 1, states.len() - 1);
    }
    match events[i] {
        MergeEvent::Decoded(decoded) => {
            decoded_list_is_kept(run, decoded, next);
        },
        MergeEvent::Hashed(_) => {},
        MergeEvent::Built(built) => {
            built_receipts_are_kept(run, built, next);
        },
        MergeEvent::Reply(reply) => match reply {
            MergeReply::Done(Err(e)) => {
                refused_action_ends_the_merge(run, e, next);
            },
            MergeReply::Done(Ok(_)) => {},
            MergeReply::Prepared(Err(e)) => {
                refused_request_ends_the_merge(run, e, next);
            },
            MergeReply::Prepared(Ok(_)) => {},
            MergeReply::Amsterdam(active) => {
                merge_needs_amsterdam(run, active, next);
            },
            MergeReply::InvalidBlockHash(found) => {
                invalid_block_hash_ends_the_merge(run, found, next);
            },
            MergeReply::Root(root) => {
                state_roots_decide(run, root, next);
            },
            MergeReply::Updates(updates) => {
                updates_are_applied_iff_there_are_any(run, updates, next);
            },
            MergeReply::Observed(_) => {},
        },
    }
}

/// An accepted merge did not leave out an action: each of those that every block needs was carried
/// out and succeeded.
pub proof fn accepted_merge_carried_out_every_action<B, E, T, L>(
    states: Seq<MergeRun<B, E, T, L>>,
    events: Seq<MergeEvent<B, E, T, L>>,
    step: MergeStep,
)
    requires
        is_merge_trace(states, events),
        states[0].stage() == MergeStep::HeaderBal,
        states.last().ended() matches Some(Ok(_)),
        match step {
            MergeStep::Witness
            | MergeStep::BlockHashes
            | MergeStep::Body
            | MergeStep::PreExecution
            | MergeStep::BalHash
            | MergeStep::PreCalls
            | MergeStep::PreState
            | MergeStep::Gas
            | MergeStep::ReceiptsRoot
            | MergeStep::Requests
            | MergeStep::PostState
            | MergeStep::RequestsHash
            | MergeStep::RawAccesses => true,
            _ => false,
        },
    ensures
        exists|i: int|
            0 <= i < events.len() && (#[trigger] states[i]).stage() == step && events[i]
                == MergeEvent::<B, E, T, L>::Reply(MergeReply::Done(Ok(()))),
{
    let n = states.len() - 1;
    merge_trace_is_wf(states, events, n);
    let i = stage_was_passed(states, events, n, step);
    accepted_merge_heard_no_refusal(states, events, i);
    match events[i] {
        MergeEvent::Reply(MergeReply::Done(Ok(done))) => {
            assert(done == ());
        },
        _ => {},
    }
    assert(states[i].stage() == step);
}

/// What an accepted merge read and computed: the block access list was decoded, the request
/// prepared, the fork found active, no invalid hash found, the state root of the parent read and
/// found to be that of the witness, the block hashed, the receipts built, the accesses taken before
/// and after the transactions, and the last state root found to be that of the header.
pub proof fn accepted_merge_took_every_result<B, E, T, L>(
    states: Seq<MergeRun<B, E, T, L>>,
    events: Seq<MergeEvent<B, E, T, L>>,
)
    requires
        is_merge_trace(states, events),
        states[0].stage() == MergeStep::HeaderBal,
        states.last().ended() matches Some(Ok(_)),
    ensures
        exists|i: int|
            0 <= i < events.len() && (#[trigger] states[i]).stage() == MergeStep::HeaderBal
                && events[i] matches MergeEvent::Decoded(Ok(_)),
        exists|i: int|
            0 <= i < events.len() && (#[trigger] states[i]).stage() == MergeStep::Request
                && events[i] matches MergeEvent::Reply(MergeReply::Prepared(Ok(_))),
        exists|i: int|
            0 <= i < events.len() && (#[trigger] states[i]).stage() == MergeStep::Amsterdam
                && events[i] == MergeEvent::<B, E, T, L>::Reply(MergeReply::Amsterdam(true)),
        exists|i: int|
            0 <= i < events.len() && (#[trigger] states[i]).stage() == MergeStep::InvalidHash
                && events[i] matches MergeEvent::Reply(MergeReply::InvalidBlockHash(_)),
        exists|i: int|
            0 <= i < events.len() && (#[trigger] states[i]).stage() == MergeStep::Parent
                && events[i] matches MergeEvent::Reply(MergeReply::Root(Ok(_))),
        exists|i: int|
            0 <= i < events.len() && (#[trigger] states[i]).stage() == MergeStep::InitialRoot
                && events[i] == MergeEvent::<B, E, T, L>::Reply(
                MergeReply::Root(Ok(states[i].parent_state_root())),
            ),
        exists|i: int|
            0 <= i < events.len() && (#[trigger] states[i]).stage() == MergeStep::BlockHash
                && events[i] matches MergeEvent::Hashed(_),
        exists|i: int|
            0 <= i < events.len() && (#[trigger] states[i]).stage() == MergeStep::PreObservation
                && events[i] matches MergeEvent::Reply(MergeReply::Observed(_)),
        exists|i: int|
            0 <= i < events.len() && (#[trigger] states[i]).stage() == MergeStep::TxUpdates
                && events[i] matches MergeEvent::Reply(MergeReply::Updates(Ok(_))),
        exists|i: int|
            0 <= i < events.len() && (#[trigger] states[i]).stage() == MergeStep::Receipts
                && events[i] matches MergeEvent::Built(Ok(_)),
        exists|i: int|
            0 <= i < events.len() && (#[trigger] states[i]).stage() == MergeStep::PostObservation
                && events[i] matches MergeEvent::Reply(MergeReply::Observed(_)),
        exists|i: int|
            0 <= i < events.len() && (#[trigger] states[i]).stage() == MergeStep::PostUpdates
                && events[i] matches MergeEvent::Reply(MergeReply::Updates(Ok(_))),
        exists|i: int|
            0 <= i < events.len() && (#[trigger] states[i]).stage() == MergeStep::FinalRoot
                && events[i] == MergeEvent::<B, E, T, L>::Reply(
                MergeReply::Root(Ok(states[i].request()->0.block.header.state_root)),
            ),
{
    let a = result_was_taken(states, events, MergeStep::HeaderBal);
    let b = result_was_taken(states, events, MergeStep::Request);
    let c = result_was_taken(states, events, MergeStep::Amsterdam);
    let d = result_was_taken(states, events, MergeStep::InvalidHash);
    let e = result_was_taken(states, events, MergeStep::Parent);
    let f = result_was_taken(states, events, MergeStep::InitialRoot);
    let g = result_was_taken(states, events, MergeStep::BlockHash);
    let h = result_was_taken(states, events, MergeStep::PreObservation);
    let j = result_was_taken(states, events, MergeStep::TxUpdates);
    let k = result_was_taken(states, events, MergeStep::Receipts);
    let l = result_was_taken(states, events, MergeStep::PostObservation);
    let m = result_was_taken(states, events, MergeStep::PostUpdates);
    let n = result_was_taken(states, events, MergeStep::FinalRoot);
    assert(states[a].stage() == MergeStep::HeaderBal && states[b].stage() == MergeStep::Request);
    assert(states[c].stage() == MergeStep::Amsterdam);
    assert(states[d].stage() == MergeStep::InvalidHash && states[e].stage() == MergeStep::Parent);
    assert(states[f].stage() == MergeStep::InitialRoot);
    assert(states[g].stage() == MergeStep::BlockHash);
    assert(states[h].stage() == MergeStep::PreObservation);
    assert(states[j].stage() == MergeStep::TxUpdates && states[k].stage() == MergeStep::Receipts);
    assert(states[l].stage() == MergeStep::PostObservation);
    assert(states[m].stage() == MergeStep::PostUpdates);
    assert(states[n].stage() == MergeStep::FinalRoot);
}

/// The event at which an accepted run left a stage that waits for a result.
proof fn result_was_taken<B, E, T, L>(
    states: Seq<MergeRun<B, E, T, L>>,
    events: Seq<MergeEvent<B, E, T, L>>,
    step: MergeStep,
) -> (i: int)
    requires
        is_merge_trace(states, events),
        states[0].stage() == MergeStep::HeaderBal,
        states.last().ended() matches Some(Ok(_)),
        step != MergeStep::TxApply,
        step != MergeStep::PostApply,
        step != MergeStep::Withdrawals,
        step != MergeStep::Finished,
    ensures
        0 <= i < events.len(),
        states[i].stage() == step,
        match step {
            MergeStep::HeaderBal => events[i] matches MergeEvent::Decoded(Ok(_)),
            MergeStep::Request => events[i] matches MergeEvent::Reply(MergeReply::Prepared(Ok(_))),
            MergeStep::Amsterdam => events[i] == MergeEvent::<B, E, T, L>::Reply(
                MergeReply::Amsterdam(true),
            ),
            MergeStep::InvalidHash => events[i] matches MergeEvent::Reply(
                MergeReply::InvalidBlockHash(_),
            ),
            MergeStep::Parent => events[i] matches MergeEvent::Reply(MergeReply::Root(Ok(_))),
            MergeStep::InitialRoot => events[i] == MergeEvent::<B, E, T, L>::Reply(
                MergeReply::Root(Ok(states[i].parent_state_root())),
            ),
            MergeStep::BlockHash => events[i] matches MergeEvent::Hashed(_),
            MergeStep::PreObservation | MergeStep::PostObservation => events[i] matches
                MergeEvent::Reply(MergeReply::Observed(_)),
            MergeStep::TxUpdates | MergeStep::PostUpdates => events[i] matches MergeEvent::Reply(
                MergeReply::Updates(Ok(_)),
            ),
            MergeStep::Receipts => events[i] matches MergeEvent::Built(Ok(_)),
            MergeStep::FinalRoot => events[i] == MergeEvent::<B, E, T, L>::Reply(
                MergeReply::Root(Ok(states[i].request()->0.block.header.state_root)),
            ),
            _ => true,
        },
{
    let n = states.len() - 1;
    merge_trace_is_wf(states, events, n);
    let i = stage_was_passed(states, events, n, step);
    accepted_merge_heard_no_refusal(states, events, i);
    i
}

} // verus!
