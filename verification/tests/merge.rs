use chunked_l1::artifact::{
    CanonicalChunkArtifact, CanonicalObservedAddress, CanonicalObservedStorageAccess,
    ChunkProgramOutput,
};
use chunked_l1::chunk::Observation;
use chunked_l1::coverage::{MergeProgramInput, NewPayloadRequest};
use chunked_l1::error::ExecutionError;
use chunked_l1::merge::{
    execution_program, MergeAction, MergeReply, MergeRun, Phase, PreparedRequest, ProgramOutput,
};
use chunked_l1::payload::{Block, BlockBody, BlockHeader, Transaction, Withdrawal};
use chunked_l1::primitives::{Address, Bloom, H256, U256};
use chunked_l1::range::ChunkRange;
use chunked_l1::summary::{build_receipts_from_summaries, TxExecutionSummary};

type Reply = MergeReply<String>;
type Run<'a> = MergeRun<'a, u8, String, u8, u8>;

/// A block access list of one byte.
fn decode_list(bytes: &Vec<u8>) -> Result<u8, String> {
    if bytes.len() == 1 {
        Ok(bytes[0])
    } else {
        Err("e".to_string())
    }
}

fn hash_bal(bal: &u8) -> H256 {
    assert_eq!(*bal, 0xc0);
    hash(BAL_HASH)
}

fn hash_header(header: &BlockHeader) -> H256 {
    hash(BLOCK_HASH - 1 + header.number as u8)
}

const BLOCK_HASH: u8 = 81;
const BAL_HASH: u8 = 82;
const PARENT_ROOT: u8 = 83;
const STATE_ROOT: u8 = 84;

fn hash(n: u8) -> H256 {
    let mut bytes = [0_u8; 32];
    bytes[31] = n;
    H256(bytes)
}

fn address(n: u8) -> Address {
    let mut bytes = [0_u8; 20];
    bytes[19] = n;
    Address(bytes)
}

fn block(tx_count: usize, withdrawals: Option<Vec<Withdrawal>>) -> Block {
    Block {
        header: BlockHeader {
            parent_hash: hash(0),
            ommers_hash: hash(0),
            coinbase: address(0),
            state_root: hash(STATE_ROOT),
            transactions_root: hash(0),
            receipts_root: hash(0),
            logs_bloom: Bloom([0; 256]),
            difficulty: U256 { high: 0, low: 0 },
            number: 1,
            gas_limit: 30_000_000,
            gas_used: 0,
            timestamp: 1,
            extra_data: vec![],
            prev_randao: hash(0),
            nonce: 0,
            base_fee_per_gas: Some(7),
            withdrawals_root: None,
            blob_gas_used: Some(0),
            excess_blob_gas: Some(0),
            parent_beacon_block_root: None,
            requests_hash: None,
            slot_number: None,
            block_access_list_hash: Some(hash(BAL_HASH)),
        },
        body: BlockBody {
            transactions: vec![Transaction::default(); tx_count],
            ommers: vec![],
            withdrawals,
        },
    }
}

fn prepared(tx_count: usize, withdrawals: Option<Vec<Withdrawal>>) -> Reply {
    MergeReply::Prepared(Ok(PreparedRequest {
        block: block(tx_count, withdrawals),
        new_payload_request_root: [6; 32],
    }))
}

fn input(chunk_outputs: Vec<ChunkProgramOutput>) -> MergeProgramInput<(), ()> {
    MergeProgramInput {
        new_payload_request: NewPayloadRequest::default(),
        execution_witness: (),
        header_bal: vec![0xc0],
        chunk_outputs,
    }
}

fn summary(tx_index: u64, gas_used: u64, state_gas_used: u64) -> TxExecutionSummary {
    TxExecutionSummary::new(tx_index, 0, true, gas_used, gas_used, state_gas_used, vec![])
}

fn artifact(start: u64, end: u64) -> CanonicalChunkArtifact {
    CanonicalChunkArtifact {
        block_hash: hash(BLOCK_HASH),
        bal_hash: hash(BAL_HASH),
        range: ChunkRange::new(start, end),
        tx_summaries: (start..end).map(|i| summary(i, 21_000, 0)).collect(),
        observed_touched_addresses: vec![],
        observed_storage_accesses: vec![],
    }
}

fn kind_of(byte: u8) -> Option<u8> {
    if byte == 0 {
        Some(0)
    } else {
        None
    }
}

fn decode(log: &Vec<u8>) -> Result<u8, String> {
    if log.is_empty() {
        Err("empty log".to_string())
    } else {
        Ok(log[0])
    }
}

/// What an outside world in which everything is right replies to an action; `seen` counts the
/// state roots that were asked for.
fn honest(action: MergeAction, block_reply: &mut Option<Reply>, seen: &mut usize) -> Reply {
    match action {
        MergeAction::PrepareRequest { header_bal_hash } => {
            assert_eq!(header_bal_hash, hash(BAL_HASH));
            block_reply.take().expect("the request is prepared once")
        }
        MergeAction::CheckAmsterdam => MergeReply::Amsterdam(true),
        MergeAction::FindInvalidBlockHash => MergeReply::InvalidBlockHash(Ok(None)),
        MergeAction::LoadParentHeader => MergeReply::Root(Ok(hash(PARENT_ROOT))),
        MergeAction::ComputeStateRoot => {
            *seen += 1;
            MergeReply::Root(Ok(hash(if *seen == 1 { PARENT_ROOT } else { STATE_ROOT })))
        }
        MergeAction::TakeObservation => MergeReply::Observed(None),
        MergeAction::UpdatesThroughIndex { .. } | MergeAction::TakeTransitions => {
            MergeReply::Updates(Ok(0))
        }
        MergeAction::DecodeHeaderBal
        | MergeAction::ComputeBlockHash
        | MergeAction::BuildReceipts
        | MergeAction::Stop => unreachable!("no reply is due"),
        _ => MergeReply::Done(Ok(())),
    }
}

/// Has the program do its own work at a stage that waits for no reply.
fn advance<'a>(run: Run<'a>) -> Result<Run<'a>, Run<'a>> {
    match run.action() {
        MergeAction::DecodeHeaderBal => Ok(run.decode_bal(&decode_list, &hash_bal)),
        MergeAction::ComputeBlockHash => Ok(run.check_chunks(&hash_header)),
        MergeAction::BuildReceipts => Ok(run.build_receipts(&kind_of, &decode)),
        _ => Err(run),
    }
}

/// Runs the program. `special` may reply in place of the honest world.
fn run(
    input: &MergeProgramInput<(), ()>,
    block_reply: Reply,
    special: &mut dyn FnMut(MergeAction, &Run<'_>) -> Option<Reply>,
) -> (Result<ProgramOutput, ExecutionError<String>>, Vec<MergeAction>) {
    let mut block_reply = Some(block_reply);
    let mut seen = 0;
    let mut actions = vec![];
    let mut run: Run<'_> = execution_program(input);
    loop {
        let action = run.action();
        if action == MergeAction::Stop {
            break;
        }
        actions.push(action);
        run = match advance(run) {
            Ok(next) => {
                run = next;
                continue;
            }
            Err(same) => same,
        };
        let reply = match special(action, &run) {
            Some(reply) => reply,
            None => honest(action, &mut block_reply, &mut seen),
        };
        run = run.resume(reply);
    }
    (run.outcome().expect("the run is finished"), actions)
}

fn run_honestly(
    input: &MergeProgramInput<(), ()>,
    block_reply: Reply,
) -> (Result<ProgramOutput, ExecutionError<String>>, Vec<MergeAction>) {
    run(input, block_reply, &mut |_, _| None)
}

/// The error of an empty block when the world replies `reply` to `action`.
fn merge_err(action: MergeAction, reply: fn() -> Reply) -> ExecutionError<String> {
    let (outcome, _) = run(&input(vec![]), prepared(0, Some(vec![])), &mut |pending, _| {
        if pending == action {
            Some(reply())
        } else {
            None
        }
    });
    match outcome {
        Ok(_) => panic!("merge execution unexpectedly succeeded"),
        Err(err) => err,
    }
}

fn failure() -> Reply {
    MergeReply::Done(Err("e".to_string()))
}

#[test]
fn merge_returns_standard_eip8025_program_output_type() {
    let (outcome, _) = run_honestly(&input(vec![]), prepared(0, None));
    let output: ProgramOutput = outcome.expect("the merge should succeed");
    assert_eq!(output, ProgramOutput { new_payload_request_root: [6; 32], valid: true });
}

#[test]
fn merge_rejects_non_amsterdam_chunked_inputs() {
    let err = merge_err(MergeAction::CheckAmsterdam, || MergeReply::Amsterdam(false));

    match err {
        ExecutionError::Internal(message) => {
            assert!(message.contains("chunked BAL proving requires Amsterdam+"));
        }
        other => panic!("unexpected error for Amsterdam check: {other:?}"),
    }
}

#[test]
fn merge_rejects_payload_block_hash_mismatch() {
    let refused = MergeReply::Prepared(Err(ExecutionError::Internal(
        "block_hash mismatch: expected 0x01, got 0x09".to_string(),
    )));
    let (outcome, actions) = run_honestly(&input(vec![]), refused);

    match outcome {
        Err(ExecutionError::Internal(message)) => {
            assert!(message.contains("block_hash mismatch"));
        }
        other => panic!("unexpected error for payload block-hash validation: {other:?}"),
    }
    assert_eq!(actions.len(), 2);
}

#[test]
fn merge_rejects_invalid_versioned_hashes() {
    let refused = MergeReply::Prepared(Err(ExecutionError::Internal(
        "versioned hashes mismatch".to_string(),
    )));
    let (outcome, _) = run_honestly(&input(vec![]), refused);

    match outcome {
        Err(ExecutionError::Internal(message)) => {
            assert!(message.contains("versioned hashes mismatch"));
        }
        other => panic!("unexpected error for versioned-hash validation: {other:?}"),
    }
}

#[test]
fn merge_rejects_invalid_block_hash_linkage() {
    let err = merge_err(MergeAction::FindInvalidBlockHash, || {
        MergeReply::InvalidBlockHash(Ok(Some(0)))
    });

    match err {
        ExecutionError::InvalidBlockHash(0) => {}
        other => panic!("unexpected error for block-hash linkage: {other:?}"),
    }
}

#[test]
fn merge_rejects_invalid_initial_state_root_witness() {
    let err = merge_err(MergeAction::LoadParentHeader, || MergeReply::Root(Ok(hash(11))));

    match err {
        ExecutionError::InvalidInitialStateTrie => {}
        other => panic!("unexpected error for initial state validation: {other:?}"),
    }
}

#[test]
fn merge_rejects_unobserved_pre_system_bal_change() {
    let (outcome, actions) = run(&input(vec![]), prepared(0, Some(vec![])), &mut |action, _| {
        match action {
            MergeAction::ValidateState { bal_index, phase: Phase::PreSystem } => {
                Some(MergeReply::Done(Err(format!(
                    "{}: balance mismatch at index {}",
                    Phase::PreSystem.label(),
                    bal_index
                ))))
            }
            _ => None,
        }
    });

    match outcome {
        Err(ExecutionError::Evm(message)) => {
            assert!(message.contains("pre-system phase"));
            assert!(message.contains("index 0"));
        }
        other => panic!("unexpected error for pre-system BAL mismatch: {other:?}"),
    }
    assert!(!actions.contains(&MergeAction::BuildReceipts));
}

#[test]
fn merge_accepts_bal_backed_tx_state_without_chunk_updates() {
    let input = input(vec![ChunkProgramOutput::new(artifact(0, 1))]);
    let (outcome, actions) = run(&input, prepared(1, Some(vec![])), &mut |action, _| {
        match action {
            MergeAction::UpdatesThroughIndex { bal_index } => {
                assert_eq!(bal_index, 1);
                Some(MergeReply::Updates(Ok(1)))
            }
            _ => None,
        }
    });
    assert!(outcome.expect("merge should reconstruct tx-phase state from BAL").valid);
    assert!(actions.contains(&MergeAction::ValidateGas { gas: 21_000 }));
    assert_eq!(actions.iter().filter(|a| **a == MergeAction::ApplyUpdates).count(), 1);
    let position = |action| actions.iter().position(|a| *a == action).unwrap();
    assert_eq!(
        position(MergeAction::ApplyUpdates),
        position(MergeAction::UpdatesThroughIndex { bal_index: 1 }) + 1
    );
}

#[test]
fn merge_applies_post_phase_bal_changes_after_tx_phase_reconstruction() {
    let withdrawals =
        vec![Withdrawal { index: 0, validator_index: 0, address: address(9), amount: 2 }];
    let input = input(vec![]);
    let (outcome, actions) = run(&input, prepared(0, Some(withdrawals)), &mut |action, run| {
        match action {
            MergeAction::ExtractRequests { bal_index } => {
                assert_eq!(bal_index, 1);
                assert_eq!(run.withdrawal_addresses(), vec![address(9)]);
                None
            }
            MergeAction::TakeTransitions => Some(MergeReply::Updates(Ok(1))),
            _ => None,
        }
    });
    assert!(
        outcome
            .expect("merge should apply post-phase BAL changes after tx-phase reconstruction")
            .valid
    );
    let position = |action| actions.iter().position(|a| *a == action).unwrap();
    assert_eq!(
        position(MergeAction::ApplyUpdates),
        position(MergeAction::TakeTransitions) + 1
    );
    assert!(
        position(MergeAction::ProcessWithdrawals)
            < position(MergeAction::ValidateState {
                bal_index: 1,
                phase: Phase::WithdrawalRequest
            })
    );
    assert!(
        position(MergeAction::UpdatesThroughIndex { bal_index: 0 })
            < position(MergeAction::TakeTransitions)
    );
}

#[test]
fn merge_takes_its_steps_in_order() {
    let (_, actions) = run_honestly(&input(vec![]), prepared(0, None));
    assert_eq!(
        actions,
        vec![
            MergeAction::DecodeHeaderBal,
            MergeAction::PrepareRequest { header_bal_hash: hash(BAL_HASH) },
            MergeAction::CheckAmsterdam,
            MergeAction::LoadWitness,
            MergeAction::InitializeBlockHashes,
            MergeAction::FindInvalidBlockHash,
            MergeAction::LoadParentHeader,
            MergeAction::ValidateBlockBody,
            MergeAction::ValidatePreExecution,
            MergeAction::ValidateBalHash,
            MergeAction::ComputeStateRoot,
            MergeAction::ComputeBlockHash,
            MergeAction::ApplySystemCalls { bal_index: 0 },
            MergeAction::ValidateState { bal_index: 0, phase: Phase::PreSystem },
            MergeAction::TakeObservation,
            MergeAction::UpdatesThroughIndex { bal_index: 0 },
            MergeAction::BuildReceipts,
            MergeAction::ValidateGas { gas: 0 },
            MergeAction::ValidateReceiptsRoot,
            MergeAction::ExtractRequests { bal_index: 1 },
            MergeAction::ValidateState { bal_index: 1, phase: Phase::WithdrawalRequest },
            MergeAction::TakeObservation,
            MergeAction::TakeTransitions,
            MergeAction::ValidateRequestsHash,
            MergeAction::ValidateRawAccesses,
            MergeAction::ComputeStateRoot,
        ]
    );
    assert_eq!(Phase::WithdrawalRequest.label(), "withdrawal/request phase");
}

#[test]
fn merge_names_the_failing_layer() {
    let text = || "e".to_string();
    let mut undecodable = input(vec![]);
    undecodable.header_bal = vec![];
    assert_eq!(
        run_honestly(&undecodable, prepared(0, None)).0,
        Err(ExecutionError::Internal("failed to decode header BAL: e".to_string()))
    );
    assert_eq!(merge_err(MergeAction::LoadWitness, failure), ExecutionError::State(text()));
    assert_eq!(
        merge_err(MergeAction::InitializeBlockHashes, failure),
        ExecutionError::State(text())
    );
    assert_eq!(
        merge_err(MergeAction::LoadParentHeader, || MergeReply::Root(Err("e".to_string()))),
        ExecutionError::State(text())
    );
    assert_eq!(
        merge_err(MergeAction::ValidateBlockBody, failure),
        ExecutionError::BlockBodyValidation(text())
    );
    assert_eq!(
        merge_err(MergeAction::ValidatePreExecution, failure),
        ExecutionError::BlockValidation(text())
    );
    assert_eq!(
        merge_err(MergeAction::ValidateBalHash, failure),
        ExecutionError::BlockValidation(text())
    );
    assert_eq!(
        merge_err(MergeAction::ApplySystemCalls { bal_index: 0 }, failure),
        ExecutionError::Evm(text())
    );
    assert_eq!(
        merge_err(MergeAction::UpdatesThroughIndex { bal_index: 0 }, || MergeReply::Updates(Err(
            "e".to_string()
        ))),
        ExecutionError::Evm(text())
    );
    assert_eq!(
        merge_err(MergeAction::ValidateGas { gas: 0 }, failure),
        ExecutionError::GasValidation(text())
    );
    assert_eq!(
        merge_err(MergeAction::ValidateReceiptsRoot, failure),
        ExecutionError::ReceiptsRootValidation(text())
    );
    assert_eq!(
        merge_err(MergeAction::ExtractRequests { bal_index: 1 }, failure),
        ExecutionError::Evm(text())
    );
    assert_eq!(merge_err(MergeAction::ProcessWithdrawals, failure), ExecutionError::Evm(text()));
    assert_eq!(
        merge_err(MergeAction::TakeTransitions, || MergeReply::Updates(Err("e".to_string()))),
        ExecutionError::Evm(text())
    );
    assert_eq!(
        merge_err(MergeAction::ValidateRequestsHash, failure),
        ExecutionError::RequestsRootValidation(text())
    );
    assert_eq!(merge_err(MergeAction::ValidateRawAccesses, failure), ExecutionError::Evm(text()));
}

#[test]
fn merge_applies_updates_to_the_state_layer() {
    let (outcome, _) = run(&input(vec![]), prepared(0, None), &mut |action, _| match action {
        MergeAction::UpdatesThroughIndex { .. } => Some(MergeReply::Updates(Ok(3))),
        MergeAction::ApplyUpdates => Some(failure()),
        _ => None,
    });
    assert_eq!(outcome, Err(ExecutionError::State("e".to_string())));
}

#[test]
fn merge_goes_on_if_the_block_hashes_cannot_be_searched() {
    let (outcome, _) = run(&input(vec![]), prepared(0, None), &mut |action, _| match action {
        MergeAction::FindInvalidBlockHash => {
            Some(MergeReply::InvalidBlockHash(Err("e".to_string())))
        }
        _ => None,
    });
    assert!(outcome.is_ok());
}

#[test]
fn merge_rejects_a_wrong_final_state() {
    let mut roots = 0;
    let (outcome, _) = run(&input(vec![]), prepared(0, None), &mut |action, _| {
        if action == MergeAction::ComputeStateRoot {
            roots += 1;
            if roots == 2 {
                return Some(MergeReply::Root(Ok(hash(1))));
            }
        }
        None
    });
    assert_eq!(outcome, Err(ExecutionError::InvalidFinalStateTrie));
}

#[test]
fn merge_rejects_uncovered_blocks() {
    let (outcome, _) =
        run_honestly(&input(vec![ChunkProgramOutput::new(artifact(0, 2))]), prepared(3, None));
    assert_eq!(
        outcome,
        Err(ExecutionError::Internal("chunk coverage ends at 2, expected 3".to_string()))
    );
}

#[test]
fn merge_rejects_foreign_outputs() {
    let attempt = |change: fn(&mut ChunkProgramOutput)| {
        let mut second = ChunkProgramOutput::new(artifact(1, 2));
        change(&mut second);
        let outputs = vec![ChunkProgramOutput::new(artifact(0, 1)), second];
        run_honestly(&input(outputs), prepared(2, None)).0
    };
    let internal = |text: &str| Err(ExecutionError::Internal(text.to_string()));
    assert!(attempt(|_| ()).is_ok());
    assert_eq!(
        attempt(|output| output.artifact.tx_summaries[0].gas_used = 5),
        internal("chunk artifact hash mismatch")
    );
    assert_eq!(
        attempt(|output| {
            output.artifact.block_hash = hash(1);
            output.artifact_hash = output.artifact.compute_hash();
        }),
        internal("chunk artifact block hash mismatch")
    );
    assert_eq!(
        attempt(|output| {
            output.artifact.bal_hash = hash(1);
            output.artifact_hash = output.artifact.compute_hash();
        }),
        internal("chunk artifact BAL hash mismatch")
    );
}

#[test]
fn merge_meters_all_chunks() {
    let mut first = artifact(0, 1);
    first.tx_summaries = vec![summary(0, 100, 80)];
    let mut second = artifact(1, 3);
    second.tx_summaries = vec![summary(1, 50, 0), summary(2, 7, 6)];
    let outputs = vec![ChunkProgramOutput::new(first), ChunkProgramOutput::new(second)];
    let (outcome, actions) = run_honestly(&input(outputs), prepared(3, None));
    assert!(outcome.is_ok());
    assert!(actions.contains(&MergeAction::ValidateGas { gas: 86 }));
    assert!(actions.contains(&MergeAction::UpdatesThroughIndex { bal_index: 3 }));
    assert!(actions.contains(&MergeAction::ExtractRequests { bal_index: 4 }));
}

#[test]
fn merge_validates_every_observed_access() {
    let mut first = artifact(0, 1);
    first.observed_touched_addresses = vec![CanonicalObservedAddress { address: address(5) }];
    first.observed_storage_accesses =
        vec![CanonicalObservedStorageAccess { address: address(5), slot: hash(1) }];
    let input = input(vec![ChunkProgramOutput::new(first)]);
    let mut observations = 0;
    let mut validated = false;
    let (outcome, _) = run(&input, prepared(1, None), &mut |action, run| match action {
        MergeAction::TakeObservation => {
            observations += 1;
            Some(MergeReply::Observed(Some(Observation {
                touched_addresses: vec![address(5 + observations)],
                storage_accesses: vec![(address(5 + observations), hash(2))],
            })))
        }
        MergeAction::ValidateRawAccesses => {
            validated = true;
            let observed = run.observed_accesses();
            assert_eq!(observed.touched_addresses, vec![address(5), address(6), address(7)]);
            assert_eq!(
                observed.storage_accesses,
                vec![(address(5), hash(1)), (address(6), hash(2)), (address(7), hash(2))]
            );
            None
        }
        _ => None,
    });
    assert!(outcome.is_ok());
    assert!(validated);
}

fn run_to_receipts(input: &MergeProgramInput<(), ()>) -> Run<'_> {
    let mut block_reply = Some(prepared(1, None));
    let mut seen = 0;
    let mut run: Run<'_> = execution_program(input);
    while run.action() != MergeAction::BuildReceipts {
        run = match advance(run) {
            Ok(next) => next,
            Err(same) => {
                let reply = honest(same.action(), &mut block_reply, &mut seen);
                same.resume(reply)
            }
        };
    }
    run
}

#[test]
fn merge_builds_the_receipts_of_all_chunks() {
    let mut with_log = artifact(0, 1);
    with_log.tx_summaries[0].logs = vec![vec![9]];
    let good = input(vec![ChunkProgramOutput::new(with_log)]);
    let run = run_to_receipts(&good);
    assert!(run.receipts().is_empty());
    let expected = build_receipts_from_summaries(run.summaries(), &kind_of, &decode).unwrap();
    let run = run.build_receipts(&kind_of, &decode);
    assert_eq!(run.receipts(), expected);
    assert_eq!(run.receipts()[0].cumulative_gas_used, 21_000);
    assert_eq!(run.receipts()[0].logs, vec![9]);
    assert_eq!(run.action(), MergeAction::ValidateGas { gas: 21_000 });
    let run = run.build_receipts(&kind_of, &decode);
    assert_eq!(run.action(), MergeAction::ValidateGas { gas: 21_000 });
    let run = run.resume(MergeReply::Done(Ok(())));
    assert_eq!(run.action(), MergeAction::ValidateReceiptsRoot);
    assert_eq!(run.receipts(), expected);
}

#[test]
fn merge_rejects_summaries_without_receipts() {
    let mut unknown = artifact(0, 1);
    unknown.tx_summaries[0].tx_type = 200;
    let (outcome, actions) =
        run_honestly(&input(vec![ChunkProgramOutput::new(unknown)]), prepared(1, None));
    assert_eq!(
        outcome,
        Err(ExecutionError::Internal("invalid tx type in summary: 200".to_string()))
    );
    assert_eq!(actions.last(), Some(&MergeAction::BuildReceipts));

    let mut unreadable = artifact(0, 1);
    unreadable.tx_summaries[0].logs = vec![vec![]];
    let (outcome, _) =
        run_honestly(&input(vec![ChunkProgramOutput::new(unreadable)]), prepared(1, None));
    assert_eq!(
        outcome,
        Err(ExecutionError::Internal("failed to decode summary log: empty log".to_string()))
    );
}

#[test]
fn no_reply_stands_for_the_receipts() {
    let mut unknown = artifact(0, 1);
    unknown.tx_summaries[0].tx_type = 200;
    let input = input(vec![ChunkProgramOutput::new(unknown)]);
    let mut run = run_to_receipts(&input);
    for reply in [
        MergeReply::Done(Ok(())),
        MergeReply::Updates(Ok(0)),
        MergeReply::Observed(None),
        MergeReply::Amsterdam(true),
        MergeReply::Root(Ok(hash(STATE_ROOT))),
    ] {
        run = run.resume(reply);
        assert_eq!(run.action(), MergeAction::BuildReceipts);
    }
}

#[test]
fn merge_ignores_replies_to_other_actions() {
    let mut input = input(vec![]);
    input.header_bal = vec![];
    let mut run: Run = execution_program(&input);
    run = run.resume(failure());
    run = run.resume(MergeReply::Root(Ok(hash(1)))).check_chunks(&hash_header);
    assert_eq!(run.action(), MergeAction::DecodeHeaderBal);
    assert_eq!(run.bal(), None);
    run = run.decode_bal(&decode_list, &hash_bal);
    assert_eq!(run.action(), MergeAction::Stop);
    run = run.decode_bal(&|_: &Vec<u8>| Ok(0xc0), &hash_bal);
    assert_eq!(run.action(), MergeAction::Stop);
    assert!(matches!(run.outcome(), Some(Err(ExecutionError::Internal(_)))));
}

#[test]
fn merge_reads_the_access_list_of_its_input() {
    let input = input(vec![]);
    let run: Run = execution_program(&input);
    let run = run.decode_bal(&decode_list, &hash_bal);
    assert_eq!(run.bal(), Some(&0xc0));
    assert_eq!(
        run.action(),
        MergeAction::PrepareRequest { header_bal_hash: hash(BAL_HASH) }
    );
}

#[test]
fn merge_compares_the_outputs_with_the_hash_of_the_header() {
    let outputs = vec![ChunkProgramOutput::new(artifact(0, 1))];
    let mut other = block(1, None);
    other.header.number = 2;
    let reply = MergeReply::Prepared(Ok(PreparedRequest {
        block: other,
        new_payload_request_root: [6; 32],
    }));
    let (outcome, actions) = run_honestly(&input(outputs), reply);
    assert_eq!(
        outcome,
        Err(ExecutionError::Internal("chunk artifact block hash mismatch".to_string()))
    );
    assert_eq!(actions.last(), Some(&MergeAction::ComputeBlockHash));
}
