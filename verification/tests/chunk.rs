use chunked_l1::artifact::{CanonicalObservedAddress, CanonicalObservedStorageAccess};
use chunked_l1::chunk::{
    execution_program, ChunkAction, ChunkProgramInput, ChunkReply, ChunkRun, Observation, TxReport,
};
use chunked_l1::error::{decode_header_bal, ExecutionError};
use chunked_l1::payload::{Block, BlockBody, BlockHeader, Transaction, TxKind};
use chunked_l1::primitives::{Address, Bloom, H256, U256};
use chunked_l1::range::ChunkRange;

type Input = ChunkProgramInput<()>;
type Run<'a> = ChunkRun<'a, u8, String>;

/// A block access list of one byte.
fn decode(bytes: &Vec<u8>) -> Result<u8, String> {
    if bytes.len() == 1 && bytes[0] != 0xff {
        Ok(bytes[0])
    } else {
        Err("invalid length".to_string())
    }
}

fn hash_header(header: &BlockHeader) -> H256 {
    hash(header.number as u8 + 7)
}

fn hash_bal(bal: &u8) -> H256 {
    hash(*bal - 0xb7)
}

fn hash(n: u8) -> H256 {
    let mut bytes = [0_u8; 32];
    bytes[31] = n;
    H256(bytes)
}

fn address(n: u8) -> Address {
    let mut bytes = [0_u8; 20];
    bytes[19] = n;
    Address(bytes)
}

fn block(tx_count: usize) -> Block {
    Block {
        header: BlockHeader {
            parent_hash: hash(0),
            ommers_hash: hash(0),
            coinbase: address(0),
            state_root: hash(0),
            transactions_root: hash(0),
            receipts_root: hash(0),
            logs_bloom: Bloom([0; 256]),
            difficulty: U256 { high: 0, low: 0 },
            number: 1,
            gas_limit: 30_000_000,
            gas_used: 0,
            timestamp: 1,
            extra_data: vec![],
            prev_randao: hash(0),
            nonce: 0,
            base_fee_per_gas: Some(7),
            withdrawals_root: None,
            blob_gas_used: None,
            excess_blob_gas: None,
            parent_beacon_block_root: None,
            requests_hash: None,
            slot_number: None,
            block_access_list_hash: None,
        },
        body: BlockBody {
            transactions: (0..tx_count as u8)
                .map(|i| Transaction {
                    canonical: vec![],
                    tx_type: 30 + i,
                    to: if i % 2 == 0 { TxKind::Call(address(20 + i)) } else { TxKind::Create },
                    blob_versioned_hashes: vec![],
                    privileged: false,
                })
                .collect(),
            ommers: vec![],
            withdrawals: Some(vec![]),
        },
    }
}

fn input(tx_count: usize, range: ChunkRange) -> Input {
    ChunkProgramInput::new(block(tx_count), (), vec![0xc0], range)
}

fn error(run: Run<'_>) -> ExecutionError<String> {
    match run.outcome() {
        Some(Err(e)) => e,
        other => panic!("the run should have failed: {other:?}"),
    }
}

fn senders(n: u8) -> Vec<Address> {
    (0..n).map(|i| address(10 + i)).collect()
}

fn report(gas: u64) -> TxReport {
    TxReport {
        succeeded: gas % 2 == 0,
        gas_spent: gas,
        gas_used: gas + 1,
        state_gas_used: gas + 2,
        logs: vec![vec![gas as u8]],
    }
}

/// The range (1, 3) of four transactions.
fn inner_range() -> Input {
    input(4, ChunkRange::new(1, 3))
}

/// A run up to the first execution.
fn executing(input: &Input) -> Run<'_> {
    let first = input.range.start_tx as u16;
    let mut run: Run = execution_program(input);
    assert_eq!(run.action(), ChunkAction::DecodeHeaderBal);
    assert_eq!(run.bal(), None);
    run = run.decode_bal(&decode);
    assert_eq!(run.bal(), Some(&0xc0));
    assert_eq!(run.action(), ChunkAction::LoadWitness);
    run = run.resume(ChunkReply::Done(Ok(())));
    assert_eq!(run.action(), ChunkAction::InitializeBlockHashes);
    run = run.resume(ChunkReply::Done(Ok(())));
    assert_eq!(run.action(), ChunkAction::CheckpointSystemPhase);
    run = run.resume(ChunkReply::Done(Ok(())));
    assert_eq!(run.action(), ChunkAction::SeedChunkStart { bal_index: first });
    run = run.resume(ChunkReply::Done(Ok(())));
    assert_eq!(run.action(), ChunkAction::RecoverSenders);
    run.resume(ChunkReply::Senders(Ok(senders(input.block.body.transactions.len() as u8))))
}

/// A run over two transactions, up to the observations.
fn observing(input: &Input) -> Run<'_> {
    let mut run = executing(input);
    run = run.resume(ChunkReply::Executed(Ok(report(5))));
    run = run.resume(ChunkReply::Done(Ok(())));
    run = run.resume(ChunkReply::Executed(Ok(report(6))));
    run.resume(ChunkReply::Done(Ok(())))
}

#[test]
fn chunk_rejects_invalid_range() {
    let input = ChunkProgramInput::new(block(0), (), vec![], ChunkRange::new(0, 0));
    let err = error(execution_program(&input));

    match err {
        ExecutionError::Internal(message) => {
            assert!(message.contains("chunk range must be non-empty"));
        }
        other => panic!("unexpected error for invalid range: {other:?}"),
    }
}

#[test]
fn chunk_rejects_malformed_bal_bytes() {
    let input = ChunkProgramInput::new(block(1), (), vec![0xff], ChunkRange::new(0, 1));
    let run: Run = execution_program(&input);
    assert_eq!(run.action(), ChunkAction::DecodeHeaderBal);
    let err = error(run.decode_bal(&decode));

    match err {
        ExecutionError::Internal(message) => {
            assert!(message.contains("failed to decode header BAL"));
            assert_eq!(message, "failed to decode header BAL: invalid length");
        }
        other => panic!("unexpected error for malformed BAL: {other:?}"),
    }
}

#[test]
fn chunk_still_rejects_per_tx_bal_mismatches() {
    let input = input(1, ChunkRange::new(0, 1));
    let run = executing(&input).resume(ChunkReply::Executed(Ok(report(0))));
    assert_eq!(run.action(), ChunkAction::ValidateTx { bal_index: 1, seed_index: 0 });
    let err = error(run.resume(ChunkReply::Done(Err(
        "account 1: balance changed by execution".to_string(),
    ))));

    match err {
        ExecutionError::Evm(message) => {
            assert!(message.contains("balance changed by execution"));
        }
        other => panic!("unexpected error for BAL mismatch: {other:?}"),
    }
}

#[test]
fn chunk_runs_its_transactions_in_order() {
    let input = inner_range();
    let mut run = executing(&input);
    assert_eq!(
        run.action(),
        ChunkAction::ExecuteTx { tx_idx: 1, bal_index: 2, sender: address(11), callee: None }
    );
    run = run.resume(ChunkReply::Executed(Ok(report(5))));
    assert_eq!(run.action(), ChunkAction::ValidateTx { bal_index: 2, seed_index: 1 });
    run = run.resume(ChunkReply::Done(Ok(())));
    assert_eq!(
        run.action(),
        ChunkAction::ExecuteTx {
            tx_idx: 2,
            bal_index: 3,
            sender: address(12),
            callee: Some(address(22)),
        }
    );
    run = run.resume(ChunkReply::Executed(Ok(report(6))));
    assert_eq!(run.action(), ChunkAction::ValidateTx { bal_index: 3, seed_index: 2 });
    run = run.resume(ChunkReply::Done(Ok(())));
    assert_eq!(run.action(), ChunkAction::TakeObservation);
    run = run.resume(ChunkReply::Observed(Some(Observation {
        touched_addresses: vec![address(1), address(2)],
        storage_accesses: vec![(address(1), hash(3))],
    })));
    assert_eq!(run.action(), ChunkAction::ComputeHashes);
    run = run.conclude(&hash_header, &hash_bal);
    assert_eq!(run.action(), ChunkAction::Stop);

    let output = run.outcome().expect("the run should be finished").expect("it should succeed");
    let artifact = &output.artifact;
    assert_eq!(artifact.validate_shape(4), Ok(()));
    assert_eq!(output.artifact_hash, artifact.compute_hash());
    assert_eq!((artifact.block_hash, artifact.bal_hash), (hash(8), hash(9)));
    assert_eq!(artifact.range, ChunkRange::new(1, 3));
    assert_eq!(artifact.tx_summaries.len(), 2);
    let first = &artifact.tx_summaries[0];
    assert_eq!((first.tx_index, first.tx_type, first.succeeded), (1, 31, false));
    assert_eq!((first.gas_spent, first.gas_used, first.state_gas_used), (5, 6, 7));
    assert_eq!(first.logs, vec![vec![5]]);
    assert_eq!((artifact.tx_summaries[1].tx_index, artifact.tx_summaries[1].tx_type), (2, 32));
    assert_eq!(
        artifact.observed_touched_addresses,
        vec![
            CanonicalObservedAddress { address: address(1) },
            CanonicalObservedAddress { address: address(2) },
        ]
    );
    assert_eq!(
        artifact.observed_storage_accesses,
        vec![CanonicalObservedStorageAccess { address: address(1), slot: hash(3) }]
    );
}

#[test]
fn chunk_without_recorded_accesses_observes_nothing() {
    let input = inner_range();
    let run = observing(&input)
        .resume(ChunkReply::Observed(None))
        .conclude(&hash_header, &hash_bal);
    let output = run.outcome().unwrap().unwrap();
    assert!(output.artifact.observed_touched_addresses.is_empty());
    assert!(output.artifact.observed_storage_accesses.is_empty());
}

#[test]
fn chunk_rejects_unordered_accesses() {
    let input = inner_range();
    let run = observing(&input)
        .resume(ChunkReply::Observed(Some(Observation {
            touched_addresses: vec![address(2), address(1)],
            storage_accesses: vec![],
        })))
        .conclude(&hash_header, &hash_bal);
    assert_eq!(
        error(run),
        ExecutionError::Internal(
            "observed touched addresses are not strictly ordered".to_string()
        )
    );
}

#[test]
fn chunk_names_the_failing_layer() {
    let e = || ChunkReply::Done(Err("e".to_string()));
    let ok = || ChunkReply::Done(Ok(()));
    let input = input(1, ChunkRange::new(0, 1));
    let decoded = || execution_program::<_, u8, String>(&input).decode_bal(&decode);
    assert_eq!(error(decoded().resume(e())), ExecutionError::GuestProgramState("e".to_string()));
    assert_eq!(error(decoded().resume(ok()).resume(e())), ExecutionError::State("e".to_string()));
    for n in 2..4 {
        let mut run = decoded();
        for _ in 0..n {
            run = run.resume(ok());
        }
        assert_eq!(error(run.resume(e())), ExecutionError::Evm("e".to_string()));
    }
    let seeded = decoded().resume(ok()).resume(ok()).resume(ok()).resume(ok());
    assert_eq!(
        error(seeded.resume(ChunkReply::Senders(Err("bad signature".to_string())))),
        ExecutionError::Internal(
            "failed to recover transaction senders: bad signature".to_string()
        )
    );
    assert_eq!(
        error(executing(&input).resume(ChunkReply::Executed(Err("out of gas".to_string())))),
        ExecutionError::Evm("out of gas".to_string())
    );
}

#[test]
fn chunk_range_has_to_fit_the_block() {
    assert_eq!(
        error(execution_program(&input(2, ChunkRange::new(0, 3)))),
        ExecutionError::Internal("chunk range end 3 exceeds transaction count 2".to_string())
    );
}

#[test]
fn chunk_ignores_replies_to_other_actions() {
    let bad = ChunkProgramInput::new(block(1), (), vec![0xff], ChunkRange::new(0, 1));
    let mut run: Run = execution_program(&bad);
    run = run.resume(ChunkReply::Done(Err("not asked for".to_string())));
    assert_eq!(run.action(), ChunkAction::DecodeHeaderBal);
    run = run.resume(ChunkReply::Observed(None)).conclude(&hash_header, &hash_bal);
    assert_eq!(run.action(), ChunkAction::DecodeHeaderBal);
    run = run.decode_bal(&decode);
    run = run.decode_bal(&|_: &Vec<u8>| Ok(1));
    assert_eq!(run.action(), ChunkAction::Stop);
    assert_eq!(
        error(run),
        ExecutionError::Internal("failed to decode header BAL: invalid length".to_string())
    );
}

#[test]
fn no_reply_stands_for_the_hashes() {
    let input = inner_range();
    let mut run = observing(&input).resume(ChunkReply::Observed(None));
    for reply in [
        ChunkReply::Done(Ok(())),
        ChunkReply::Observed(None),
        ChunkReply::Senders(Ok(senders(4))),
        ChunkReply::Executed(Ok(report(1))),
    ] {
        run = run.resume(reply);
        assert_eq!(run.action(), ChunkAction::ComputeHashes);
    }
}

#[test]
fn chunk_needs_the_sender_of_every_transaction() {
    let input = input(2, ChunkRange::new(0, 2));
    let mut run: Run = execution_program(&input);
    run = run.decode_bal(&decode);
    for _ in 0..4 {
        run = run.resume(ChunkReply::Done(Ok(())));
    }
    run = run.resume(ChunkReply::Senders(Ok(senders(1))));
    assert_eq!(run.action(), ChunkAction::RecoverSenders);
    run = run.resume(ChunkReply::Senders(Ok(senders(2))));
    assert!(matches!(run.action(), ChunkAction::ExecuteTx { tx_idx: 0, bal_index: 1, .. }));
}

#[test]
fn header_bal_errors_carry_the_text_of_the_decoder() {
    let decoded: Result<u8, ExecutionError<()>> = decode_header_bal(&vec![5], &decode);
    assert_eq!(decoded, Ok(5));
    let failed: Result<u8, ExecutionError<()>> = decode_header_bal(&vec![], &decode);
    assert_eq!(
        failed,
        Err(ExecutionError::Internal("failed to decode header BAL: invalid length".to_string()))
    );
}

#[test]
fn chunk_inputs_have_defaults_and_copies() {
    let input = ChunkProgramInput::<u8>::default();
    assert_eq!(input.block, Block::default());
    assert_eq!(input.block.header.logs_bloom, Bloom([0; 256]));
    assert_eq!(input.range, ChunkRange::new(0, 0));
    let copy = input.clone();
    assert_eq!(copy.block, input.block);
    assert_eq!(copy.header_bal, input.header_bal);
    let run: Run = execution_program(&copy);
    assert_eq!(
        error(run),
        ExecutionError::Internal("chunk range must be non-empty".to_string())
    );
}
