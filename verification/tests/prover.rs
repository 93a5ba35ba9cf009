use chunked_l1::artifact::{chunk_commitment_hash, CanonicalChunkArtifact, ChunkProgramOutput};
use chunked_l1::coverage::{
    validate_chunk_coverage, MergeProgramInput, NewPayloadRequest, RequestPayload,
};
use chunked_l1::merge::ProgramOutput;
use chunked_l1::primitives::H256;
use chunked_l1::prover::{
    finish_execution, join_workers, merge_input_from_workers, partition_chunk_ranges, plan_chunks,
    sort_outputs, BackendError, ChunkedL1Config, ChunkedL1Execution, WorkerOutcome,
};
use chunked_l1::range::ChunkRange;
use chunked_l1::summary::TxExecutionSummary;

fn hash(n: u8) -> H256 {
    let mut bytes = [0_u8; 32];
    bytes[31] = n;
    H256(bytes)
}

fn output(start: u64, end: u64) -> ChunkProgramOutput {
    ChunkProgramOutput::new(CanonicalChunkArtifact {
        block_hash: hash(1),
        bal_hash: hash(2),
        range: ChunkRange::new(start, end),
        tx_summaries: (start..end)
            .map(|i| TxExecutionSummary::new(i, 0, true, i + 1, i + 1, 0, vec![]))
            .collect(),
        observed_touched_addresses: vec![],
        observed_storage_accesses: vec![],
    })
}

fn starts(outputs: &[ChunkProgramOutput]) -> Vec<u64> {
    outputs.iter().map(|output| output.artifact.range.start_tx).collect()
}

#[test]
fn partitioning_respects_max_chunk_size() {
    let ranges = partition_chunk_ranges(5, 2).expect("chunk partition should succeed");
    assert_eq!(
        ranges,
        vec![
            ChunkRange::new(0, 2),
            ChunkRange::new(2, 4),
            ChunkRange::new(4, 5),
        ]
    );
}

#[test]
fn partitioning_returns_empty_for_zero_tx_block() {
    let ranges = partition_chunk_ranges(0, 3).expect("chunk partition should succeed");
    assert!(ranges.is_empty());
}

#[test]
fn partitioning_into_one_chunk() {
    assert_eq!(partition_chunk_ranges(4, 4), Ok(vec![ChunkRange::new(0, 4)]));
    assert_eq!(partition_chunk_ranges(4, usize::MAX), Ok(vec![ChunkRange::new(0, 4)]));
}

#[test]
fn partitioning_rejects_empty_chunks() {
    assert_eq!(
        partition_chunk_ranges(5, 0),
        Err(BackendError::Execution("max_txs_per_chunk must be greater than zero".to_string()))
    );
}

#[test]
fn chunk_commitment_is_derived_from_execution_chunk_outputs() {
    let mut execution = ChunkedL1Execution {
        chunk_outputs: vec![output(0, 1), output(1, 2)],
        merge_input: MergeProgramInput {
            new_payload_request: NewPayloadRequest::<()>::default(),
            execution_witness: (),
            header_bal: vec![],
            chunk_outputs: vec![],
        },
        merge_output: ProgramOutput {
            new_payload_request_root: [9_u8; 32],
            valid: true,
        },
    };

    let mut encoded = vec![0xf8, 66];
    for chunk in &execution.chunk_outputs {
        encoded.push(0xa0);
        encoded.extend(chunk.artifact_hash.0);
    }
    let expected = H256(keccak_hash::keccak(&encoded).0);
    assert_eq!(chunk_commitment_hash(&execution.chunk_outputs), expected);
    let hex: String = expected.0.iter().map(|b| format!("{:02x}", b)).collect();
    assert_eq!(hex, "77ba1e2742875261b427ac4212ee945312e2292097614fa2b422d664a82402cb");

    execution.merge_output = ProgramOutput {
        new_payload_request_root: [0_u8; 32],
        valid: false,
    };
    assert_eq!(chunk_commitment_hash(&execution.chunk_outputs), expected);
}

#[test]
fn default_config_holds_sixty_four_transactions() {
    assert_eq!(ChunkedL1Config::default().max_txs_per_chunk, 64);
}

#[test]
fn outputs_are_sorted_by_their_first_transaction() {
    let sorted = sort_outputs(vec![output(4, 6), output(0, 2), output(2, 4)]);
    assert_eq!(starts(&sorted), vec![0, 2, 4]);
    let equal = sort_outputs(vec![output(2, 4), output(0, 1), output(2, 3), output(0, 2)]);
    let ends: Vec<u64> = equal.iter().map(|o| o.artifact.range.end_tx_exclusive).collect();
    assert_eq!(ends, vec![1, 2, 4, 3]);
}

#[test]
fn joining_workers_reports_the_first_failure() {
    let joined = join_workers(vec![
        WorkerOutcome::Finished(Ok(output(0, 1))),
        WorkerOutcome::Finished(Err(BackendError::Execution("bad chunk".to_string()))),
        WorkerOutcome::Panicked,
    ]);
    assert_eq!(joined, Err(BackendError::Execution("bad chunk".to_string())));
    let joined = join_workers(vec![WorkerOutcome::Panicked]);
    assert_eq!(joined, Err(BackendError::Execution("chunk worker panicked".to_string())));
}

#[test]
fn planned_chunks_come_back_as_a_merge_input() {
    let config = ChunkedL1Config { max_txs_per_chunk: 2 };
    let ranges = plan_chunks(Ok(5), &config).unwrap();
    let request = NewPayloadRequest {
        execution_payload: RequestPayload { transactions: vec![vec![1]; 5] },
        other_fields: [9_u8; 32],
    };
    let outcomes = ranges
        .iter()
        .rev()
        .map(|r| WorkerOutcome::Finished(Ok(output(r.start_tx, r.end_tx_exclusive))))
        .collect();
    let (outputs, input) =
        merge_input_from_workers(request.clone(), 7_u8, vec![0xc0], outcomes).unwrap();
    assert_eq!(input.new_payload_request, request);
    assert_eq!(starts(&outputs), vec![0, 2, 4]);
    assert_eq!(input.chunk_outputs, outputs);
    assert_eq!(input.execution_witness, 7);
    assert_eq!(input.header_bal, vec![0xc0]);
    assert_eq!(validate_chunk_coverage(&input.chunk_outputs, 5), Ok(()));

    let merged = ProgramOutput { new_payload_request_root: [3; 32], valid: true };
    let execution = finish_execution(outputs, input, Ok(merged)).unwrap();
    assert_eq!(execution.merge_output, merged);
    assert_eq!(execution.merge_input.new_payload_request, request);
}

#[test]
fn an_execution_ends_with_the_first_error() {
    let config = ChunkedL1Config::default();
    assert_eq!(
        plan_chunks(Err("bad request".to_string()), &config),
        Err(BackendError::Execution("bad request".to_string()))
    );
    assert!(plan_chunks(Ok(1), &ChunkedL1Config { max_txs_per_chunk: 0 }).is_err());
    let failed = merge_input_from_workers(
        NewPayloadRequest::<()>::default(),
        (),
        vec![],
        vec![WorkerOutcome::Panicked],
    );
    assert_eq!(
        failed.err(),
        Some(BackendError::Execution("chunk worker panicked".to_string()))
    );
    let input = MergeProgramInput::<(), ()>::default();
    let failed = finish_execution(vec![], input, Err("merge failed".to_string()));
    assert_eq!(failed.err(), Some(BackendError::Execution("merge failed".to_string())));
}
