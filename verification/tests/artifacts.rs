use chunked_l1::artifact::{
    chunk_commitment_hash, CanonicalChunkArtifact, CanonicalObservedAddress,
    CanonicalObservedStorageAccess, ChunkProgramOutput,
};
use chunked_l1::coverage::{
    validate_chunk_coverage, MergeProgramInput, NewPayloadRequest, RequestPayload,
};
use chunked_l1::gather::{check_outputs, gather_outputs};
use chunked_l1::primitives::{is_before, same_bytes, same_hashes, Address, H256};
use chunked_l1::range::ChunkRange;
use chunked_l1::rlp::{push_bytes, push_string, RLPEncode};
use chunked_l1::summary::TxExecutionSummary;

fn hash(n: u8) -> H256 {
    let mut bytes = [0_u8; 32];
    bytes[31] = n;
    H256(bytes)
}

fn address(n: u8) -> Address {
    let mut bytes = [0_u8; 20];
    bytes[19] = n;
    Address(bytes)
}

fn summary(tx_index: u64, gas: u64) -> TxExecutionSummary {
    TxExecutionSummary {
        tx_index,
        tx_type: 0,
        succeeded: true,
        gas_spent: gas,
        gas_used: gas,
        state_gas_used: 0,
        logs: vec![],
    }
}

fn artifact(start: u64, end: u64) -> CanonicalChunkArtifact {
    CanonicalChunkArtifact {
        block_hash: hash(1),
        bal_hash: hash(2),
        range: ChunkRange::new(start, end),
        tx_summaries: (start..end).map(|i| summary(i, 1)).collect(),
        observed_touched_addresses: vec![],
        observed_storage_accesses: vec![],
    }
}

fn output(start: u64, end: u64) -> ChunkProgramOutput {
    ChunkProgramOutput::new(artifact(start, end))
}

fn hex(bytes: &[u8]) -> String {
    bytes.iter().map(|b| format!("{:02x}", b)).collect()
}

fn observing_artifact() -> CanonicalChunkArtifact {
    CanonicalChunkArtifact {
        block_hash: hash(1),
        bal_hash: hash(2),
        range: ChunkRange::new(0, 1),
        tx_summaries: vec![summary(0, 21_000)],
        observed_touched_addresses: vec![CanonicalObservedAddress { address: address(1) }],
        observed_storage_accesses: vec![CanonicalObservedStorageAccess {
            address: address(1),
            slot: hash(7),
        }],
    }
}

#[test]
fn artifact_hash_is_stable() {
    let artifact = observing_artifact();

    assert_eq!(artifact.compute_hash(), artifact.compute_hash());
}

#[test]
fn artifact_hash_is_the_keccak_of_the_encoding() {
    let artifact = observing_artifact();
    assert_eq!(
        hex(&artifact.encode_to_vec()),
        "f8a0a00000000000000000000000000000000000000000000000000000000000000001a0000000000000000000\
         0000000000000000000000000000000000000000000002c28001cccb80800182520882520880c0d594000000000\
         0000000000000000000000000000001f7f6940000000000000000000000000000000000000001a0000000000000\
         0000000000000000000000000000000000000000000000000007"
    );
    assert_eq!(
        hex(&artifact.compute_hash().0),
        "77047f996711f7f99b7e14042614b69e95a6e50736353182e5984494a912737f"
    );
}

#[test]
fn output_encoding_holds_the_artifact_and_its_hash() {
    let output = output(0, 1);
    assert_eq!(
        hex(&output.encode()),
        "f873f850a00000000000000000000000000000000000000000000000000000000000000001a0000000000000000\
         0000000000000000000000000000000000000000000000002c28001c8c7808001010180c0c0c0a08348fdfc0e12\
         03761e6ecdff199aa9f60c787ff2dbdcea6a9805ff7b829774cf"
    );
    assert_eq!(
        hex(&output.artifact_hash.0),
        "8348fdfc0e1203761e6ecdff199aa9f60c787ff2dbdcea6a9805ff7b829774cf"
    );
}

#[test]
fn summary_encoding_is_a_list_of_its_fields() {
    let summary = TxExecutionSummary {
        tx_index: 300,
        tx_type: 2,
        succeeded: false,
        gas_spent: 70_000,
        gas_used: 65_536,
        state_gas_used: 1,
        logs: vec![vec![1, 0, 200], vec![]],
    };
    assert_eq!(
        hex(&summary.encode_to_vec()),
        "d582012c0280830111708301000001c6c4018081c8c0"
    );
}

#[test]
fn numbers_and_strings_are_encoded_in_their_shortest_form() {
    assert_eq!(0_u64.encode_to_vec(), vec![0x80]);
    assert_eq!(127_u64.encode_to_vec(), vec![0x7f]);
    assert_eq!(128_u64.encode_to_vec(), vec![0x81, 0x80]);
    assert_eq!(u64::MAX.encode_to_vec(), vec![0x88, 255, 255, 255, 255, 255, 255, 255, 255]);
    assert_eq!(true.encode_to_vec(), vec![0x01]);
    assert_eq!(false.encode_to_vec(), vec![0x80]);
    assert_eq!(5_u8.encode_to_vec(), vec![0x05]);
    assert_eq!(Vec::<u64>::new().encode_to_vec(), vec![0xc0]);

    let mut buf = vec![];
    push_string(&mut buf, b"dog");
    assert_eq!(buf, vec![0x83, b'd', b'o', b'g']);
    buf.clear();
    push_string(&mut buf, &[0x0f]);
    assert_eq!(buf, vec![0x0f]);
    buf.clear();
    push_string(&mut buf, &[7; 56]);
    assert_eq!(buf[..2], [0xb8, 56]);
    assert_eq!(buf.len(), 58);
    push_bytes(&mut buf, &[1, 2]);
    assert_eq!(buf.len(), 60);
}

#[test]
fn different_artifacts_are_encoded_differently() {
    let base = observing_artifact();
    let mut other = base.clone();
    assert_eq!(base, other);
    assert_eq!(base.encode_to_vec(), other.encode_to_vec());
    other.tx_summaries[0].logs = vec![vec![]];
    assert_ne!(base.encode_to_vec(), other.encode_to_vec());
    assert_ne!(base.compute_hash(), other.compute_hash());
}

#[test]
fn chunk_commitment_depends_on_every_hash_and_their_order() {
    let a = output(0, 1);
    let b = output(1, 2);
    let ab = chunk_commitment_hash(&[a.clone(), b.clone()]);
    let ba = chunk_commitment_hash(&[b, a.clone()]);
    assert_ne!(ab, ba);
    assert_ne!(ab, chunk_commitment_hash(&[a]));
    assert_eq!(
        hex(&chunk_commitment_hash(&[]).0),
        "1dcc4de8dec75d7aab85b567b6ccd41ad312451b948a7413f0a142fd40d49347"
    );
}

#[test]
fn range_validation_names_what_is_wrong() {
    assert_eq!(ChunkRange::new(0, 2).validate_for_tx_count(2), Ok(()));
    assert_eq!(
        ChunkRange::new(1, 1).validate_for_tx_count(2),
        Err("chunk range must be non-empty".to_string())
    );
    assert_eq!(
        ChunkRange::new(2, 1).validate_for_tx_count(2),
        Err("chunk range must be non-empty".to_string())
    );
    assert_eq!(
        ChunkRange::new(0, 3).validate_for_tx_count(2),
        Err("chunk range end 3 exceeds transaction count 2".to_string())
    );
    assert_eq!(ChunkRange::new(2, 7).tx_count(), 5);
    assert_eq!(ChunkRange::new(7, 2).tx_count(), 0);
}

#[test]
fn shape_validation_names_what_is_wrong() {
    assert_eq!(artifact(0, 2).validate_shape(2), Ok(()));
    assert_eq!(
        artifact(0, 3).validate_shape(2),
        Err("chunk range end 3 exceeds transaction count 2".to_string())
    );

    let mut short = artifact(0, 2);
    short.tx_summaries.pop();
    assert_eq!(
        short.validate_shape(2),
        Err("chunk summary count does not match range".to_string())
    );

    let mut misplaced = artifact(3, 5);
    misplaced.tx_summaries[1].tx_index = 9;
    assert_eq!(
        misplaced.validate_shape(5),
        Err("chunk summary index 9 does not match expected tx index 4".to_string())
    );

    let mut accounts = artifact(0, 1);
    accounts.observed_touched_addresses = vec![
        CanonicalObservedAddress { address: address(4) },
        CanonicalObservedAddress { address: address(4) },
    ];
    assert_eq!(
        accounts.validate_shape(1),
        Err("observed touched addresses are not strictly ordered".to_string())
    );
    accounts.observed_touched_addresses[1].address = address(5);
    assert_eq!(accounts.validate_shape(1), Ok(()));

    let mut accesses = artifact(0, 1);
    accesses.observed_storage_accesses = vec![
        CanonicalObservedStorageAccess { address: address(1), slot: hash(9) },
        CanonicalObservedStorageAccess { address: address(2), slot: hash(3) },
        CanonicalObservedStorageAccess { address: address(2), slot: hash(4) },
    ];
    assert_eq!(accesses.validate_shape(1), Ok(()));
    accesses.observed_storage_accesses[2].slot = hash(3);
    assert_eq!(
        accesses.validate_shape(1),
        Err("observed storage accesses are not strictly ordered".to_string())
    );
}

#[test]
fn coverage_validation_rejects_gaps() {
    let chunk_outputs = vec![
        ChunkProgramOutput::new(CanonicalChunkArtifact {
            block_hash: hash(1),
            bal_hash: hash(2),
            range: ChunkRange::new(0, 1),
            tx_summaries: vec![TxExecutionSummary {
                tx_index: 0,
                tx_type: 0,
                succeeded: true,
                gas_spent: 1,
                gas_used: 1,
                state_gas_used: 0,
                logs: vec![],
            }],
            observed_touched_addresses: vec![],
            observed_storage_accesses: vec![],
        }),
        ChunkProgramOutput::new(CanonicalChunkArtifact {
            block_hash: hash(1),
            bal_hash: hash(2),
            range: ChunkRange::new(2, 3),
            tx_summaries: vec![TxExecutionSummary {
                tx_index: 2,
                tx_type: 0,
                succeeded: true,
                gas_spent: 1,
                gas_used: 1,
                state_gas_used: 0,
                logs: vec![],
            }],
            observed_touched_addresses: vec![],
            observed_storage_accesses: vec![],
        }),
    ];

    assert!(validate_chunk_coverage(&chunk_outputs, 3).is_err());
    assert_eq!(
        validate_chunk_coverage(&chunk_outputs, 3),
        Err("chunk coverage gap or overlap at tx 2".to_string())
    );
}

#[test]
fn coverage_validation_accepts_zero_tx_empty_chunks() {
    assert!(validate_chunk_coverage(&[], 0).is_ok());
}

#[test]
fn coverage_validation_names_what_is_wrong() {
    assert_eq!(validate_chunk_coverage(&[output(0, 2), output(2, 3)], 3), Ok(()));
    assert_eq!(
        validate_chunk_coverage(&[output(0, 1)], 0),
        Err("zero-transaction blocks must not include chunk outputs".to_string())
    );
    assert_eq!(
        validate_chunk_coverage(&[], 1),
        Err("non-empty blocks must include chunk outputs".to_string())
    );
    assert_eq!(
        validate_chunk_coverage(&[output(0, 2), output(1, 3)], 3),
        Err("chunk coverage gap or overlap at tx 1".to_string())
    );
    assert_eq!(
        validate_chunk_coverage(&[output(1, 3)], 3),
        Err("chunk coverage gap or overlap at tx 1".to_string())
    );
    assert_eq!(
        validate_chunk_coverage(&[output(0, 2)], 3),
        Err("chunk coverage ends at 2, expected 3".to_string())
    );
    assert_eq!(
        validate_chunk_coverage(&[output(0, 4)], 3),
        Err("chunk range end 4 exceeds transaction count 3".to_string())
    );
}

#[test]
fn merge_input_is_covered_by_the_count_of_its_request() {
    let mut input = MergeProgramInput {
        new_payload_request: NewPayloadRequest {
            execution_payload: RequestPayload { transactions: vec![vec![1], vec![2]] },
            other_fields: (),
        },
        execution_witness: (),
        header_bal: vec![],
        chunk_outputs: vec![output(0, 2)],
    };
    assert_eq!(input.validate_chunk_coverage(), Ok(()));
    input.new_payload_request.execution_payload.transactions.push(vec![]);
    assert_eq!(
        input.validate_chunk_coverage(),
        Err("chunk coverage ends at 2, expected 3".to_string())
    );
}

#[test]
fn foreign_outputs_are_told_apart() {
    let outputs = [output(0, 1), output(1, 2)];
    assert_eq!(check_outputs(&outputs, &hash(1), &hash(2)), Ok(()));
    assert_eq!(
        check_outputs(&outputs, &hash(3), &hash(2)),
        Err("chunk artifact block hash mismatch".to_string())
    );
    assert_eq!(
        check_outputs(&outputs, &hash(1), &hash(3)),
        Err("chunk artifact BAL hash mismatch".to_string())
    );
    let mut forged = outputs;
    forged[1].artifact.tx_summaries[0].gas_used = 7;
    assert_eq!(
        check_outputs(&forged, &hash(1), &hash(2)),
        Err("chunk artifact hash mismatch".to_string())
    );
}

#[test]
fn outputs_are_gathered_in_order() {
    let mut first = artifact(0, 2);
    first.observed_touched_addresses = vec![CanonicalObservedAddress { address: address(5) }];
    let mut second = artifact(2, 3);
    second.observed_touched_addresses = vec![CanonicalObservedAddress { address: address(4) }];
    second.observed_storage_accesses =
        vec![CanonicalObservedStorageAccess { address: address(4), slot: hash(8) }];
    let (summaries, observed) =
        gather_outputs(&[ChunkProgramOutput::new(first), ChunkProgramOutput::new(second)]);
    assert_eq!(summaries, vec![summary(0, 1), summary(1, 1), summary(2, 1)]);
    assert_eq!(observed.touched_addresses, vec![address(5), address(4)]);
    assert_eq!(observed.storage_accesses, vec![(address(4), hash(8))]);
}

#[test]
fn bytes_are_compared_as_in_a_dictionary() {
    assert!(is_before(&[], &[0]));
    assert!(is_before(&[1, 2], &[1, 3]));
    assert!(is_before(&[1], &[1, 0]));
    assert!(!is_before(&[1, 2], &[1, 2]));
    assert!(!is_before(&[2], &[1, 9]));
    assert!(same_bytes(&[1, 2], &[1, 2]));
    assert!(!same_bytes(&[1, 2], &[1]));
    assert!(hash(3).same(&hash(3)));
    assert!(!hash(3).same(&hash(4)));
    assert!(same_hashes(&[hash(1)], &[hash(1)]));
    assert!(!same_hashes(&[hash(1)], &[]));
}
