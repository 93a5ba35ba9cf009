//! Whether the chunks of a block cover its transactions.

use crate::artifact::{misplaced_iff_not_following, ChunkProgramOutput};
use crate::range::answers;
use crate::text::{decimal, push_decimal, push_text};
use vstd::prelude::*;

verus! {

/// The payload of a request to validate a block.
#[derive(Clone, Debug, Default, PartialEq, Eq)]
pub struct RequestPayload {
    /// The encoded transactions.
    pub transactions: Vec<Vec<u8>>,
}

/// A request to validate a block; `R` is whatever the request and its payload hold beside the
/// transactions.
#[derive(Clone, Debug, Default, PartialEq, Eq)]
pub struct NewPayloadRequest<R> {
    pub execution_payload: RequestPayload,
    pub other_fields: R,
}

/// What is needed to merge the chunks of a block; `R` is the rest of the request and `W` the
/// execution witness.
#[derive(Clone, Debug, Default, PartialEq, Eq)]
pub struct MergeProgramInput<R, W> {
    pub new_payload_request: NewPayloadRequest<R>,
    pub execution_witness: W,
    /// The encoded block access list of the block.
    pub header_bal: Vec<u8>,
    pub chunk_outputs: Vec<ChunkProgramOutput>,
}

/// Why the chunks from `k` on cannot cover the transactions from `expected_start` on.
pub open spec fn coverage_complaint_from(
    chunk_outputs: Seq<ChunkProgramOutput>,
    tx_count: usize,
    k: int,
    expected_start: u64,
) -> Option<Seq<char>>
    decreases chunk_outputs.len() - k,
{
    if k < 0 || k >= chunk_outputs.len() {
        if expected_start != tx_count {
            Some(
                "chunk coverage ends at "@ + decimal(expected_start as nat)
                    + ", expected "@ + decimal(tx_count as nat),
            )
        } else {
            None
        }
    } else {
        let artifact = chunk_outputs[k].artifact;
        if artifact.shape_complaint(tx_count) is Some {
            artifact.shape_complaint(tx_count)
        } else if artifact.range.start_tx != expected_start {
            Some(
                "chunk coverage gap or overlap at tx "@ + decimal(
                    artifact.range.start_tx as nat,
                ),
            )
        } else {
            coverage_complaint_from(
                chunk_outputs,
                tx_count,
                k + 1,
                artifact.range.end_tx_exclusive,
            )
        }
    }
}

/// Why the chunks do not cover a block with `tx_count` transactions.
pub open spec fn coverage_complaint(
    chunk_outputs: Seq<ChunkProgramOutput>,
    tx_count: usize,
) -> Option<Seq<char>> {
    if tx_count == 0 {
        if chunk_outputs.len() == 0 {
            None
        } else {
            Some("zero-transaction blocks must not include chunk outputs"@)
        }
    } else if chunk_outputs.len() == 0 {
        Some("non-empty blocks must include chunk outputs"@)
    } else {
        coverage_complaint_from(chunk_outputs, tx_count, 0, 0)
    }
}

/// Chunk `i` starts where the chunk before it ends, the first one at transaction 0.
pub open spec fn follows(chunk_outputs: Seq<ChunkProgramOutput>, i: int) -> bool {
    chunk_outputs[i].artifact.range.start_tx == boundary(chunk_outputs, i)
}

/// Where chunk `i` has to start: the end of the chunk before it.
pub open spec fn boundary(chunk_outputs: Seq<ChunkProgramOutput>, i: int) -> u64 {
    if i <= 0 {
        0
    } else {
        chunk_outputs[i - 1].artifact.range.end_tx_exclusive
    }
}

/// The chunks cover a block with `tx_count` transactions: every artifact is well shaped, each
/// chunk starts where the one before it ends, and the last one ends at `tx_count`.
pub open spec fn covers(chunk_outputs: Seq<ChunkProgramOutput>, tx_count: usize) -> bool {
    &&& forall|i: int|
        0 <= i < chunk_outputs.len() ==> (#[trigger] chunk_outputs[i]).artifact.well_shaped(
            tx_count,
        )
    &&& forall|i: int| 0 <= i < chunk_outputs.len() ==> #[trigger] follows(chunk_outputs, i)
    &&& boundary(chunk_outputs, chunk_outputs.len() as int) == tx_count
}

/// There is no complaint about the coverage exactly if the chunks cover the block.
pub proof fn complains_iff_not_covered(chunk_outputs: Seq<ChunkProgramOutput>, tx_count: usize)
    ensures
        coverage_complaint(chunk_outputs, tx_count) is None <==> covers(chunk_outputs, tx_count),
{
    if chunk_outputs.len() > 0 {
        if tx_count == 0 {
            assert(!chunk_outputs[0].artifact.well_shaped(0));
        } else {
            complains_from(chunk_outputs, tx_count, 0);
        }
    }
}

proof fn complains_from(chunk_outputs: Seq<ChunkProgramOutput>, tx_count: usize, k: int)
    requires
        0 <= k <= chunk_outputs.len(),
    ensures
        coverage_complaint_from(chunk_outputs, tx_count, k, boundary(chunk_outputs, k)) is None
            <==> {
            &&& forall|i: int|
                k <= i < chunk_outputs.len() ==> (#[trigger] chunk_outputs[i]).artifact.well_shaped(
                    tx_count,
                )
            &&& forall|i: int| k <= i < chunk_outputs.len() ==> #[trigger] follows(chunk_outputs, i)
            &&& boundary(chunk_outputs, chunk_outputs.len() as int) == tx_count
        },
    decreases chunk_outputs.len() - k,
{
    if k < chunk_outputs.len() {
        let artifact = chunk_outputs[k].artifact;
        misplaced_iff_not_following(artifact.tx_summaries@, artifact.range.start_tx, 0);
        assert(artifact.shape_complaint(tx_count) is None <==> artifact.well_shaped(tx_count));
        assert(follows(chunk_outputs, k) <==> artifact.range.start_tx == boundary(
            chunk_outputs,
            k,
        ));
        complains_from(chunk_outputs, tx_count, k + 1);
    }
}

/// Checks that the chunks cover a block with `tx_count` transactions.
pub fn validate_chunk_coverage(chunk_outputs: &[ChunkProgramOutput], tx_count: usize) -> (r: Result<
    (),
    String,
>)
    ensures
        answers(r, coverage_complaint(chunk_outputs@, tx_count)),
        r is Ok <==> covers(chunk_outputs@, tx_count),
{
    if tx_count == 0 {
        if chunk_outputs.is_empty() {
            return Ok(());
        }
        proof {
            assert(!chunk_outputs@[0].artifact.well_shaped(0));
        }
        return Err("zero-transaction blocks must not include chunk outputs".to_owned());
    }
    if chunk_outputs.is_empty() {
        return Err("non-empty blocks must include chunk outputs".to_owned());
    }
    let mut expected_start: u64 = 0;
    let mut k: usize = 0;
    while k < chunk_outputs.len()
        invariant
            k <= chunk_outputs.len(),
            tx_count != 0,
            chunk_outputs@.len() > 0,
            expected_start == boundary(chunk_outputs@, k as int),
            coverage_complaint(chunk_outputs@, tx_count) == coverage_complaint_from(
                chunk_outputs@,
                tx_count,
                k as int,
                expected_start,
            ),
            forall|i: int|
                0 <= i < k ==> (#[trigger] chunk_outputs@[i]).artifact.well_shaped(tx_count),
            forall|i: int| 0 <= i < k ==> #[trigger] follows(chunk_outputs@, i),
        decreases chunk_outputs.len() - k,
    {
        let artifact = &chunk_outputs[k].artifact;
        match artifact.validate_shape(tx_count) {
            Ok(()) => {},
            Err(message) => {
                assert(!chunk_outputs@[k as int].artifact.well_shaped(tx_count));
                return Err(message);
            },
        }
        if artifact.range.start_tx != expected_start {
            let mut message = "chunk coverage gap or overlap at tx ".to_owned();
            push_decimal(&mut message, artifact.range.start_tx);
            assert(!follows(chunk_outputs@, k as int));
            return Err(message);
        }
        expected_start = artifact.range.end_tx_exclusive;
        k = k + 1;
    }
    if expected_start != tx_count as u64 {
        let mut message = "chunk coverage ends at ".to_owned();
        push_decimal(&mut message, expected_start);
        push_text(&mut message, ", expected ");
        push_decimal(&mut message, tx_count as u64);
        return Err(message);
    }
    Ok(())
}

impl<R, W> MergeProgramInput<R, W> {
    /// Checks that the chunks cover the transactions of the request.
    pub fn validate_chunk_coverage(&self) -> (r: Result<(), String>)
        ensures
            answers(
                r,
                coverage_complaint(
                    self.chunk_outputs@,
                    self.new_payload_request.execution_payload.transactions.len(),
                ),
            ),
            r is Ok <==> covers(
                self.chunk_outputs@,
                self.new_payload_request.execution_payload.transactions.len(),
            ),
    {
        validate_chunk_coverage(
            self.chunk_outputs.as_slice(),
            self.new_payload_request.execution_payload.transactions.len(),
        )
    }
}

} // verus!
