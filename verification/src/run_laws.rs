//! What the functions of the chunk program and of the merge program do, of whatever they return.

use crate::artifact::{
    parts_complaint, summary_contents, CanonicalChunkArtifact, CanonicalObservedAddress,
    CanonicalObservedStorageAccess, ChunkProgramOutput,
};
use crate::chunk::{
    execution_program as chunk_program, ChunkAction, ChunkEvent, ChunkProgramInput, ChunkReply,
    ChunkRun, ChunkStep, Observation,
};
use crate::chunk_step_laws::{decoded_list_is_kept_by_the_chunk, hashes_end_the_chunk};
use crate::coverage::MergeProgramInput;
use crate::error::{decode_header_bal, ExecutionError};
use crate::gather::{all_accessed, all_summaries, all_touched, gather_outputs};
use crate::hash::keccak256;
use crate::merge::{
    bal_is_read, execution_program as merge_program, MergeAction, MergeEvent, MergeReply, MergeRun,
    MergeStep, Phase, ProgramOutput,
};
use crate::merge_step_laws::{block_hash_decides, built_receipts_are_kept, decoded_list_is_kept};
use crate::payload::{Block, BlockHeader};
use crate::primitives::{Address, H256};
use crate::range::ChunkRange;
use crate::receipt_laws::gas_sums_are_folds;
use crate::rlp::RLPEncode;
use crate::shape_laws::accepted_ranges;
use crate::summary::{receipts_result, Receipt, TxExecutionSummary};
use crate::text::decimal;
use vstd::prelude::*;

verus! {

/// The chunk program starts with the header block access list of its input, with nothing executed
/// or observed, if the range is a chunk of the block; otherwise it ends at once with what is wrong
/// with the range.
pub proof fn chunk_starts_with_its_input<'a, W, B, E>(
    input: &'a ChunkProgramInput<W>,
    run: ChunkRun<'a, B, E>,
)
    requires
        call_ensures(chunk_program::<W, B, E>, (input,), run),
    ensures
        run.chunk_block() == input.block,
        run.encoded_bal() == input.header_bal,
        run.chunk_range() == input.range,
        ({
            let start = input.range.start_tx as usize;
            let end = input.range.end_tx_exclusive as usize;
            let count = input.block.body.transactions@.len();
            if start >= end {
                &&& run.ended() matches Some(Err(ExecutionError::Internal(text)))
                &&& text@ == "chunk range must be non-empty"@
            } else if end > count {
                &&& run.ended() matches Some(Err(ExecutionError::Internal(text)))
                &&& text@ == "chunk range end "@ + decimal(input.range.end_tx_exclusive as nat)
                    + " exceeds transaction count "@ + decimal(count)
            } else {
                &&& run.ended() is None
                &&& run.stage() == ChunkStep::HeaderBal
                &&& run.decoded_bal() is None
                &&& run.tx_senders().len() == 0
                &&& run.executed().len() == 0
                &&& run.touched_addresses().len() == 0
                &&& run.storage_accesses().len() == 0
            }
        }),
{
    let transactions = input.block.body.transactions;
    assert(transactions.len() == transactions@.len());
    accepted_ranges(input.range, transactions.len());
}

/// The input of a chunk holds what it is made of.
pub proof fn chunk_input_holds_its_parts<W>(
    block: Block,
    execution_witness: W,
    header_bal: Vec<u8>,
    range: ChunkRange,
    input: ChunkProgramInput<W>,
)
    requires
        call_ensures(
            ChunkProgramInput::<W>::new,
            (block, execution_witness, header_bal, range),
            input,
        ),
    ensures
        input.block == block,
        input.execution_witness == execution_witness,
        input.header_bal == header_bal,
        input.range == range,
{
}

/// A reply takes a chunk run to the state that the laws of its steps speak of, the pending action
/// is the one that is returned, and the outcome is the one that the run ended with.
pub proof fn chunk_run_goes_by_its_steps<'a, B, E>(
    run: ChunkRun<'a, B, E>,
    reply: ChunkReply<E>,
    next: ChunkRun<'a, B, E>,
    action: ChunkAction,
    outcome: Option<Result<ChunkProgramOutput, ExecutionError<E>>>,
)
    ensures
        call_ensures(ChunkRun::<'a, B, E>::resume, (run, reply), next) ==> run.steps_to(
            ChunkEvent::Reply(reply),
            next,
        ) && next.wf(),
        call_ensures(ChunkRun::<'a, B, E>::action, (&run,), action) ==> action == run.pending(),
        call_ensures(ChunkRun::<'a, B, E>::outcome, (run,), outcome) ==> outcome == run.ended(),
{
}

/// Decoding the block access list of a chunk is decoding its bytes: a list that decodes is kept and
/// the witness comes next, and a decoder that fails ends the chunk with its text.
pub proof fn chunk_decodes_its_list<'a, B, E, D: Fn(&Vec<u8>) -> Result<B, String>>(
    run: ChunkRun<'a, B, E>,
    decode: D,
    next: ChunkRun<'a, B, E>,
) -> (decoded: Result<B, String>)
    requires
        run.wf(),
        run.stage() == ChunkStep::HeaderBal,
        call_ensures(ChunkRun::<'a, B, E>::decode_bal::<D>, (run, &decode), next),
    ensures
        call_ensures(decode, (&run.encoded_bal(),), decoded),
        match decoded {
            Ok(bal) => {
                &&& next.ended() is None
                &&& next.stage() == ChunkStep::Witness
                &&& next.decoded_bal() == Some(bal)
            },
            Err(text) => next.ended() matches Some(Err(ExecutionError::Internal(t))) && t@
                == "failed to decode header BAL: "@ + text@,
        },
{
    let decoded = choose|decoded: Result<B, String>|
        {
            &&& #[trigger] decode.ensures((&run.encoded_bal(),), decoded)
            &&& run.steps_to(ChunkEvent::Decoded(decoded), next)
        };
    decoded_list_is_kept_by_the_chunk(run, decoded, next);
    decoded
}

/// Concluding a chunk hashes the header of its block and its block access list. The output holds
/// these hashes, the range, the summaries and the accesses, and carries the Keccak-256 hash of its
/// encoded artifact; there is one exactly if nothing is wrong with its shape.
pub proof fn chunk_concludes_with_its_hashes<
    'a,
    B,
    E,
    H: Fn(&BlockHeader) -> H256,
    G: Fn(&B) -> H256,
>(
    run: ChunkRun<'a, B, E>,
    hash_header: H,
    hash_bal: G,
    next: ChunkRun<'a, B, E>,
) -> (hashes: (H256, H256))
    requires
        run.wf(),
        run.stage() == ChunkStep::Hashes,
        call_ensures(
            ChunkRun::<'a, B, E>::conclude::<H, G>,
            (run, &hash_header, &hash_bal),
            next,
        ),
    ensures
        call_ensures(hash_header, (&run.chunk_block().header,), hashes.0),
        run.decoded_bal() matches Some(bal) && call_ensures(hash_bal, (&bal,), hashes.1),
        match next.ended() {
            Some(Ok(output)) => {
                &&& output.artifact.block_hash == hashes.0
                &&& output.artifact.bal_hash == hashes.1
                &&& output.artifact.range == run.chunk_range()
                &&& output.artifact.tx_summaries@ == run.executed()
                &&& output.artifact.observed_touched_addresses@ == run.touched_addresses()
                &&& output.artifact.observed_storage_accesses@ == run.storage_accesses()
                &&& output.artifact_hash@ == keccak256(output.artifact.rlp())
            },
            Some(Err(e)) => e matches ExecutionError::Internal(text) && parts_complaint(
                run.chunk_range(),
                run.executed(),
                run.touched_addresses(),
                run.storage_accesses(),
                run.chunk_block().body.transactions@.len() as usize,
            ) == Some(text@),
            None => false,
        },
        next.ended() matches Some(Ok(_)) <==> parts_complaint(
            run.chunk_range(),
            run.executed(),
            run.touched_addresses(),
            run.storage_accesses(),
            run.chunk_block().body.transactions@.len() as usize,
        ) is None,
{
    let (block_hash, bal_hash) = choose|block_hash: H256, bal_hash: H256|
        {
            &&& #[trigger] hash_header.ensures((&run.chunk_block().header,), block_hash)
            &&& #[trigger] hash_bal.ensures((&run.decoded_bal()->0,), bal_hash)
            &&& run.steps_to(ChunkEvent::Hashed { block_hash, bal_hash }, next)
        };
    hashes_end_the_chunk(run, block_hash, bal_hash, next);
    (block_hash, bal_hash)
}

/// A step that does not end the chunk changes nothing but what it is about.
pub proof fn chunk_keeps_what_it_knows<'a, B, E>(
    run: ChunkRun<'a, B, E>,
    event: ChunkEvent<B, E>,
    next: ChunkRun<'a, B, E>,
)
    requires
        run.wf(),
        run.steps_to(event, next),
    ensures
        next.chunk_block() == run.chunk_block(),
        next.encoded_bal() == run.encoded_bal(),
        next.chunk_range() == run.chunk_range(),
        next.ended() is None ==> {
            &&& run.stage() != ChunkStep::HeaderBal ==> next.decoded_bal() == run.decoded_bal()
            &&& run.stage() != ChunkStep::Senders ==> next.tx_senders() == run.tx_senders()
            &&& run.stage() != ChunkStep::Execute ==> next.executed() == run.executed()
            &&& run.stage() != ChunkStep::Observation ==> {
                &&& next.touched_addresses() == run.touched_addresses()
                &&& next.storage_accesses() == run.storage_accesses()
            }
        },
{
}

/// The merge program starts with the header block access list and the outputs of its input, and
/// with nothing else.
pub proof fn merge_starts_with_its_input<'a, R, W, B, E, T, L>(
    input: &'a MergeProgramInput<R, W>,
    run: MergeRun<'a, B, E, T, L>,
)
    requires
        call_ensures(merge_program::<R, W, B, E, T, L>, (input,), run),
    ensures
        run.ended() is None,
        run.stage() == MergeStep::HeaderBal,
        run.chunk_outputs() == input.chunk_outputs@,
        run.encoded_bal() == input.header_bal,
        run.decoded_bal() is None,
        run.request() is None,
        run.gathered().len() == 0,
        run.block_receipts().len() == 0,
        run.touched().len() == 0,
        run.accessed().len() == 0,
{
}

/// A reply takes a merge run to the state that the laws of its steps speak of, and what is returned
/// of a run is what it holds.
pub proof fn merge_run_goes_by_its_steps<'a, B, E, T, L>(
    run: MergeRun<'a, B, E, T, L>,
    reply: MergeReply<E>,
    next: MergeRun<'a, B, E, T, L>,
    action: MergeAction,
    outcome: Option<Result<ProgramOutput, ExecutionError<E>>>,
    summaries: &[TxExecutionSummary],
    receipts: &[Receipt<T, L>],
    observed: &Observation,
)
    ensures
        call_ensures(MergeRun::<'a, B, E, T, L>::resume, (run, reply), next) ==> run.steps_to(
            MergeEvent::Reply(reply),
            next,
        ) && next.wf(),
        call_ensures(MergeRun::<'a, B, E, T, L>::action, (&run,), action) ==> action
            == run.pending(),
        call_ensures(MergeRun::<'a, B, E, T, L>::outcome, (run,), outcome) ==> outcome
            == run.ended(),
        call_ensures(MergeRun::<'a, B, E, T, L>::summaries, (&run,), summaries) ==> summaries@
            == run.gathered(),
        call_ensures(MergeRun::<'a, B, E, T, L>::receipts, (&run,), receipts) ==> receipts@
            == run.block_receipts(),
        call_ensures(MergeRun::<'a, B, E, T, L>::observed_accesses, (&run,), observed) ==> {
            &&& observed.touched_addresses@ == run.touched()
            &&& observed.storage_accesses@ == run.accessed()
        },
{
}

/// The withdrawal addresses of a merge are those of the withdrawals of its block, one for one and
/// in order.
pub proof fn merge_lists_the_withdrawal_addresses<'a, B, E, T, L>(
    run: MergeRun<'a, B, E, T, L>,
    addresses: Vec<Address>,
    i: int,
)
    requires
        call_ensures(MergeRun::<'a, B, E, T, L>::withdrawal_addresses, (&run,), addresses),
    ensures
        run.request() is None ==> addresses@.len() == 0,
        run.request() matches Some(request) ==> match request.block.body.withdrawals {
            None => addresses@.len() == 0,
            Some(withdrawals) => {
                &&& addresses@.len() == withdrawals@.len()
                &&& 0 <= i < withdrawals@.len() ==> addresses@[i] == withdrawals@[i].address
            },
        },
{
}

/// Decoding the block access list of a merge is decoding its bytes and hashing what comes of it.
pub proof fn merge_decodes_its_list<
    'a,
    B,
    E,
    T,
    L,
    D: Fn(&Vec<u8>) -> Result<B, String>,
    G: Fn(&B) -> H256,
>(
    run: MergeRun<'a, B, E, T, L>,
    decode: D,
    hash_bal: G,
    next: MergeRun<'a, B, E, T, L>,
) -> (decoded: Result<(B, H256), String>)
    requires
        run.wf(),
        run.stage() == MergeStep::HeaderBal,
        call_ensures(
            MergeRun::<'a, B, E, T, L>::decode_bal::<D, G>,
            (run, &decode, &hash_bal),
            next,
        ),
    ensures
        match decoded {
            Ok((bal, hash)) => {
                &&& call_ensures(decode, (&run.encoded_bal(),), Ok(bal))
                &&& call_ensures(hash_bal, (&bal,), hash)
                &&& next.ended() is None
                &&& next.stage() == MergeStep::Request
                &&& next.decoded_bal() == Some(bal)
                &&& next.header_bal_hash() == hash
            },
            Err(text) => {
                &&& call_ensures(decode, (&run.encoded_bal(),), Err(text))
                &&& next.ended() matches Some(Err(ExecutionError::Internal(t)))
                &&& t@ == "failed to decode header BAL: "@ + text@
            },
        },
{
    let decoded = choose|decoded: Result<(B, H256), String>|
        {
            &&& #[trigger] bal_is_read(run.encoded_bal(), decode, hash_bal, decoded)
            &&& run.steps_to(MergeEvent::Decoded(decoded), next)
        };
    decoded_list_is_kept(run, decoded, next);
    decoded
}

/// Checking the chunks hashes the header of the block; the merge goes on exactly if every output
/// carries the Keccak-256 hash of its encoded artifact, that hash of the block and the hash of the
/// block access list.
pub proof fn merge_checks_its_chunks<'a, B, E, T, L, H: Fn(&BlockHeader) -> H256>(
    run: MergeRun<'a, B, E, T, L>,
    hash_header: H,
    next: MergeRun<'a, B, E, T, L>,
) -> (hash: H256)
    requires
        run.wf(),
        run.stage() == MergeStep::BlockHash,
        call_ensures(MergeRun::<'a, B, E, T, L>::check_chunks::<H>, (run, &hash_header), next),
    ensures
        run.request() matches Some(request) && call_ensures(
            hash_header,
            (&request.block.header,),
            hash,
        ),
        next.ended() is None <==> (forall|i: int|
            0 <= i < run.chunk_outputs().len() ==> {
                let output: ChunkProgramOutput = #[trigger] run.chunk_outputs()[i];
                &&& output.artifact_hash@ == keccak256(output.artifact.rlp())
                &&& output.artifact.block_hash == hash
                &&& output.artifact.bal_hash == run.header_bal_hash()
            }),
        next.ended() is None ==> {
            &&& next.stage() == MergeStep::PreCalls
            &&& next.expected_block_hash() == hash
        },
        next.ended() is Some ==> next.ended() matches Some(Err(ExecutionError::Internal(_))),
{
    let hash = choose|block_hash: H256|
        {
            &&& #[trigger] hash_header.ensures((&run.block().header,), block_hash)
            &&& run.steps_to(MergeEvent::Hashed(block_hash), next)
        };
    block_hash_decides(run, hash, next);
    hash
}

/// With the hash of the block, the merge holds what the outputs hold, one output after the other:
/// their touched addresses, their storage accesses, and their summaries field by field.
pub proof fn merge_gathers_its_chunks<B, E, T, L>(
    run: MergeRun<B, E, T, L>,
    hash: H256,
    next: MergeRun<B, E, T, L>,
    i: int,
)
    requires
        run.wf(),
        run.stage() == MergeStep::BlockHash,
        run.steps_to(MergeEvent::Hashed(hash), next),
        next.ended() is None,
    ensures
        next.touched() == run.chunk_outputs().map_values(
            |o: ChunkProgramOutput|
                o.artifact.observed_touched_addresses@.map_values(
                    |account: CanonicalObservedAddress| account.address,
                ),
        ).flatten(),
        next.accessed() == run.chunk_outputs().map_values(
            |o: ChunkProgramOutput|
                o.artifact.observed_storage_accesses@.map_values(
                    |access: CanonicalObservedStorageAccess| (access.address, access.slot),
                ),
        ).flatten(),
        ({
            let all = run.chunk_outputs().map_values(
                |o: ChunkProgramOutput| o.artifact.tx_summaries@,
            ).flatten();
            &&& next.gathered().len() == all.len()
            &&& 0 <= i < all.len() ==> same_fields(next.gathered()[i], all[i])
        }),
{
    gathering_is_flattening(run.chunk_outputs());
    let all = all_summaries(run.chunk_outputs());
    assert(summary_contents(next.gathered()).len() == next.gathered().len());
    assert(summary_contents(all).len() == all.len());
    if 0 <= i < all.len() {
        assert(summary_contents(next.gathered())[i] == next.gathered()[i]@);
        assert(summary_contents(all)[i] == all[i]@);
        content_is_that_of_the_fields(next.gathered()[i], all[i]);
    }
}

/// Gathering outputs on its own gives the same.
pub proof fn gathered_outputs_are_flattened(
    outputs: &[ChunkProgramOutput],
    r: (Vec<TxExecutionSummary>, Observation),
    i: int,
)
    requires
        call_ensures(gather_outputs, (outputs,), r),
    ensures
        r.1.touched_addresses@ == outputs@.map_values(
            |o: ChunkProgramOutput|
                o.artifact.observed_touched_addresses@.map_values(
                    |account: CanonicalObservedAddress| account.address,
                ),
        ).flatten(),
        r.1.storage_accesses@ == outputs@.map_values(
            |o: ChunkProgramOutput|
                o.artifact.observed_storage_accesses@.map_values(
                    |access: CanonicalObservedStorageAccess| (access.address, access.slot),
                ),
        ).flatten(),
        ({
            let all = outputs@.map_values(
                |o: ChunkProgramOutput| o.artifact.tx_summaries@,
            ).flatten();
            &&& r.0@.len() == all.len()
            &&& 0 <= i < all.len() ==> same_fields(r.0@[i], all[i])
        }),
{
    gathering_is_flattening(outputs@);
    let all = all_summaries(outputs@);
    assert(summary_contents(r.0@).len() == r.0@.len());
    assert(summary_contents(all).len() == all.len());
    if 0 <= i < all.len() {
        assert(summary_contents(r.0@)[i] == r.0@[i]@);
        assert(summary_contents(all)[i] == all[i]@);
        content_is_that_of_the_fields(r.0@[i], all[i]);
    }
}

/// Two summaries agree in every field, and in every byte of every log.
pub open spec fn same_fields(a: TxExecutionSummary, b: TxExecutionSummary) -> bool {
    &&& a.tx_index == b.tx_index
    &&& a.tx_type == b.tx_type
    &&& a.succeeded == b.succeeded
    &&& a.gas_spent == b.gas_spent
    &&& a.gas_used == b.gas_used
    &&& a.state_gas_used == b.state_gas_used
    &&& a.logs@.len() == b.logs@.len()
    &&& forall|k: int| 0 <= k < a.logs@.len() ==> (#[trigger] a.logs@[k])@ == b.logs@[k]@
}

/// Summaries with the same content agree in every field, and the other way round; so do a summary
/// and its clone.
pub proof fn content_is_that_of_the_fields(a: TxExecutionSummary, b: TxExecutionSummary)
    ensures
        a@ == b@ ==> {
            &&& a.tx_index == b.tx_index
            &&& a.tx_type == b.tx_type
            &&& a.succeeded == b.succeeded
            &&& a.gas_spent == b.gas_spent
            &&& a.gas_used == b.gas_used
            &&& a.state_gas_used == b.state_gas_used
            &&& a.logs@.len() == b.logs@.len()
            &&& forall|k: int| 0 <= k < a.logs@.len() ==> (#[trigger] a.logs@[k])@ == b.logs@[k]@
        },
        same_fields(a, b) ==> a@ == b@,
        call_ensures(<TxExecutionSummary as Clone>::clone, (&a,), b) ==> a@ == b@,
{
    if a@ == b@ {
        assert(a.logs@.len() == a@.logs.len());
        assert(b.logs@.len() == b@.logs.len());
        assert forall|k: int| 0 <= k < a.logs@.len() implies (#[trigger] a.logs@[k])@
            == b.logs@[k]@ by {
            assert(a@.logs[k] == a.logs@[k]@);
            assert(b@.logs[k] == b.logs@[k]@);
        }
    }
    if same_fields(a, b) {
        assert(a@.logs =~= b@.logs);
    }
}

/// Artifacts with the same content agree in every field, summary by summary; so do an artifact and
/// its clone.
pub proof fn artifact_content_is_that_of_the_fields(
    a: CanonicalChunkArtifact,
    b: CanonicalChunkArtifact,
    i: int,
)
    requires
        a@ == b@ || call_ensures(<CanonicalChunkArtifact as Clone>::clone, (&b,), a),
    ensures
        a.block_hash == b.block_hash,
        a.bal_hash == b.bal_hash,
        a.range == b.range,
        a.tx_summaries@.len() == b.tx_summaries@.len(),
        0 <= i < a.tx_summaries@.len() ==> same_fields(a.tx_summaries@[i], b.tx_summaries@[i]),
        a.observed_touched_addresses@ == b.observed_touched_addresses@,
        a.observed_storage_accesses@ == b.observed_storage_accesses@,
{
    assert(a@.tx_summaries.len() == a.tx_summaries@.len());
    assert(b@.tx_summaries.len() == b.tx_summaries@.len());
    if 0 <= i < a.tx_summaries@.len() {
        assert(a@.tx_summaries[i] == a.tx_summaries@[i]@);
        assert(b@.tx_summaries[i] == b.tx_summaries@[i]@);
        content_is_that_of_the_fields(a.tx_summaries@[i], b.tx_summaries@[i]);
    }
}

/// Outputs with the same content agree in their hashes and in every field of their artifacts; so do
/// an output and its clone.
pub proof fn output_content_is_that_of_the_fields(
    a: ChunkProgramOutput,
    b: ChunkProgramOutput,
    i: int,
)
    requires
        a@ == b@ || call_ensures(<ChunkProgramOutput as Clone>::clone, (&b,), a),
    ensures
        a.artifact_hash == b.artifact_hash,
        a.artifact.block_hash == b.artifact.block_hash,
        a.artifact.bal_hash == b.artifact.bal_hash,
        a.artifact.range == b.artifact.range,
        a.artifact.tx_summaries@.len() == b.artifact.tx_summaries@.len(),
        0 <= i < a.artifact.tx_summaries@.len() ==> same_fields(
            a.artifact.tx_summaries@[i],
            b.artifact.tx_summaries@[i],
        ),
        a.artifact.observed_touched_addresses@ == b.artifact.observed_touched_addresses@,
        a.artifact.observed_storage_accesses@ == b.artifact.observed_storage_accesses@,
{
    assert(a@.artifact == a.artifact@ && b@.artifact == b.artifact@);
    artifact_content_is_that_of_the_fields(a.artifact, b.artifact, i);
}

/// Errors with the same content are of the same kind and hold the same.
pub proof fn error_content_is_that_of_the_error<E>(a: ExecutionError<E>, b: ExecutionError<E>)
    requires
        a@ == b@,
    ensures
        match (a, b) {
            (ExecutionError::Internal(x), ExecutionError::Internal(y)) => x@ == y@,
            _ => a == b,
        },
{
    match (a, b) {
        (ExecutionError::Internal(_), _) => {},
        (_, ExecutionError::Internal(_)) => {},
        _ => {},
    }
}

proof fn gathering_is_flattening(outputs: Seq<ChunkProgramOutput>)
    ensures
        all_touched(outputs) == outputs.map_values(
            |o: ChunkProgramOutput|
                o.artifact.observed_touched_addresses@.map_values(
                    |account: CanonicalObservedAddress| account.address,
                ),
        ).flatten(),
        all_accessed(outputs) == outputs.map_values(
            |o: ChunkProgramOutput|
                o.artifact.observed_storage_accesses@.map_values(
                    |access: CanonicalObservedStorageAccess| (access.address, access.slot),
                ),
        ).flatten(),
        all_summaries(outputs) == outputs.map_values(
            |o: ChunkProgramOutput| o.artifact.tx_summaries@,
        ).flatten(),
    decreases outputs.len(),
{
    let touched = outputs.map_values(
        |o: ChunkProgramOutput|
            o.artifact.observed_touched_addresses@.map_values(
                |account: CanonicalObservedAddress| account.address,
            ),
    );
    let accessed = outputs.map_values(
        |o: ChunkProgramOutput|
            o.artifact.observed_storage_accesses@.map_values(
                |access: CanonicalObservedStorageAccess| (access.address, access.slot),
            ),
    );
    let summaries = outputs.map_values(|o: ChunkProgramOutput| o.artifact.tx_summaries@);
    touched.lemma_flatten_and_flatten_alt_are_equivalent();
    accessed.lemma_flatten_and_flatten_alt_are_equivalent();
    summaries.lemma_flatten_and_flatten_alt_are_equivalent();
    if outputs.len() > 0 {
        let front = outputs.drop_last();
        gathering_is_flattening(front);
        touched.drop_last().lemma_flatten_and_flatten_alt_are_equivalent();
        accessed.drop_last().lemma_flatten_and_flatten_alt_are_equivalent();
        summaries.drop_last().lemma_flatten_and_flatten_alt_are_equivalent();
        assert(touched.drop_last() =~= front.map_values(
            |o: ChunkProgramOutput|
                o.artifact.observed_touched_addresses@.map_values(
                    |account: CanonicalObservedAddress| account.address,
                ),
        ));
        assert(accessed.drop_last() =~= front.map_values(
            |o: ChunkProgramOutput|
                o.artifact.observed_storage_accesses@.map_values(
                    |access: CanonicalObservedStorageAccess| (access.address, access.slot),
                ),
        ));
        assert(summaries.drop_last() =~= front.map_values(
            |o: ChunkProgramOutput| o.artifact.tx_summaries@,
        ));
        assert(all_touched(outputs) =~= all_touched(front) + touched.last());
        assert(all_accessed(outputs) =~= all_accessed(front) + accessed.last());
        assert(all_summaries(outputs) =~= all_summaries(front) + summaries.last());
    }
}

/// The receipts of a merge are built from the summaries that it gathered; receipts that could not
/// be built end it with the text of the error.
pub proof fn merge_builds_its_receipts<
    'a,
    B,
    E,
    T,
    L,
    K: Fn(u8) -> Option<T>,
    D: Fn(&Vec<u8>) -> Result<L, String>,
>(
    run: MergeRun<'a, B, E, T, L>,
    kind_of: K,
    decode: D,
    next: MergeRun<'a, B, E, T, L>,
) -> (built: Result<Vec<Receipt<T, L>>, String>)
    requires
        run.wf(),
        run.stage() == MergeStep::Receipts,
        call_ensures(
            MergeRun::<'a, B, E, T, L>::build_receipts::<K, D>,
            (run, &kind_of, &decode),
            next,
        ),
    ensures
        receipts_result(run.gathered(), kind_of, decode, built),
        match built {
            Ok(receipts) => {
                &&& next.ended() is None
                &&& next.stage() == MergeStep::Gas
                &&& next.block_receipts() == receipts@
                &&& next.gathered() == run.gathered()
            },
            Err(text) => next.ended() matches Some(Err(ExecutionError::Internal(t))) && t@
                == text@,
        },
{
    let built = choose|built: Result<Vec<Receipt<T, L>>, String>|
        {
            &&& #[trigger] receipts_result(run.gathered(), kind_of, decode, built)
            &&& run.steps_to(MergeEvent::Built(built), next)
        };
    built_receipts_are_kept(run, built, next);
    built
}

/// The gas that is validated against the header is the larger one of two sums over all summaries
/// that were gathered, up to the largest `u64`: that of the state gas, and that of the gas used
/// beyond the state gas.
pub proof fn merge_validates_the_larger_sum<B, E, T, L>(run: MergeRun<B, E, T, L>)
    requires
        run.wf(),
        run.stage() == MergeStep::Gas,
    ensures
        run.pending() matches MergeAction::ValidateGas { gas } && {
            let state = run.gathered().fold_left(
                0int,
                |sum: int, summary: TxExecutionSummary| sum + summary.state_gas_used,
            );
            let regular = run.gathered().fold_left(
                0int,
                |sum: int, summary: TxExecutionSummary|
                    if summary.gas_used > summary.state_gas_used {
                        sum + summary.gas_used - summary.state_gas_used
                    } else {
                        sum
                    },
            );
            let larger = if state > regular {
                state
            } else {
                regular
            };
            gas == if larger > u64::MAX {
                u64::MAX as int
            } else {
                larger
            }
        },
{
    gas_sums_are_folds(run.gathered());
}

/// A step that does not end the merge changes nothing but what it is about.
pub proof fn merge_keeps_what_it_knows<B, E, T, L>(
    run: MergeRun<B, E, T, L>,
    event: MergeEvent<B, E, T, L>,
    next: MergeRun<B, E, T, L>,
)
    requires
        run.wf(),
        run.steps_to(event, next),
    ensures
        next.chunk_outputs() == run.chunk_outputs(),
        next.encoded_bal() == run.encoded_bal(),
        next.ended() is None ==> {
            &&& run.stage() != MergeStep::HeaderBal ==> {
                &&& next.decoded_bal() == run.decoded_bal()
                &&& next.header_bal_hash() == run.header_bal_hash()
            }
            &&& run.stage() != MergeStep::Request ==> next.request() == run.request()
            &&& run.stage() != MergeStep::Parent ==> next.parent_state_root()
                == run.parent_state_root()
            &&& run.stage() != MergeStep::BlockHash ==> {
                &&& next.expected_block_hash() == run.expected_block_hash()
                &&& next.gathered() == run.gathered()
            }
            &&& run.stage() != MergeStep::BlockHash && run.stage() != MergeStep::PreObservation
                && run.stage() != MergeStep::PostObservation ==> {
                &&& next.touched() == run.touched()
                &&& next.accessed() == run.accessed()
            }
            &&& run.stage() != MergeStep::Receipts ==> next.block_receipts()
                == run.block_receipts()
        },
{
}

/// What a program does itself happens only at its stage: at any other, nothing changes.
pub proof fn nothing_changes_at_another_stage<
    'a,
    B,
    E,
    T,
    L,
    D: Fn(&Vec<u8>) -> Result<B, String>,
    H: Fn(&BlockHeader) -> H256,
    G: Fn(&B) -> H256,
    K: Fn(u8) -> Option<T>,
    C: Fn(&Vec<u8>) -> Result<L, String>,
>(
    chunk: ChunkRun<'a, B, E>,
    next_chunk: ChunkRun<'a, B, E>,
    merge: MergeRun<'a, B, E, T, L>,
    next_merge: MergeRun<'a, B, E, T, L>,
    decode: D,
    hash_header: H,
    hash_bal: G,
    kind_of: K,
    decode_log: C,
)
    ensures
        chunk.stage() != ChunkStep::HeaderBal && call_ensures(
            ChunkRun::<'a, B, E>::decode_bal::<D>,
            (chunk, &decode),
            next_chunk,
        ) ==> next_chunk == chunk,
        chunk.stage() != ChunkStep::Hashes && call_ensures(
            ChunkRun::<'a, B, E>::conclude::<H, G>,
            (chunk, &hash_header, &hash_bal),
            next_chunk,
        ) ==> next_chunk == chunk,
        merge.stage() != MergeStep::HeaderBal && call_ensures(
            MergeRun::<'a, B, E, T, L>::decode_bal::<D, G>,
            (merge, &decode, &hash_bal),
            next_merge,
        ) ==> next_merge == merge,
        merge.stage() != MergeStep::BlockHash && call_ensures(
            MergeRun::<'a, B, E, T, L>::check_chunks::<H>,
            (merge, &hash_header),
            next_merge,
        ) ==> next_merge == merge,
        merge.stage() != MergeStep::Receipts && call_ensures(
            MergeRun::<'a, B, E, T, L>::build_receipts::<K, C>,
            (merge, &kind_of, &decode_log),
            next_merge,
        ) ==> next_merge == merge,
{
}

/// The phases have the names that error messages give them.
pub proof fn phases_are_named(phase: Phase, label: &'static str)
    requires
        call_ensures(Phase::label, (phase,), label),
    ensures
        phase == Phase::PreSystem ==> label@ == "pre-system phase"@,
        phase == Phase::WithdrawalRequest ==> label@ == "withdrawal/request phase"@,
{
}

/// Decoding a header block access list gives what the decoder gives, or an error with its text.
pub proof fn header_list_is_what_the_decoder_gives<B, E, D: Fn(&Vec<u8>) -> Result<B, String>>(
    bytes: Vec<u8>,
    decode: D,
    r: Result<B, ExecutionError<E>>,
)
    requires
        call_ensures(decode_header_bal::<B, E, D>, (&bytes, &decode), r),
    ensures
        match r {
            Ok(bal) => call_ensures(decode, (&bytes,), Ok(bal)),
            Err(ExecutionError::Internal(t)) => exists|text: String|
                #[trigger] call_ensures(decode, (&bytes,), Err::<B, String>(text)) && t@
                    == "failed to decode header BAL: "@ + text@,
            Err(_) => false,
        },
{
}

} // verus!
