//! Checking the outputs of all chunks of a block against the block, and gathering what they hold.

use crate::artifact::{
    summary_contents, CanonicalObservedAddress, CanonicalObservedStorageAccess, ChunkProgramOutput,
};
use crate::chunk::Observation;
use crate::hash::keccak256;
use crate::primitives::{Address, H256};
use crate::range::answers;
use crate::rlp::RLPEncode;
use crate::summary::TxExecutionSummary;
use vstd::prelude::*;

verus! {

/// Why an output is not one of the block with these hashes.
pub open spec fn output_complaint(
    output: ChunkProgramOutput,
    block_hash: H256,
    bal_hash: H256,
) -> Option<Seq<char>> {
    if output.artifact_hash@ != keccak256(output.artifact.rlp()) {
        Some("chunk artifact hash mismatch"@)
    } else if output.artifact.block_hash != block_hash {
        Some("chunk artifact block hash mismatch"@)
    } else if output.artifact.bal_hash != bal_hash {
        Some("chunk artifact BAL hash mismatch"@)
    } else {
        None
    }
}

/// What is wrong with the first output from `k` on that is not one of the block.
pub open spec fn outputs_complaint_from(
    outputs: Seq<ChunkProgramOutput>,
    block_hash: H256,
    bal_hash: H256,
    k: int,
) -> Option<Seq<char>>
    decreases outputs.len() - k,
{
    if k < 0 || k >= outputs.len() {
        None
    } else if output_complaint(outputs[k], block_hash, bal_hash) is Some {
        output_complaint(outputs[k], block_hash, bal_hash)
    } else {
        outputs_complaint_from(outputs, block_hash, bal_hash, k + 1)
    }
}

/// What is wrong with the first output that is not one of the block.
pub open spec fn outputs_complaint(
    outputs: Seq<ChunkProgramOutput>,
    block_hash: H256,
    bal_hash: H256,
) -> Option<Seq<char>> {
    outputs_complaint_from(outputs, block_hash, bal_hash, 0)
}

/// The output commits to its artifact, and the artifact to the block and its access list.
pub open spec fn belongs(output: ChunkProgramOutput, block_hash: H256, bal_hash: H256) -> bool {
    &&& output.artifact_hash@ == keccak256(output.artifact.rlp())
    &&& output.artifact.block_hash == block_hash
    &&& output.artifact.bal_hash == bal_hash
}

/// All outputs are those of the block.
pub open spec fn all_belong(
    outputs: Seq<ChunkProgramOutput>,
    block_hash: H256,
    bal_hash: H256,
) -> bool {
    forall|i: int|
        0 <= i < outputs.len() ==> belongs(#[trigger] outputs[i], block_hash, bal_hash)
}

/// The summaries of all outputs, one output after the other.
pub open spec fn all_summaries(outputs: Seq<ChunkProgramOutput>) -> Seq<TxExecutionSummary>
    decreases outputs.len(),
{
    if outputs.len() == 0 {
        Seq::empty()
    } else {
        all_summaries(outputs.drop_last()) + outputs.last().artifact.tx_summaries@
    }
}

/// The bare addresses.
pub open spec fn bare_addresses(accounts: Seq<CanonicalObservedAddress>) -> Seq<Address> {
    accounts.map_values(|account: CanonicalObservedAddress| account.address)
}

/// The bare pairs of address and slot.
pub open spec fn bare_accesses(accesses: Seq<CanonicalObservedStorageAccess>) -> Seq<
    (Address, H256),
> {
    accesses.map_values(|access: CanonicalObservedStorageAccess| (access.address, access.slot))
}

/// The addresses that all outputs touched, one output after the other.
pub open spec fn all_touched(outputs: Seq<ChunkProgramOutput>) -> Seq<Address>
    decreases outputs.len(),
{
    if outputs.len() == 0 {
        Seq::empty()
    } else {
        all_touched(outputs.drop_last()) + bare_addresses(
            outputs.last().artifact.observed_touched_addresses@,
        )
    }
}

/// The storage slots that all outputs accessed, one output after the other.
pub open spec fn all_accessed(outputs: Seq<ChunkProgramOutput>) -> Seq<(Address, H256)>
    decreases outputs.len(),
{
    if outputs.len() == 0 {
        Seq::empty()
    } else {
        all_accessed(outputs.drop_last()) + bare_accesses(
            outputs.last().artifact.observed_storage_accesses@,
        )
    }
}

/// Checks that all outputs are those of the block with these hashes.
pub fn check_outputs(outputs: &[ChunkProgramOutput], block_hash: &H256, bal_hash: &H256) -> (r:
    Result<(), String>)
    ensures
        answers(r, outputs_complaint(outputs@, *block_hash, *bal_hash)),
        r is Ok <==> all_belong(outputs@, *block_hash, *bal_hash),
{
    let mut k: usize = 0;
    while k < outputs.len()
        invariant
            k <= outputs.len(),
            outputs_complaint(outputs@, *block_hash, *bal_hash) == outputs_complaint_from(
                outputs@,
                *block_hash,
                *bal_hash,
                k as int,
            ),
            all_belong(outputs@.take(k as int), *block_hash, *bal_hash),
        decreases outputs.len() - k,
    {
        let output = &outputs[k];
        let recomputed_hash = output.artifact.compute_hash();
        let ghost fits = belongs(outputs@[k as int], *block_hash, *bal_hash);
        if !recomputed_hash.same(&output.artifact_hash) {
            assert(!fits);
            return Err("chunk artifact hash mismatch".to_owned());
        }
        if !output.artifact.block_hash.same(block_hash) {
            assert(!fits);
            return Err("chunk artifact block hash mismatch".to_owned());
        }
        if !output.artifact.bal_hash.same(bal_hash) {
            assert(!fits);
            return Err("chunk artifact BAL hash mismatch".to_owned());
        }
        assert forall|i: int| 0 <= i < k + 1 implies belongs(
            #[trigger] outputs@.take(k + 1)[i],
            *block_hash,
            *bal_hash,
        ) by {
            if i < k {
                assert(outputs@.take(k + 1)[i] == outputs@.take(k as int)[i]);
            }
        }
        k = k + 1;
    }
    assert(outputs@.take(k as int) =~= outputs@);
    Ok(())
}

/// Adds the bare addresses to a list.
fn extend_addresses(list: &mut Vec<Address>, accounts: &Vec<CanonicalObservedAddress>)
    ensures
        final(list)@ == old(list)@ + bare_addresses(accounts@),
{
    let mut i: usize = 0;
    while i < accounts.len()
        invariant
            i <= accounts.len(),
            list@ == old(list)@ + bare_addresses(accounts@.take(i as int)),
        decreases accounts.len() - i,
    {
        list.push(accounts[i].address);
        i = i + 1;
        assert(list@ =~= old(list)@ + bare_addresses(accounts@.take(i as int)));
    }
    assert(accounts@.take(i as int) =~= accounts@);
}

/// Adds the bare pairs of address and slot to a list.
fn extend_accesses(list: &mut Vec<(Address, H256)>, accesses: &Vec<CanonicalObservedStorageAccess>)
    ensures
        final(list)@ == old(list)@ + bare_accesses(accesses@),
{
    let mut i: usize = 0;
    while i < accesses.len()
        invariant
            i <= accesses.len(),
            list@ == old(list)@ + bare_accesses(accesses@.take(i as int)),
        decreases accesses.len() - i,
    {
        list.push((accesses[i].address, accesses[i].slot));
        i = i + 1;
        assert(list@ =~= old(list)@ + bare_accesses(accesses@.take(i as int)));
    }
    assert(accesses@.take(i as int) =~= accesses@);
}

/// Gathers the summaries and the observed accesses of all outputs.
pub fn gather_outputs(outputs: &[ChunkProgramOutput]) -> (r: (Vec<TxExecutionSummary>, Observation))
    ensures
        summary_contents(r.0@) == summary_contents(all_summaries(outputs@)),
        r.1.touched_addresses@ == all_touched(outputs@),
        r.1.storage_accesses@ == all_accessed(outputs@),
{
    let mut summaries: Vec<TxExecutionSummary> = Vec::new();
    let mut touched_addresses: Vec<Address> = Vec::new();
    let mut storage_accesses: Vec<(Address, H256)> = Vec::new();
    let mut k: usize = 0;
    assert(summary_contents(summaries@) =~= summary_contents(
        all_summaries(outputs@.take(0)),
    ));
    while k < outputs.len()
        invariant
            k <= outputs.len(),
            summary_contents(summaries@) == summary_contents(
                all_summaries(outputs@.take(k as int)),
            ),
            touched_addresses@ == all_touched(outputs@.take(k as int)),
            storage_accesses@ == all_accessed(outputs@.take(k as int)),
        decreases outputs.len() - k,
    {
        let artifact = &outputs[k].artifact;
        let mut more = artifact.tx_summaries.clone();
        let ghost before = summaries@;
        let ghost added = more@;
        summaries.append(&mut more);
        extend_addresses(&mut touched_addresses, &artifact.observed_touched_addresses);
        extend_accesses(&mut storage_accesses, &artifact.observed_storage_accesses);
        proof {
            let front = outputs@.take(k as int);
            let next = outputs@.take(k + 1);
            assert(next.drop_last() =~= front);
            assert(next.last() == outputs@[k as int]);
            let own = outputs@[k as int].artifact.tx_summaries@;
            assert(summary_contents(added) =~= summary_contents(own));
            assert(summary_contents(before + added) =~= summary_contents(before)
                + summary_contents(added));
            assert(summary_contents(all_summaries(front) + own) =~= summary_contents(
                all_summaries(front),
            ) + summary_contents(own));
        }
        k = k + 1;
    }
    assert(outputs@.take(k as int) =~= outputs@);
    (summaries, Observation { touched_addresses, storage_accesses })
}

} // verus!
