//! The artifact that a chunk leaves behind, and its commitment hash.

use crate::hash::{keccak, keccak256};
use crate::primitives::{bytes_before, is_before, same_bytes, Address, H256};
use crate::range::{answers, ChunkRange};
use crate::rlp::{concat, item_encodings, push_list, rlp_list, RLPEncode};
use crate::summary::{SummaryContent, TxExecutionSummary};
use crate::text::{decimal, push_decimal, push_text};
use vstd::prelude::*;

verus! {

/// A storage slot that was read or written.
#[derive(Clone, Copy, Debug, Default, PartialEq, Eq)]
pub struct CanonicalObservedStorageAccess {
    pub address: Address,
    pub slot: H256,
}

/// An account that was touched.
#[derive(Clone, Copy, Debug, Default, PartialEq, Eq)]
pub struct CanonicalObservedAddress {
    pub address: Address,
}

/// What the execution of one chunk claims.
#[derive(Debug, Default, PartialEq, Eq)]
pub struct CanonicalChunkArtifact {
    pub block_hash: H256,
    pub bal_hash: H256,
    pub range: ChunkRange,
    pub tx_summaries: Vec<TxExecutionSummary>,
    pub observed_touched_addresses: Vec<CanonicalObservedAddress>,
    pub observed_storage_accesses: Vec<CanonicalObservedStorageAccess>,
}

/// An artifact with its hash.
#[derive(Debug, Default, PartialEq, Eq)]
pub struct ChunkProgramOutput {
    pub artifact: CanonicalChunkArtifact,
    pub artifact_hash: H256,
}

/// The content of a [`CanonicalChunkArtifact`].
pub ghost struct ArtifactContent {
    pub block_hash: H256,
    pub bal_hash: H256,
    pub range: ChunkRange,
    pub tx_summaries: Seq<SummaryContent>,
    pub observed_touched_addresses: Seq<CanonicalObservedAddress>,
    pub observed_storage_accesses: Seq<CanonicalObservedStorageAccess>,
}

/// The content of a [`ChunkProgramOutput`].
pub ghost struct OutputContent {
    pub artifact: ArtifactContent,
    pub artifact_hash: H256,
}

impl View for CanonicalChunkArtifact {
    type V = ArtifactContent;

    open spec fn view(&self) -> ArtifactContent {
        ArtifactContent {
            block_hash: self.block_hash,
            bal_hash: self.bal_hash,
            range: self.range,
            tx_summaries: summary_contents(self.tx_summaries@),
            observed_touched_addresses: self.observed_touched_addresses@,
            observed_storage_accesses: self.observed_storage_accesses@,
        }
    }
}

impl View for ChunkProgramOutput {
    type V = OutputContent;

    open spec fn view(&self) -> OutputContent {
        OutputContent { artifact: self.artifact@, artifact_hash: self.artifact_hash }
    }
}

/// The contents of some summaries.
pub open spec fn summary_contents(summaries: Seq<TxExecutionSummary>) -> Seq<SummaryContent> {
    Seq::new(summaries.len(), |i: int| summaries[i]@)
}

/// The contents of some outputs.
pub open spec fn output_contents(outputs: Seq<ChunkProgramOutput>) -> Seq<OutputContent> {
    Seq::new(outputs.len(), |i: int| outputs[i]@)
}

impl Clone for CanonicalChunkArtifact {
    fn clone(&self) -> (copy: Self)
        ensures
            copy@ == self@,
    {
        let tx_summaries = self.tx_summaries.clone();
        let observed_touched_addresses = self.observed_touched_addresses.clone();
        let observed_storage_accesses = self.observed_storage_accesses.clone();
        assert(observed_touched_addresses@ =~= self.observed_touched_addresses@);
        assert(observed_storage_accesses@ =~= self.observed_storage_accesses@);
        assert(summary_contents(tx_summaries@) =~= summary_contents(self.tx_summaries@));
        Self {
            block_hash: self.block_hash,
            bal_hash: self.bal_hash,
            range: self.range,
            tx_summaries,
            observed_touched_addresses,
            observed_storage_accesses,
        }
    }
}

impl Clone for ChunkProgramOutput {
    fn clone(&self) -> (copy: Self)
        ensures
            copy@ == self@,
    {
        Self { artifact: self.artifact.clone(), artifact_hash: self.artifact_hash }
    }
}

impl RLPEncode for CanonicalObservedStorageAccess {
    open spec fn rlp(&self) -> Seq<u8> {
        rlp_list(self.address.rlp() + self.slot.rlp())
    }

    fn encode(&self, buf: &mut Vec<u8>) {
        let mut fields: Vec<u8> = Vec::new();
        self.address.encode(&mut fields);
        self.slot.encode(&mut fields);
        assert(fields@ =~= self.address.rlp() + self.slot.rlp());
        push_list(buf, fields);
    }
}

impl RLPEncode for CanonicalObservedAddress {
    open spec fn rlp(&self) -> Seq<u8> {
        self.address.rlp()
    }

    fn encode(&self, buf: &mut Vec<u8>) {
        self.address.encode(buf);
    }
}

impl RLPEncode for CanonicalChunkArtifact {
    open spec fn rlp(&self) -> Seq<u8> {
        rlp_list(
            self.block_hash.rlp() + self.bal_hash.rlp() + self.range.rlp()
                + self.tx_summaries.rlp() + self.observed_touched_addresses.rlp()
                + self.observed_storage_accesses.rlp(),
        )
    }

    fn encode(&self, buf: &mut Vec<u8>) {
        let mut fields: Vec<u8> = Vec::new();
        self.block_hash.encode(&mut fields);
        self.bal_hash.encode(&mut fields);
        self.range.encode(&mut fields);
        self.tx_summaries.encode(&mut fields);
        self.observed_touched_addresses.encode(&mut fields);
        self.observed_storage_accesses.encode(&mut fields);
        assert(fields@ =~= self.block_hash.rlp() + self.bal_hash.rlp() + self.range.rlp()
            + self.tx_summaries.rlp() + self.observed_touched_addresses.rlp()
            + self.observed_storage_accesses.rlp());
        push_list(buf, fields);
    }
}

impl RLPEncode for ChunkProgramOutput {
    open spec fn rlp(&self) -> Seq<u8> {
        rlp_list(self.artifact.rlp() + self.artifact_hash.rlp())
    }

    fn encode(&self, buf: &mut Vec<u8>) {
        let mut fields: Vec<u8> = Vec::new();
        self.artifact.encode(&mut fields);
        self.artifact_hash.encode(&mut fields);
        assert(fields@ =~= self.artifact.rlp() + self.artifact_hash.rlp());
        push_list(buf, fields);
    }
}

/// The address at `i` comes strictly before the one after it.
pub open spec fn address_ordered_at(accounts: Seq<CanonicalObservedAddress>, i: int) -> bool {
    bytes_before(accounts[i].address@, accounts[i + 1].address@)
}

/// The addresses are strictly increasing.
pub open spec fn addresses_ordered(accounts: Seq<CanonicalObservedAddress>) -> bool {
    forall|i: int| 0 <= i < accounts.len() - 1 ==> #[trigger] address_ordered_at(accounts, i)
}

/// Accesses are ordered by address and then by slot.
pub open spec fn access_before(
    a: CanonicalObservedStorageAccess,
    b: CanonicalObservedStorageAccess,
) -> bool {
    ||| bytes_before(a.address@, b.address@)
    ||| a.address@ == b.address@ && bytes_before(a.slot@, b.slot@)
}

/// The access at `i` comes strictly before the one after it.
pub open spec fn access_ordered_at(accesses: Seq<CanonicalObservedStorageAccess>, i: int) -> bool {
    access_before(accesses[i], accesses[i + 1])
}

/// The accesses are strictly increasing.
pub open spec fn accesses_ordered(accesses: Seq<CanonicalObservedStorageAccess>) -> bool {
    forall|i: int| 0 <= i < accesses.len() - 1 ==> #[trigger] access_ordered_at(accesses, i)
}

/// The first position from `k` on whose summary is not that of transaction `start` plus the
/// position.
pub open spec fn first_misplaced(
    summaries: Seq<TxExecutionSummary>,
    start: u64,
    k: int,
) -> Option<int>
    decreases summaries.len() - k,
{
    if k < 0 || k >= summaries.len() {
        None
    } else if summaries[k].tx_index != start + k {
        Some(k)
    } else {
        first_misplaced(summaries, start, k + 1)
    }
}

/// The summaries are those of consecutive transactions from `start` on.
pub open spec fn summaries_follow(summaries: Seq<TxExecutionSummary>, start: u64) -> bool {
    forall|k: int| 0 <= k < summaries.len() ==> (#[trigger] summaries[k]).tx_index == start + k
}

/// There is no misplaced summary exactly if the summaries are consecutive.
pub proof fn misplaced_iff_not_following(summaries: Seq<TxExecutionSummary>, start: u64, k: int)
    requires
        0 <= k <= summaries.len(),
    ensures
        first_misplaced(summaries, start, k) is None <==> (forall|j: int|
            k <= j < summaries.len() ==> (#[trigger] summaries[j]).tx_index == start + j),
        first_misplaced(summaries, start, k) matches Some(i) ==> {
            &&& k <= i < summaries.len()
            &&& summaries[i].tx_index != start + i
            &&& forall|j: int| k <= j < i ==> (#[trigger] summaries[j]).tx_index == start + j
        },
    decreases summaries.len() - k,
{
    if k < summaries.len() && summaries[k].tx_index == start + k {
        misplaced_iff_not_following(summaries, start, k + 1);
    }
}

/// Why no artifact with these parts can be that of a chunk of a block with `tx_count` transactions.
pub open spec fn parts_complaint(
    range: ChunkRange,
    summaries: Seq<TxExecutionSummary>,
    accounts: Seq<CanonicalObservedAddress>,
    accesses: Seq<CanonicalObservedStorageAccess>,
    tx_count: usize,
) -> Option<Seq<char>> {
    if range.range_complaint(tx_count) is Some {
        range.range_complaint(tx_count)
    } else if summaries.len() != range.width() {
        Some("chunk summary count does not match range"@)
    } else {
        match first_misplaced(summaries, range.start_tx, 0) {
            Some(i) => Some(
                "chunk summary index "@ + decimal(summaries[i].tx_index as nat)
                    + " does not match expected tx index "@ + decimal(
                    (range.start_tx + i) as nat,
                ),
            ),
            None => if !addresses_ordered(accounts) {
                Some("observed touched addresses are not strictly ordered"@)
            } else if !accesses_ordered(accesses) {
                Some("observed storage accesses are not strictly ordered"@)
            } else {
                None
            },
        }
    }
}

impl CanonicalChunkArtifact {
    /// Why the artifact cannot be that of a chunk of a block with `tx_count` transactions.
    pub open spec fn shape_complaint(self, tx_count: usize) -> Option<Seq<char>> {
        parts_complaint(
            self.range,
            self.tx_summaries@,
            self.observed_touched_addresses@,
            self.observed_storage_accesses@,
            tx_count,
        )
    }

    /// The artifact is well shaped: its range is a chunk of the block, there is one summary per
    /// transaction, in order, and the observations are strictly ordered.
    pub open spec fn well_shaped(self, tx_count: usize) -> bool {
        &&& self.range.range_complaint(tx_count) is None
        &&& self.tx_summaries@.len() == self.range.width()
        &&& summaries_follow(self.tx_summaries@, self.range.start_tx)
        &&& addresses_ordered(self.observed_touched_addresses@)
        &&& accesses_ordered(self.observed_storage_accesses@)
    }

    /// The Keccak-256 hash of the encoded artifact.
    pub fn compute_hash(&self) -> (h: H256)
        ensures
            h@ == keccak256(self.rlp()),
    {
        let encoded = self.encode_to_vec();
        keccak(encoded.as_slice())
    }

    /// Checks the artifact on its own, against the number of transactions in the block.
    pub fn validate_shape(&self, tx_count: usize) -> (r: Result<(), String>)
        ensures
            answers(r, self.shape_complaint(tx_count)),
            r is Ok <==> self.well_shaped(tx_count),
    {
        proof {
            misplaced_iff_not_following(self.tx_summaries@, self.range.start_tx, 0);
        }
        match self.range.validate_for_tx_count(tx_count) {
            Ok(()) => {},
            Err(message) => {
                return Err(message);
            },
        }
        if self.tx_summaries.len() != self.range.tx_count() {
            return Err("chunk summary count does not match range".to_owned());
        }
        let mut offset: usize = 0;
        while offset < self.tx_summaries.len()
            invariant
                offset <= self.tx_summaries.len(),
                self.tx_summaries@.len() == self.range.width(),
                first_misplaced(self.tx_summaries@, self.range.start_tx, 0) == first_misplaced(
                    self.tx_summaries@,
                    self.range.start_tx,
                    offset as int,
                ),
                self.range.range_complaint(tx_count) is None,
            decreases self.tx_summaries.len() - offset,
        {
            let expected_index: u64 = self.range.start_tx + offset as u64;
            if self.tx_summaries[offset].tx_index != expected_index {
                let mut message = "chunk summary index ".to_owned();
                push_decimal(&mut message, self.tx_summaries[offset].tx_index);
                push_text(&mut message, " does not match expected tx index ");
                push_decimal(&mut message, expected_index);
                return Err(message);
            }
            offset = offset + 1;
        }
        let mut i: usize = 1;
        while i < self.observed_touched_addresses.len()
            invariant
                1 <= i,
                i <= self.observed_touched_addresses.len()
                    || self.observed_touched_addresses.len() == 0,
                self.tx_summaries@.len() == self.range.width(),
                first_misplaced(self.tx_summaries@, self.range.start_tx, 0) is None,
                self.range.range_complaint(tx_count) is None,
                forall|j: int|
                    0 <= j < i - 1 ==> #[trigger] address_ordered_at(
                        self.observed_touched_addresses@,
                        j,
                    ),
            decreases self.observed_touched_addresses.len() - i,
        {
            let earlier = self.observed_touched_addresses[i - 1].address;
            let later = self.observed_touched_addresses[i].address;
            if !is_before(earlier.0.as_slice(), later.0.as_slice()) {
                assert(!address_ordered_at(self.observed_touched_addresses@, i - 1));
                return Err("observed touched addresses are not strictly ordered".to_owned());
            }
            assert(address_ordered_at(self.observed_touched_addresses@, i - 1));
            i = i + 1;
        }
        let mut i: usize = 1;
        while i < self.observed_storage_accesses.len()
            invariant
                1 <= i,
                i <= self.observed_storage_accesses.len()
                    || self.observed_storage_accesses.len() == 0,
                self.tx_summaries@.len() == self.range.width(),
                first_misplaced(self.tx_summaries@, self.range.start_tx, 0) is None,
                self.range.range_complaint(tx_count) is None,
                addresses_ordered(self.observed_touched_addresses@),
                forall|j: int|
                    0 <= j < i - 1 ==> #[trigger] access_ordered_at(
                        self.observed_storage_accesses@,
                        j,
                    ),
            decreases self.observed_storage_accesses.len() - i,
        {
            let earlier = self.observed_storage_accesses[i - 1];
            let later = self.observed_storage_accesses[i];
            if !access_is_before(&earlier, &later) {
                assert(!access_ordered_at(self.observed_storage_accesses@, i - 1));
                return Err("observed storage accesses are not strictly ordered".to_owned());
            }
            assert(access_ordered_at(self.observed_storage_accesses@, i - 1));
            i = i + 1;
        }
        Ok(())
    }
}

/// Decides [`access_before`].
fn access_is_before(
    a: &CanonicalObservedStorageAccess,
    b: &CanonicalObservedStorageAccess,
) -> (r: bool)
    ensures
        r == access_before(*a, *b),
{
    is_before(a.address.0.as_slice(), b.address.0.as_slice()) || (same_bytes(
        a.address.0.as_slice(),
        b.address.0.as_slice(),
    ) && is_before(a.slot.0.as_slice(), b.slot.0.as_slice()))
}

impl ChunkProgramOutput {
    /// The output of a chunk: the artifact with the hash that commits to it.
    pub fn new(artifact: CanonicalChunkArtifact) -> (output: Self)
        ensures
            output.artifact == artifact,
            output.artifact_hash@ == keccak256(artifact.rlp()),
    {
        let artifact_hash = artifact.compute_hash();
        Self { artifact, artifact_hash }
    }

    /// The encoded output.
    pub fn encode(&self) -> (bytes: Vec<u8>)
        ensures
            bytes@ == self.rlp(),
    {
        self.encode_to_vec()
    }
}

/// The hashes of the artifacts, in order.
pub open spec fn artifact_hashes(chunk_outputs: Seq<ChunkProgramOutput>) -> Seq<H256> {
    chunk_outputs.map_values(|output: ChunkProgramOutput| output.artifact_hash)
}

/// The hash that commits to the chunks of a block: that of the list of their artifact hashes.
pub fn chunk_commitment_hash(chunk_outputs: &[ChunkProgramOutput]) -> (h: H256)
    ensures
        h@ == keccak256(
            rlp_list(
                concat(item_encodings(artifact_hashes(chunk_outputs@))),
            ),
        ),
{
    let mut hashes: Vec<H256> = Vec::new();
    let mut i: usize = 0;
    while i < chunk_outputs.len()
        invariant
            i <= chunk_outputs.len(),
            hashes@ == artifact_hashes(chunk_outputs@.take(i as int)),
        decreases chunk_outputs.len() - i,
    {
        hashes.push(chunk_outputs[i].artifact_hash);
        i = i + 1;
        assert(hashes@ =~= artifact_hashes(chunk_outputs@.take(i as int)));
    }
    assert(chunk_outputs@.take(i as int) =~= chunk_outputs@);
    keccak(hashes.encode_to_vec().as_slice())
}

} // verus!
