//! The chunk program: executes one range of transactions of a block.
//!
//! The program decides; whatever touches the virtual machine or the witness is done outside,
//! action by action. [`ChunkRun::action`] says what is to be done next, and [`ChunkRun::resume`]
//! takes the reply. The block access list is decoded, and the hashes are computed, by functions
//! that are handed in: [`ChunkRun::decode_bal`] and [`ChunkRun::conclude`] call them on the input.

use crate::artifact::{
    parts_complaint, CanonicalChunkArtifact, CanonicalObservedAddress,
    CanonicalObservedStorageAccess, ChunkProgramOutput,
};
use crate::error::{bal_complaint, header_bal, ErrorContent, ExecutionError};
use crate::hash::keccak256;
use crate::payload::{Block, BlockHeader, TxKind};
use crate::primitives::{Address, H256};
use crate::range::ChunkRange;
use crate::rlp::RLPEncode;
use crate::summary::TxExecutionSummary;
use crate::text::push_text;
use vstd::prelude::*;

verus! {

/// Input for the execution of one chunk of a block; `W` is the execution witness.
///
/// The chunk program assumes that block, witness and block access list belong together; the merge
/// program checks it.
#[derive(Clone, Debug, Default)]
pub struct ChunkProgramInput<W> {
    pub block: Block,
    pub execution_witness: W,
    /// Canonical encoding of the header block access list.
    pub header_bal: Vec<u8>,
    pub range: ChunkRange,
}

impl<W> ChunkProgramInput<W> {
    pub fn new(
        block: Block,
        execution_witness: W,
        header_bal: Vec<u8>,
        range: ChunkRange,
    ) -> (input: Self)
        ensures
            input == (ChunkProgramInput { block, execution_witness, header_bal, range }),
    {
        Self { block, execution_witness, header_bal, range }
    }
}

/// What the execution of a transaction reports.
#[derive(Debug, PartialEq, Eq)]
pub struct TxReport {
    pub succeeded: bool,
    pub gas_spent: u64,
    pub gas_used: u64,
    pub state_gas_used: u64,
    /// The encoded logs.
    pub logs: Vec<Vec<u8>>,
}

/// The accounts and storage slots that an execution touched.
#[derive(Debug, Default, PartialEq, Eq)]
pub struct Observation {
    pub touched_addresses: Vec<Address>,
    pub storage_accesses: Vec<(Address, H256)>,
}

/// The stages of the program, in order.
#[derive(Clone, Copy, Debug, PartialEq, Eq, Structural)]
pub enum ChunkStep {
    HeaderBal,
    Witness,
    BlockHashes,
    SystemPhase,
    Seed,
    Senders,
    Execute,
    Validate,
    Observation,
    Hashes,
    Finished,
}

/// What is to be done next.
#[derive(Clone, Copy, Debug, PartialEq, Eq)]
pub enum ChunkAction {
    /// Have the header block access list decoded, with [`ChunkRun::decode_bal`].
    DecodeHeaderBal,
    /// Turn the execution witness into a guest state.
    LoadWitness,
    /// Initialize the block hashes of the guest state.
    InitializeBlockHashes,
    /// Apply the system calls of the block and take their state transitions.
    CheckpointSystemPhase,
    /// Seed the state at the start of the chunk from the block access list and start recording.
    SeedChunkStart { bal_index: u16 },
    /// Recover the senders of all transactions of the block.
    RecoverSenders,
    /// Set the block access list index, record the sender and the callee as touched, and execute
    /// the transaction.
    ExecuteTx { tx_idx: usize, bal_index: u16, sender: Address, callee: Option<Address> },
    /// Validate the transaction against the block access list.
    ValidateTx { bal_index: u16, seed_index: u16 },
    /// Take the recorded accesses.
    TakeObservation,
    /// Have the hashes of the block and of the block access list computed, with
    /// [`ChunkRun::conclude`].
    ComputeHashes,
    /// Nothing: the program ended.
    Stop,
}

/// What came of an action.
#[derive(Debug, PartialEq, Eq)]
pub enum ChunkReply<E> {
    /// Of an action that only succeeds or fails.
    Done(Result<(), E>),
    /// Of recovering the senders: that of each transaction, or the text of the error.
    Senders(Result<Vec<Address>, String>),
    /// Of executing a transaction.
    Executed(Result<TxReport, E>),
    /// Of taking the recorded accesses.
    Observed(Option<Observation>),
}

/// What takes a run on: a reply to the pending action, the decoded block access list, or the
/// hashes of the block and of the block access list.
pub ghost enum ChunkEvent<B, E> {
    Reply(ChunkReply<E>),
    Decoded(Result<B, String>),
    Hashed { block_hash: H256, bal_hash: H256 },
}

/// A run of the chunk program; `B` is a decoded block access list.
#[derive(Debug)]
pub struct ChunkRun<'a, B, E> {
    block: &'a Block,
    header_bal: &'a Vec<u8>,
    range: ChunkRange,
    step: ChunkStep,
    bal: Option<B>,
    senders: Vec<Address>,
    summaries: Vec<TxExecutionSummary>,
    touched: Vec<CanonicalObservedAddress>,
    accesses: Vec<CanonicalObservedStorageAccess>,
    outcome: Option<Result<ChunkProgramOutput, ExecutionError<E>>>,
}

/// The low sixteen bits of an index.
pub open spec fn index16(n: int) -> u16 {
    n as u16
}

/// The summary of transaction `tx_idx`, which has the type byte `tx_type`.
pub open spec fn summary_of(tx_idx: int, tx_type: u8, report: TxReport) -> TxExecutionSummary {
    TxExecutionSummary {
        tx_index: tx_idx as u64,
        tx_type,
        succeeded: report.succeeded,
        gas_spent: report.gas_spent,
        gas_used: report.gas_used,
        state_gas_used: report.state_gas_used,
        logs: report.logs,
    }
}

/// The touched addresses in the form of an artifact.
pub open spec fn canonical_addresses(addresses: Seq<Address>) -> Seq<CanonicalObservedAddress> {
    addresses.map_values(|address: Address| CanonicalObservedAddress { address })
}

/// The storage accesses in the form of an artifact.
pub open spec fn canonical_accesses(accesses: Seq<(Address, H256)>) -> Seq<
    CanonicalObservedStorageAccess,
> {
    accesses.map_values(
        |access: (Address, H256)|
            CanonicalObservedStorageAccess { address: access.0, slot: access.1 },
    )
}

/// The touched addresses of an observation that may be missing.
pub open spec fn observed_addresses(observation: Option<Observation>) -> Seq<Address> {
    match observation {
        Some(o) => o.touched_addresses@,
        None => Seq::empty(),
    }
}

/// The storage accesses of an observation that may be missing.
pub open spec fn observed_accesses(observation: Option<Observation>) -> Seq<(Address, H256)> {
    match observation {
        Some(o) => o.storage_accesses@,
        None => Seq::empty(),
    }
}

/// The callee of a transaction, if it has one.
pub open spec fn callee_of(to: TxKind) -> Option<Address> {
    match to {
        TxKind::Call(address) => Some(address),
        TxKind::Create => None,
    }
}

impl<'a, B, E> ChunkRun<'a, B, E> {
    /// The block.
    pub closed spec fn chunk_block(self) -> Block {
        *self.block
    }

    /// The encoded header block access list.
    pub closed spec fn encoded_bal(self) -> Vec<u8> {
        *self.header_bal
    }

    /// The header block access list, once it was decoded.
    pub closed spec fn decoded_bal(self) -> Option<B> {
        self.bal
    }

    /// The number of transactions of the block.
    pub open spec fn block_tx_count(self) -> usize {
        self.chunk_block().body.transactions@.len() as usize
    }

    /// The type byte of a transaction of the block.
    pub open spec fn tx_type(self, tx_idx: int) -> u8 {
        self.chunk_block().body.transactions@[tx_idx].tx_type
    }

    /// The range of the chunk.
    pub closed spec fn chunk_range(self) -> ChunkRange {
        self.range
    }

    /// The current stage.
    pub closed spec fn stage(self) -> ChunkStep {
        self.step
    }

    /// The senders of the transactions of the block, once they were recovered.
    pub closed spec fn tx_senders(self) -> Seq<Address> {
        self.senders@
    }

    /// The summaries of the transactions that were executed.
    pub closed spec fn executed(self) -> Seq<TxExecutionSummary> {
        self.summaries@
    }

    /// The touched addresses, once the recorded accesses were taken.
    pub closed spec fn touched_addresses(self) -> Seq<CanonicalObservedAddress> {
        self.touched@
    }

    /// The storage accesses, once the recorded accesses were taken.
    pub closed spec fn storage_accesses(self) -> Seq<CanonicalObservedStorageAccess> {
        self.accesses@
    }

    /// How the program ended, if it did.
    pub closed spec fn ended(self) -> Option<Result<ChunkProgramOutput, ExecutionError<E>>> {
        self.outcome
    }

    /// The index of the first transaction of the chunk.
    pub open spec fn first_tx(self) -> int {
        (self.chunk_range().start_tx as usize) as int
    }

    /// The number of transactions to execute.
    pub open spec fn tx_total(self) -> int {
        (self.chunk_range().end_tx_exclusive as usize) - (self.chunk_range().start_tx as usize)
    }

    /// The run is in a state that the program can be in: the block access list is decoded before
    /// anything else, and the summaries are those of the first transactions of the chunk, as many
    /// as the stage says and each with the type of its transaction.
    pub open spec fn wf(self) -> bool {
        &&& self.stage() == ChunkStep::Finished <==> self.ended() is Some
        &&& self.stage() != ChunkStep::Finished ==> {
            &&& self.chunk_range().range_complaint(self.block_tx_count()) is None
            &&& forall|k: int|
                0 <= k < self.executed().len() ==> {
                    &&& (#[trigger] self.executed()[k]).tx_index == self.first_tx() + k
                    &&& self.executed()[k].tx_type == self.tx_type(self.first_tx() + k)
                }
            &&& self.stage() == ChunkStep::HeaderBal || self.decoded_bal() is Some
        }
        &&& match self.stage() {
            ChunkStep::Finished => true,
            ChunkStep::Execute => {
                &&& self.executed().len() < self.tx_total()
                &&& self.tx_senders().len() == self.block_tx_count()
            },
            ChunkStep::Validate => {
                &&& 0 < self.executed().len() <= self.tx_total()
                &&& self.tx_senders().len() == self.block_tx_count()
            },
            ChunkStep::Observation | ChunkStep::Hashes => self.executed().len() == self.tx_total(),
            _ => self.executed().len() == 0,
        }
    }

    /// `output` is made of the parts that were gathered and the hashes given.
    pub open spec fn is_output(
        self,
        output: ChunkProgramOutput,
        block_hash: H256,
        bal_hash: H256,
    ) -> bool {
        &&& output.artifact.block_hash == block_hash
        &&& output.artifact.bal_hash == bal_hash
        &&& output.artifact.range == self.chunk_range()
        &&& output.artifact.tx_summaries@ == self.executed()
        &&& output.artifact.observed_touched_addresses@ == self.touched_addresses()
        &&& output.artifact.observed_storage_accesses@ == self.storage_accesses()
        &&& output.artifact_hash@ == keccak256(output.artifact.rlp())
    }

    /// What is to be done next.
    pub open spec fn pending(self) -> ChunkAction {
        match self.stage() {
            ChunkStep::HeaderBal => ChunkAction::DecodeHeaderBal,
            ChunkStep::Witness => ChunkAction::LoadWitness,
            ChunkStep::BlockHashes => ChunkAction::InitializeBlockHashes,
            ChunkStep::SystemPhase => ChunkAction::CheckpointSystemPhase,
            ChunkStep::Seed => ChunkAction::SeedChunkStart {
                bal_index: index16(self.chunk_range().start_tx as int),
            },
            ChunkStep::Senders => ChunkAction::RecoverSenders,
            ChunkStep::Execute => {
                let tx_idx = self.first_tx() + self.executed().len();
                ChunkAction::ExecuteTx {
                    tx_idx: tx_idx as usize,
                    bal_index: index16(tx_idx + 1),
                    sender: self.tx_senders()[tx_idx],
                    callee: callee_of(self.chunk_block().body.transactions@[tx_idx].to),
                }
            },
            ChunkStep::Validate => {
                let tx_idx = self.first_tx() + self.executed().len() - 1;
                ChunkAction::ValidateTx {
                    bal_index: index16(tx_idx + 1),
                    seed_index: index16(tx_idx),
                }
            },
            ChunkStep::Observation => ChunkAction::TakeObservation,
            ChunkStep::Hashes => ChunkAction::ComputeHashes,
            ChunkStep::Finished => ChunkAction::Stop,
        }
    }

    /// The event is one to the pending action. No reply stands for the decoded block access list
    /// or the hashes, and a list of senders is one only if it has that of each transaction.
    pub open spec fn expects(self, event: ChunkEvent<B, E>) -> bool {
        match event {
            ChunkEvent::Decoded(_) => self.stage() == ChunkStep::HeaderBal,
            ChunkEvent::Hashed { .. } => self.stage() == ChunkStep::Hashes,
            ChunkEvent::Reply(reply) => match self.stage() {
                ChunkStep::Witness
                | ChunkStep::BlockHashes
                | ChunkStep::SystemPhase
                | ChunkStep::Seed
                | ChunkStep::Validate => reply is Done,
                ChunkStep::Senders => match reply {
                    ChunkReply::Senders(Ok(senders)) => senders@.len() == self.block_tx_count(),
                    ChunkReply::Senders(Err(_)) => true,
                    _ => false,
                },
                ChunkStep::Execute => reply is Executed,
                ChunkStep::Observation => reply is Observed,
                ChunkStep::HeaderBal | ChunkStep::Hashes | ChunkStep::Finished => false,
            },
        }
    }

    /// The error in which the event ends the program, if it reports a failure.
    pub open spec fn failure(self, event: ChunkEvent<B, E>) -> Option<ErrorContent<E>> {
        match event {
            ChunkEvent::Decoded(Err(text)) => Some(bal_complaint(text@)),
            ChunkEvent::Reply(ChunkReply::Done(Err(e))) => Some(
                match self.stage() {
                    ChunkStep::Witness => ErrorContent::GuestProgramState(e),
                    ChunkStep::BlockHashes => ErrorContent::State(e),
                    _ => ErrorContent::Evm(e),
                },
            ),
            ChunkEvent::Reply(ChunkReply::Senders(Err(text))) => Some(
                ErrorContent::Internal("failed to recover transaction senders: "@ + text@),
            ),
            ChunkEvent::Reply(ChunkReply::Executed(Err(e))) => Some(ErrorContent::Evm(e)),
            _ => None,
        }
    }

    /// The stage after the current one.
    pub open spec fn next_stage(self) -> ChunkStep {
        match self.stage() {
            ChunkStep::HeaderBal => ChunkStep::Witness,
            ChunkStep::Witness => ChunkStep::BlockHashes,
            ChunkStep::BlockHashes => ChunkStep::SystemPhase,
            ChunkStep::SystemPhase => ChunkStep::Seed,
            ChunkStep::Seed => ChunkStep::Senders,
            ChunkStep::Senders => ChunkStep::Execute,
            ChunkStep::Execute => ChunkStep::Validate,
            ChunkStep::Validate => if self.executed().len() < self.tx_total() {
                ChunkStep::Execute
            } else {
                ChunkStep::Observation
            },
            ChunkStep::Observation => ChunkStep::Hashes,
            ChunkStep::Hashes | ChunkStep::Finished => ChunkStep::Finished,
        }
    }

    /// Why the parts that were gathered make no artifact of a chunk of the block.
    pub open spec fn gathered_complaint(self) -> Option<Seq<char>> {
        parts_complaint(
            self.chunk_range(),
            self.executed(),
            self.touched_addresses(),
            self.storage_accesses(),
            self.block_tx_count(),
        )
    }

    /// `next` is what becomes of the run on the event.
    pub open spec fn steps_to(self, event: ChunkEvent<B, E>, next: Self) -> bool {
        if !self.expects(event) {
            next == self
        } else {
            &&& self.same_input(next)
            &&& match self.failure(event) {
                Some(error) => next.has_failed(error),
                None => match event {
                    ChunkEvent::Hashed { block_hash, bal_hash } => match self.gathered_complaint() {
                        Some(text) => next.has_failed(ErrorContent::Internal(text)),
                        None => {
                            &&& next.stage() == ChunkStep::Finished
                            &&& next.ended() matches Some(Ok(output))
                            &&& self.is_output(output, block_hash, bal_hash)
                        },
                    },
                    _ => next.stage() == self.next_stage() && self.records(event, next),
                },
            }
        }
    }

    /// `next` is a run over the same input.
    pub open spec fn same_input(self, next: Self) -> bool {
        &&& next.chunk_block() == self.chunk_block()
        &&& next.encoded_bal() == self.encoded_bal()
        &&& next.chunk_range() == self.chunk_range()
    }

    /// The program ended with this error.
    pub open spec fn has_failed(self, error: ErrorContent<E>) -> bool {
        &&& self.stage() == ChunkStep::Finished
        &&& self.ended() matches Some(Err(e))
        &&& e@ == error
    }

    /// `next` holds what this run holds, and what the event adds to it.
    pub open spec fn records(self, event: ChunkEvent<B, E>, next: Self) -> bool {
        &&& next.ended() is None
        &&& next.decoded_bal() == match event {
            ChunkEvent::Decoded(Ok(bal)) => Some(bal),
            _ => self.decoded_bal(),
        }
        &&& next.tx_senders() == match event {
            ChunkEvent::Reply(ChunkReply::Senders(Ok(senders))) => senders@,
            _ => self.tx_senders(),
        }
        &&& next.executed() == match event {
            ChunkEvent::Reply(ChunkReply::Executed(Ok(report))) => {
                let tx_idx = self.first_tx() + self.executed().len();
                self.executed().push(summary_of(tx_idx, self.tx_type(tx_idx), report))
            },
            _ => self.executed(),
        }
        &&& next.touched_addresses() == match event {
            ChunkEvent::Reply(ChunkReply::Observed(observation)) => canonical_addresses(
                observed_addresses(observation),
            ),
            _ => self.touched_addresses(),
        }
        &&& next.storage_accesses() == match event {
            ChunkEvent::Reply(ChunkReply::Observed(observation)) => canonical_accesses(
                observed_accesses(observation),
            ),
            _ => self.storage_accesses(),
        }
    }

    /// What is to be done next.
    pub fn action(&self) -> (action: ChunkAction)
        requires
            self.wf(),
        ensures
            action == self.pending(),
    {
        match self.step {
            ChunkStep::HeaderBal => ChunkAction::DecodeHeaderBal,
            ChunkStep::Witness => ChunkAction::LoadWitness,
            ChunkStep::BlockHashes => ChunkAction::InitializeBlockHashes,
            ChunkStep::SystemPhase => ChunkAction::CheckpointSystemPhase,
            ChunkStep::Seed => ChunkAction::SeedChunkStart {
                bal_index: self.range.start_tx as u16,
            },
            ChunkStep::Senders => ChunkAction::RecoverSenders,
            ChunkStep::Execute => {
                let tx_idx: usize = self.range.start_tx as usize + self.summaries.len();
                let callee = match self.block.body.transactions[tx_idx].to {
                    TxKind::Call(address) => Some(address),
                    TxKind::Create => None,
                };
                ChunkAction::ExecuteTx {
                    tx_idx,
                    bal_index: (tx_idx + 1) as u16,
                    sender: self.senders[tx_idx],
                    callee,
                }
            },
            ChunkStep::Validate => {
                let done: usize = self.range.start_tx as usize + self.summaries.len();
                ChunkAction::ValidateTx { bal_index: done as u16, seed_index: (done - 1) as u16 }
            },
            ChunkStep::Observation => ChunkAction::TakeObservation,
            ChunkStep::Hashes => ChunkAction::ComputeHashes,
            ChunkStep::Finished => ChunkAction::Stop,
        }
    }

    /// How the program ended, if it did.
    pub fn outcome(self) -> (outcome: Option<Result<ChunkProgramOutput, ExecutionError<E>>>)
        ensures
            outcome == self.ended(),
    {
        self.outcome
    }

    /// Ends the program with an error.
    fn fail(self, e: ExecutionError<E>) -> (next: Self)
        ensures
            self.same_input(next),
            next.has_failed(e@),
            next.wf(),
    {
        Self { step: ChunkStep::Finished, outcome: Some(Err(e)), ..self }
    }

    /// The header block access list, once it was decoded.
    pub fn bal(&self) -> (bal: Option<&B>)
        ensures
            match bal {
                Some(bal) => self.decoded_bal() == Some(*bal),
                None => self.decoded_bal() is None,
            },
    {
        self.bal.as_ref()
    }

    /// Has the header block access list decoded by `decode` and goes on; no reply can take the
    /// place of this. At another stage nothing changes.
    pub fn decode_bal<D: Fn(&Vec<u8>) -> Result<B, String>>(self, decode: &D) -> (next: Self)
        requires
            self.wf(),
            decode.requires((&self.encoded_bal(),)),
        ensures
            next.wf(),
            self.stage() != ChunkStep::HeaderBal ==> next == self,
            self.stage() == ChunkStep::HeaderBal ==> exists|decoded: Result<B, String>|
                {
                    &&& #[trigger] decode.ensures((&self.encoded_bal(),), decoded)
                    &&& self.steps_to(ChunkEvent::Decoded(decoded), next)
                },
    {
        match self.step {
            ChunkStep::HeaderBal => {
                let decoded = decode(self.header_bal);
                let ghost event = ChunkEvent::<B, E>::Decoded(decoded);
                let next = match header_bal(decoded) {
                    Ok(bal) => Self { step: ChunkStep::Witness, bal: Some(bal), ..self },
                    Err(e) => self.fail(e),
                };
                assert(self.steps_to(event, next));
                next
            },
            _ => self,
        }
    }

    /// Goes on with what came of the pending action. A reply to another action changes nothing,
    /// nor does a list of senders whose length is not the number of transactions of the block.
    pub fn resume(self, reply: ChunkReply<E>) -> (next: Self)
        requires
            self.wf(),
        ensures
            next.wf(),
            self.steps_to(ChunkEvent::Reply(reply), next),
    {
        match (self.step, reply) {
            (ChunkStep::Witness, ChunkReply::Done(done)) => match done {
                Ok(()) => Self { step: ChunkStep::BlockHashes, ..self },
                Err(e) => self.fail(ExecutionError::GuestProgramState(e)),
            },
            (ChunkStep::BlockHashes, ChunkReply::Done(done)) => match done {
                Ok(()) => Self { step: ChunkStep::SystemPhase, ..self },
                Err(e) => self.fail(ExecutionError::State(e)),
            },
            (ChunkStep::SystemPhase, ChunkReply::Done(done)) => match done {
                Ok(()) => Self { step: ChunkStep::Seed, ..self },
                Err(e) => self.fail(ExecutionError::Evm(e)),
            },
            (ChunkStep::Seed, ChunkReply::Done(done)) => match done {
                Ok(()) => Self { step: ChunkStep::Senders, ..self },
                Err(e) => self.fail(ExecutionError::Evm(e)),
            },
            (ChunkStep::Senders, ChunkReply::Senders(recovered)) => match recovered {
                Ok(senders) => if senders.len() == self.block.body.transactions.len() {
                    Self { step: ChunkStep::Execute, senders, ..self }
                } else {
                    self
                },
                Err(text) => {
                    let mut message = "failed to recover transaction senders: ".to_owned();
                    push_text(&mut message, text.as_str());
                    self.fail(ExecutionError::Internal(message))
                },
            },
            (ChunkStep::Execute, ChunkReply::Executed(executed)) => match executed {
                Ok(report) => self.record_tx(report),
                Err(e) => self.fail(ExecutionError::Evm(e)),
            },
            (ChunkStep::Validate, ChunkReply::Done(done)) => match done {
                Ok(()) => {
                    let first: usize = self.range.start_tx as usize;
                    let end: usize = self.range.end_tx_exclusive as usize;
                    let step = if self.summaries.len() < end - first {
                        ChunkStep::Execute
                    } else {
                        ChunkStep::Observation
                    };
                    Self { step, ..self }
                },
                Err(e) => self.fail(ExecutionError::Evm(e)),
            },
            (ChunkStep::Observation, ChunkReply::Observed(observation)) => {
                let (touched, accesses) = canonical_observation(observation);
                Self { step: ChunkStep::Hashes, touched, accesses, ..self }
            },
            _ => self,
        }
    }

    /// Adds the summary of the transaction that was executed.
    fn record_tx(self, report: TxReport) -> (next: Self)
        requires
            self.wf(),
            self.stage() == ChunkStep::Execute,
        ensures
            next.wf(),
            self.steps_to(ChunkEvent::Reply(ChunkReply::Executed(Ok(report))), next),
    {
        let tx_idx: usize = self.range.start_tx as usize + self.summaries.len();
        let summary = TxExecutionSummary::new(
            tx_idx as u64,
            self.block.body.transactions[tx_idx].tx_type,
            report.succeeded,
            report.gas_spent,
            report.gas_used,
            report.state_gas_used,
            report.logs,
        );
        let mut summaries = self.summaries;
        summaries.push(summary);
        Self { step: ChunkStep::Validate, summaries, ..self }
    }

    /// Has the block hashed by `hash_header` and the block access list by `hash_bal`, makes the
    /// artifact and checks its shape; no reply can take the place of this. At another stage nothing
    /// changes.
    pub fn conclude<H: Fn(&BlockHeader) -> H256, G: Fn(&B) -> H256>(
        self,
        hash_header: &H,
        hash_bal: &G,
    ) -> (next: Self)
        requires
            self.wf(),
            hash_header.requires((&self.chunk_block().header,)),
            forall|bal: &B| #[trigger] hash_bal.requires((bal,)),
        ensures
            next.wf(),
            self.stage() != ChunkStep::Hashes ==> next == self,
            self.stage() == ChunkStep::Hashes ==> exists|block_hash: H256, bal_hash: H256|
                {
                    &&& #[trigger] hash_header.ensures((&self.chunk_block().header,), block_hash)
                    &&& #[trigger] hash_bal.ensures((&self.decoded_bal()->0,), bal_hash)
                    &&& self.steps_to(ChunkEvent::Hashed { block_hash, bal_hash }, next)
                },
    {
        match self.step {
            ChunkStep::Hashes => {
                let block_hash = hash_header(&self.block.header);
                let bal_hash = hash_bal(self.bal.as_ref().unwrap());
                let next = self.make_artifact(block_hash, bal_hash);
                assert(hash_header.ensures((&self.chunk_block().header,), block_hash));
                assert(hash_bal.ensures((&self.decoded_bal()->0,), bal_hash));
                next
            },
            _ => self,
        }
    }

    /// Makes the artifact and checks its shape.
    fn make_artifact(self, block_hash: H256, bal_hash: H256) -> (next: Self)
        requires
            self.wf(),
            self.stage() == ChunkStep::Hashes,
        ensures
            next.wf(),
            self.steps_to(ChunkEvent::Hashed { block_hash, bal_hash }, next),
    {
        let artifact = CanonicalChunkArtifact {
            block_hash,
            bal_hash,
            range: self.range,
            tx_summaries: self.summaries,
            observed_touched_addresses: self.touched,
            observed_storage_accesses: self.accesses,
        };
        let outcome = match artifact.validate_shape(self.block.body.transactions.len()) {
            Ok(()) => Ok(ChunkProgramOutput::new(artifact)),
            Err(message) => Err(ExecutionError::Internal(message)),
        };
        Self {
            block: self.block,
            header_bal: self.header_bal,
            range: self.range,
            step: ChunkStep::Finished,
            bal: self.bal,
            senders: self.senders,
            summaries: Vec::new(),
            touched: Vec::new(),
            accesses: Vec::new(),
            outcome: Some(outcome),
        }
    }
}

/// The recorded accesses in the form of an artifact; none if nothing was recorded.
fn canonical_observation(observation: Option<Observation>) -> (r: (
    Vec<CanonicalObservedAddress>,
    Vec<CanonicalObservedStorageAccess>,
))
    ensures
        r.0@ == canonical_addresses(observed_addresses(observation)),
        r.1@ == canonical_accesses(observed_accesses(observation)),
{
    let mut touched: Vec<CanonicalObservedAddress> = Vec::new();
    let mut accesses: Vec<CanonicalObservedStorageAccess> = Vec::new();
    if let Some(observation) = observation {
        let mut i: usize = 0;
        while i < observation.touched_addresses.len()
            invariant
                i <= observation.touched_addresses.len(),
                touched@ == canonical_addresses(observation.touched_addresses@.take(i as int)),
            decreases observation.touched_addresses.len() - i,
        {
            touched.push(CanonicalObservedAddress { address: observation.touched_addresses[i] });
            i = i + 1;
            assert(touched@ =~= canonical_addresses(
                observation.touched_addresses@.take(i as int),
            ));
        }
        assert(observation.touched_addresses@.take(i as int) =~= observation.touched_addresses@);
        let mut i: usize = 0;
        while i < observation.storage_accesses.len()
            invariant
                i <= observation.storage_accesses.len(),
                accesses@ == canonical_accesses(observation.storage_accesses@.take(i as int)),
            decreases observation.storage_accesses.len() - i,
        {
            let (address, slot) = observation.storage_accesses[i];
            accesses.push(CanonicalObservedStorageAccess { address, slot });
            i = i + 1;
            assert(accesses@ =~= canonical_accesses(observation.storage_accesses@.take(i as int)));
        }
        assert(observation.storage_accesses@.take(i as int) =~= observation.storage_accesses@);
    }
    assert(touched@ =~= canonical_addresses(observed_addresses(observation)));
    assert(accesses@ =~= canonical_accesses(observed_accesses(observation)));
    (touched, accesses)
}

/// Starts the chunk program. It ends at once if the range is no chunk of the block; otherwise it
/// starts with the header block access list.
pub fn execution_program<'a, W, B, E>(input: &'a ChunkProgramInput<W>) -> (run: ChunkRun<'a, B, E>)
    ensures
        run.wf(),
        run.chunk_block() == input.block,
        run.encoded_bal() == input.header_bal,
        run.chunk_range() == input.range,
        match input.range.range_complaint(input.block.body.transactions@.len() as usize) {
            Some(text) => run.has_failed(ErrorContent::Internal(text)),
            None => {
                &&& run.stage() == ChunkStep::HeaderBal
                &&& run.decoded_bal() is None
                &&& run.tx_senders() == Seq::<Address>::empty()
                &&& run.executed() == Seq::<TxExecutionSummary>::empty()
                &&& run.touched_addresses() == Seq::<CanonicalObservedAddress>::empty()
                &&& run.storage_accesses() == Seq::<CanonicalObservedStorageAccess>::empty()
            },
        },
{
    let run = ChunkRun {
        block: &input.block,
        header_bal: &input.header_bal,
        range: input.range,
        step: ChunkStep::HeaderBal,
        bal: None,
        senders: Vec::new(),
        summaries: Vec::new(),
        touched: Vec::new(),
        accesses: Vec::new(),
        outcome: None,
    };
    match input.range.validate_for_tx_count(input.block.body.transactions.len()) {
        Ok(()) => run,
        Err(message) => run.fail(ExecutionError::Internal(message)),
    }
}

} // verus!
