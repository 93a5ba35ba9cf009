//! The merge program: checks the outputs of all chunks of a block and finishes the block.
//!
//! As in the chunk program, [`MergeRun::action`] says what is to be done next outside, and
//! [`MergeRun::resume`] takes the reply. Decoding the block access list, hashing the block and
//! building the receipts are the work of the program itself, by functions that are handed in:
//! [`MergeRun::decode_bal`], [`MergeRun::check_chunks`] and [`MergeRun::build_receipts`] call them,
//! and no reply stands for what they give.

use crate::artifact::{summary_contents, ChunkProgramOutput};
use crate::chunk::{index16, observed_accesses, observed_addresses, Observation};
use crate::coverage::{coverage_complaint, covers, validate_chunk_coverage, MergeProgramInput};
use crate::error::{bal_complaint, header_bal, ErrorContent, ExecutionError};
use crate::gather::{
    all_accessed, all_belong, all_summaries, all_touched, check_outputs, gather_outputs,
    outputs_complaint,
};
use crate::payload::{Block, BlockHeader, Withdrawal};
use crate::primitives::{Address, H256};
use crate::summary::{
    block_gas, build_receipts_from_summaries, compute_block_gas_from_summaries, receipts_result,
    Receipt, TxExecutionSummary,
};
use vstd::prelude::*;

verus! {

/// The result of a merge.
#[derive(Clone, Copy, Debug, PartialEq, Eq)]
pub struct ProgramOutput {
    pub new_payload_request_root: [u8; 32],
    pub valid: bool,
}

/// A request that was turned into a block.
#[derive(Debug, PartialEq, Eq)]
pub struct PreparedRequest {
    pub block: Block,
    pub new_payload_request_root: [u8; 32],
}

/// The phases in which the state is validated against the block access list.
#[derive(Clone, Copy, Debug, PartialEq, Eq, Structural)]
pub enum Phase {
    PreSystem,
    WithdrawalRequest,
}

impl Phase {
    /// The name of the phase in error messages.
    pub fn label(self) -> (label: &'static str)
        ensures
            label@ == match self {
                Phase::PreSystem => "pre-system phase"@,
                Phase::WithdrawalRequest => "withdrawal/request phase"@,
            },
    {
        match self {
            Phase::PreSystem => "pre-system phase",
            Phase::WithdrawalRequest => "withdrawal/request phase",
        }
    }
}

/// The stages of the program, in order.
#[derive(Clone, Copy, Debug, PartialEq, Eq, Structural)]
pub enum MergeStep {
    HeaderBal,
    Request,
    Amsterdam,
    Witness,
    BlockHashes,
    InvalidHash,
    Parent,
    Body,
    PreExecution,
    BalHash,
    InitialRoot,
    BlockHash,
    PreCalls,
    PreState,
    PreObservation,
    TxUpdates,
    TxApply,
    Receipts,
    Gas,
    ReceiptsRoot,
    Requests,
    Withdrawals,
    PostState,
    PostObservation,
    PostUpdates,
    PostApply,
    RequestsHash,
    RawAccesses,
    FinalRoot,
    Finished,
}

/// The position of a stage in the order of the stages.
pub open spec fn rank(step: MergeStep) -> nat {
    match step {
        MergeStep::HeaderBal => 0,
        MergeStep::Request => 1,
        MergeStep::Amsterdam => 2,
        MergeStep::Witness => 3,
        MergeStep::BlockHashes => 4,
        MergeStep::InvalidHash => 5,
        MergeStep::Parent => 6,
        MergeStep::Body => 7,
        MergeStep::PreExecution => 8,
        MergeStep::BalHash => 9,
        MergeStep::InitialRoot => 10,
        MergeStep::BlockHash => 11,
        MergeStep::PreCalls => 12,
        MergeStep::PreState => 13,
        MergeStep::PreObservation => 14,
        MergeStep::TxUpdates => 15,
        MergeStep::TxApply => 16,
        MergeStep::Receipts => 17,
        MergeStep::Gas => 18,
        MergeStep::ReceiptsRoot => 19,
        MergeStep::Requests => 20,
        MergeStep::Withdrawals => 21,
        MergeStep::PostState => 22,
        MergeStep::PostObservation => 23,
        MergeStep::PostUpdates => 24,
        MergeStep::PostApply => 25,
        MergeStep::RequestsHash => 26,
        MergeStep::RawAccesses => 27,
        MergeStep::FinalRoot => 28,
        MergeStep::Finished => 29,
    }
}

/// What is to be done next.
#[derive(Clone, Copy, Debug, PartialEq, Eq)]
pub enum MergeAction {
    /// Have the header block access list decoded and hashed, with [`MergeRun::decode_bal`].
    DecodeHeaderBal,
    /// Validate the request and turn it into a block.
    PrepareRequest { header_bal_hash: H256 },
    /// Find out whether the Amsterdam fork is active at the time of the block.
    CheckAmsterdam,
    /// Turn the execution witness into a guest state.
    LoadWitness,
    /// Initialize the block hashes of the guest state.
    InitializeBlockHashes,
    /// Find the first header of the witness whose hash its child does not refer to.
    FindInvalidBlockHash,
    /// Read the header of the parent block.
    LoadParentHeader,
    /// Validate the block body against the header.
    ValidateBlockBody,
    /// Validate the block against its parent.
    ValidatePreExecution,
    /// Validate the hash of the block access list against the header.
    ValidateBalHash,
    /// Compute the root of the state trie.
    ComputeStateRoot,
    /// Have the block hashed and the outputs compared with it, with [`MergeRun::check_chunks`].
    ComputeBlockHash,
    /// On a new recording machine, apply the system calls of the block.
    ApplySystemCalls { bal_index: u16 },
    /// Validate the state of the machine against the block access list.
    ValidateState { bal_index: u16, phase: Phase },
    /// Take the accesses that the machine recorded.
    TakeObservation,
    /// Make the account updates of the block access list through the index.
    UpdatesThroughIndex { bal_index: u16 },
    /// Apply the account updates to the guest state.
    ApplyUpdates,
    /// Have the receipts built, with [`MergeRun::build_receipts`].
    BuildReceipts,
    /// Validate the gas of the block against the header.
    ValidateGas { gas: u64 },
    /// Validate the receipts against the header.
    ValidateReceiptsRoot,
    /// On a new recording machine, record the withdrawal addresses as touched and extract the
    /// requests.
    ExtractRequests { bal_index: u16 },
    /// Process the withdrawals.
    ProcessWithdrawals,
    /// Take the state transitions of the machine.
    TakeTransitions,
    /// Validate the requests against the header.
    ValidateRequestsHash,
    /// Validate all observed accesses against the block access list.
    ValidateRawAccesses,
    /// Nothing: the program ended.
    Stop,
}

/// What came of an action.
#[derive(Debug, PartialEq, Eq)]
pub enum MergeReply<E> {
    /// Of preparing the request.
    Prepared(Result<PreparedRequest, ExecutionError<E>>),
    /// Whether the Amsterdam fork is active.
    Amsterdam(bool),
    /// Of an action that only succeeds or fails.
    Done(Result<(), E>),
    /// Of looking for an invalid block hash: the number of the block that has it.
    InvalidBlockHash(Result<Option<u64>, E>),
    /// Of reading the parent header or computing the state root: a state root.
    Root(Result<H256, E>),
    /// Of taking the recorded accesses.
    Observed(Option<Observation>),
    /// Of making or taking account updates: how many there are.
    Updates(Result<usize, E>),
}

/// What takes a run on: a reply to the pending action, or what a function that was handed in gave:
/// the block access list with its hash, the hash of the block, or the receipts.
pub ghost enum MergeEvent<B, E, T, L> {
    Reply(MergeReply<E>),
    Decoded(Result<(B, H256), String>),
    Hashed(H256),
    Built(Result<Vec<Receipt<T, L>>, String>),
}

/// A run of the merge program over the outputs of the chunks; `B` is a decoded block access list,
/// and the receipts have transaction types `T` and logs `L`.
#[derive(Debug)]
pub struct MergeRun<'a, B, E, T, L> {
    outputs: &'a [ChunkProgramOutput],
    header_bal: &'a Vec<u8>,
    step: MergeStep,
    bal: Option<B>,
    bal_hash: H256,
    prepared: Option<PreparedRequest>,
    parent_root: H256,
    block_hash: H256,
    summaries: Vec<TxExecutionSummary>,
    receipts: Vec<Receipt<T, L>>,
    observed: Observation,
    outcome: Option<Result<ProgramOutput, ExecutionError<E>>>,
}

/// What `decode` makes of the encoded block access list, with the hash that `hash_bal` gives it.
pub open spec fn bal_is_read<B, D: Fn(&Vec<u8>) -> Result<B, String>, G: Fn(&B) -> H256>(
    bytes: Vec<u8>,
    decode: D,
    hash_bal: G,
    decoded: Result<(B, H256), String>,
) -> bool {
    match decoded {
        Ok((bal, hash)) => {
            &&& decode.ensures((&bytes,), Ok(bal))
            &&& hash_bal.ensures((&bal,), hash)
        },
        Err(text) => decode.ensures((&bytes,), Err(text)),
    }
}

/// The addresses of some withdrawals.
pub open spec fn withdrawal_addresses(withdrawals: Option<Vec<Withdrawal>>) -> Seq<Address> {
    match withdrawals {
        Some(list) => list@.map_values(|withdrawal: Withdrawal| withdrawal.address),
        None => Seq::empty(),
    }
}

impl<'a, B, E, T, L> MergeRun<'a, B, E, T, L> {
    /// The outputs of the chunks.
    pub closed spec fn chunk_outputs(self) -> Seq<ChunkProgramOutput> {
        self.outputs@
    }

    /// The current stage.
    pub closed spec fn stage(self) -> MergeStep {
        self.step
    }

    /// The encoded header block access list.
    pub closed spec fn encoded_bal(self) -> Vec<u8> {
        *self.header_bal
    }

    /// The header block access list, once it was decoded.
    pub closed spec fn decoded_bal(self) -> Option<B> {
        self.bal
    }

    /// The hash of the header block access list, once it was decoded.
    pub closed spec fn header_bal_hash(self) -> H256 {
        self.bal_hash
    }

    /// The block and the root of the request, once it was prepared.
    pub closed spec fn request(self) -> Option<PreparedRequest> {
        self.prepared
    }

    /// The state root of the parent block, once it was read.
    pub closed spec fn parent_state_root(self) -> H256 {
        self.parent_root
    }

    /// The hash of the block, once it was computed.
    pub closed spec fn expected_block_hash(self) -> H256 {
        self.block_hash
    }

    /// The summaries of all transactions, once the outputs were checked.
    pub closed spec fn gathered(self) -> Seq<TxExecutionSummary> {
        self.summaries@
    }

    /// The receipts of all transactions, once they were built.
    pub closed spec fn block_receipts(self) -> Seq<Receipt<T, L>> {
        self.receipts@
    }

    /// The addresses that were touched, as far as they are known.
    pub closed spec fn touched(self) -> Seq<Address> {
        self.observed.touched_addresses@
    }

    /// The storage slots that were accessed, as far as they are known.
    pub closed spec fn accessed(self) -> Seq<(Address, H256)> {
        self.observed.storage_accesses@
    }

    /// How the program ended, if it did.
    pub closed spec fn ended(self) -> Option<Result<ProgramOutput, ExecutionError<E>>> {
        self.outcome
    }

    /// The block of the request.
    pub open spec fn block(self) -> Block {
        self.request()->0.block
    }

    /// The number of transactions of the block.
    pub open spec fn tx_count(self) -> usize {
        self.block().body.transactions@.len() as usize
    }

    /// The run is in a state that the program can be in.
    pub open spec fn wf(self) -> bool {
        &&& self.stage() == MergeStep::Finished <==> self.ended() is Some
        &&& rank(MergeStep::HeaderBal) < rank(self.stage()) < rank(MergeStep::Finished)
            ==> self.decoded_bal() is Some
        &&& rank(MergeStep::Request) < rank(self.stage()) < rank(MergeStep::Finished) ==> {
            &&& self.request() is Some
            &&& covers(self.chunk_outputs(), self.tx_count())
        }
        &&& rank(MergeStep::BlockHash) < rank(self.stage()) < rank(MergeStep::Finished) ==> {
            &&& all_belong(
                self.chunk_outputs(),
                self.expected_block_hash(),
                self.header_bal_hash(),
            )
            &&& summary_contents(self.gathered()) == summary_contents(
                all_summaries(self.chunk_outputs()),
            )
        }
        &&& self.stage() == MergeStep::Withdrawals ==> self.block().body.withdrawals is Some
    }

    /// What is to be done next.
    pub open spec fn pending(self) -> MergeAction {
        match self.stage() {
            MergeStep::HeaderBal => MergeAction::DecodeHeaderBal,
            MergeStep::Request => MergeAction::PrepareRequest {
                header_bal_hash: self.header_bal_hash(),
            },
            MergeStep::Amsterdam => MergeAction::CheckAmsterdam,
            MergeStep::Witness => MergeAction::LoadWitness,
            MergeStep::BlockHashes => MergeAction::InitializeBlockHashes,
            MergeStep::InvalidHash => MergeAction::FindInvalidBlockHash,
            MergeStep::Parent => MergeAction::LoadParentHeader,
            MergeStep::Body => MergeAction::ValidateBlockBody,
            MergeStep::PreExecution => MergeAction::ValidatePreExecution,
            MergeStep::BalHash => MergeAction::ValidateBalHash,
            MergeStep::InitialRoot => MergeAction::ComputeStateRoot,
            MergeStep::BlockHash => MergeAction::ComputeBlockHash,
            MergeStep::PreCalls => MergeAction::ApplySystemCalls { bal_index: 0 },
            MergeStep::PreState => MergeAction::ValidateState {
                bal_index: 0,
                phase: Phase::PreSystem,
            },
            MergeStep::PreObservation => MergeAction::TakeObservation,
            MergeStep::TxUpdates => MergeAction::UpdatesThroughIndex {
                bal_index: index16(self.tx_count() as int),
            },
            MergeStep::TxApply => MergeAction::ApplyUpdates,
            MergeStep::Receipts => MergeAction::BuildReceipts,
            MergeStep::Gas => MergeAction::ValidateGas { gas: block_gas(self.gathered()) },
            MergeStep::ReceiptsRoot => MergeAction::ValidateReceiptsRoot,
            MergeStep::Requests => MergeAction::ExtractRequests {
                bal_index: index16(self.tx_count() + 1),
            },
            MergeStep::Withdrawals => MergeAction::ProcessWithdrawals,
            MergeStep::PostState => MergeAction::ValidateState {
                bal_index: index16(self.tx_count() + 1),
                phase: Phase::WithdrawalRequest,
            },
            MergeStep::PostObservation => MergeAction::TakeObservation,
            MergeStep::PostUpdates => MergeAction::TakeTransitions,
            MergeStep::PostApply => MergeAction::ApplyUpdates,
            MergeStep::RequestsHash => MergeAction::ValidateRequestsHash,
            MergeStep::RawAccesses => MergeAction::ValidateRawAccesses,
            MergeStep::FinalRoot => MergeAction::ComputeStateRoot,
            MergeStep::Finished => MergeAction::Stop,
        }
    }

    /// The event is one to the pending action. No reply stands for the decoded block access list,
    /// the hash of the block or the receipts.
    pub open spec fn expects(self, event: MergeEvent<B, E, T, L>) -> bool {
        match event {
            MergeEvent::Decoded(_) => self.stage() == MergeStep::HeaderBal,
            MergeEvent::Hashed(_) => self.stage() == MergeStep::BlockHash,
            MergeEvent::Built(_) => self.stage() == MergeStep::Receipts,
            MergeEvent::Reply(reply) => match self.stage() {
                MergeStep::Request => reply is Prepared,
                MergeStep::Amsterdam => reply is Amsterdam,
                MergeStep::InvalidHash => reply is InvalidBlockHash,
                MergeStep::Parent | MergeStep::InitialRoot | MergeStep::FinalRoot => reply is Root,
                MergeStep::PreObservation | MergeStep::PostObservation => reply is Observed,
                MergeStep::TxUpdates | MergeStep::PostUpdates => reply is Updates,
                MergeStep::HeaderBal
                | MergeStep::BlockHash
                | MergeStep::Receipts
                | MergeStep::Finished => false,
                _ => reply is Done,
            },
        }
    }

    /// The error for a failed action that only succeeds or fails.
    pub open spec fn failed_action(self, e: E) -> ErrorContent<E> {
        match self.stage() {
            MergeStep::Witness
            | MergeStep::BlockHashes
            | MergeStep::TxApply
            | MergeStep::PostApply => ErrorContent::State(e),
            MergeStep::Body => ErrorContent::BlockBodyValidation(e),
            MergeStep::PreExecution | MergeStep::BalHash => ErrorContent::BlockValidation(e),
            MergeStep::Gas => ErrorContent::GasValidation(e),
            MergeStep::ReceiptsRoot => ErrorContent::ReceiptsRootValidation(e),
            MergeStep::RequestsHash => ErrorContent::RequestsRootValidation(e),
            _ => ErrorContent::Evm(e),
        }
    }

    /// The error in which the event ends the program, if it does.
    pub open spec fn failure(self, event: MergeEvent<B, E, T, L>) -> Option<ErrorContent<E>> {
        match event {
            MergeEvent::Decoded(Ok(_)) => None,
            MergeEvent::Decoded(Err(text)) => Some(bal_complaint(text@)),
            MergeEvent::Hashed(hash) => match outputs_complaint(
                self.chunk_outputs(),
                hash,
                self.header_bal_hash(),
            ) {
                Some(text) => Some(ErrorContent::Internal(text)),
                None => None,
            },
            MergeEvent::Built(Ok(_)) => None,
            MergeEvent::Built(Err(text)) => Some(ErrorContent::Internal(text@)),
            MergeEvent::Reply(reply) => self.reply_failure(reply),
        }
    }

    /// The error in which the reply ends the program, if it does.
    pub open spec fn reply_failure(self, reply: MergeReply<E>) -> Option<ErrorContent<E>> {
        match reply {
            MergeReply::Prepared(Ok(prepared)) => match coverage_complaint(
                self.chunk_outputs(),
                prepared.block.body.transactions@.len() as usize,
            ) {
                Some(text) => Some(ErrorContent::Internal(text)),
                None => None,
            },
            MergeReply::Prepared(Err(e)) => Some(e@),
            MergeReply::Amsterdam(active) => if active {
                None
            } else {
                Some(ErrorContent::Internal("chunked BAL proving requires Amsterdam+"@))
            },
            MergeReply::Done(Ok(_)) => None,
            MergeReply::Done(Err(e)) => Some(self.failed_action(e)),
            MergeReply::InvalidBlockHash(found) => match found {
                Ok(Some(number)) => Some(ErrorContent::InvalidBlockHash(number)),
                _ => None,
            },
            MergeReply::Root(Ok(root)) => match self.stage() {
                MergeStep::InitialRoot => if root == self.parent_state_root() {
                    None
                } else {
                    Some(ErrorContent::InvalidInitialStateTrie)
                },
                MergeStep::FinalRoot => if root == self.block().header.state_root {
                    None
                } else {
                    Some(ErrorContent::InvalidFinalStateTrie)
                },
                _ => None,
            },
            MergeReply::Root(Err(e)) => Some(ErrorContent::State(e)),
            MergeReply::Observed(_) => None,
            MergeReply::Updates(Ok(_)) => None,
            MergeReply::Updates(Err(e)) => Some(ErrorContent::Evm(e)),
        }
    }

    /// The stage after the current one. Updates are applied only if there are any, withdrawals
    /// processed only if the block has a list of them.
    pub open spec fn next_stage(self, event: MergeEvent<B, E, T, L>) -> MergeStep {
        match self.stage() {
            MergeStep::HeaderBal => MergeStep::Request,
            MergeStep::Request => MergeStep::Amsterdam,
            MergeStep::Amsterdam => MergeStep::Witness,
            MergeStep::Witness => MergeStep::BlockHashes,
            MergeStep::BlockHashes => MergeStep::InvalidHash,
            MergeStep::InvalidHash => MergeStep::Parent,
            MergeStep::Parent => MergeStep::Body,
            MergeStep::Body => MergeStep::PreExecution,
            MergeStep::PreExecution => MergeStep::BalHash,
            MergeStep::BalHash => MergeStep::InitialRoot,
            MergeStep::InitialRoot => MergeStep::BlockHash,
            MergeStep::BlockHash => MergeStep::PreCalls,
            MergeStep::PreCalls => MergeStep::PreState,
            MergeStep::PreState => MergeStep::PreObservation,
            MergeStep::PreObservation => MergeStep::TxUpdates,
            MergeStep::TxUpdates => if event == MergeEvent::<B, E, T, L>::Reply(
                MergeReply::Updates(Ok(0)),
            ) {
                MergeStep::Receipts
            } else {
                MergeStep::TxApply
            },
            MergeStep::TxApply => MergeStep::Receipts,
            MergeStep::Receipts => MergeStep::Gas,
            MergeStep::Gas => MergeStep::ReceiptsRoot,
            MergeStep::ReceiptsRoot => MergeStep::Requests,
            MergeStep::Requests => if self.block().body.withdrawals is Some {
                MergeStep::Withdrawals
            } else {
                MergeStep::PostState
            },
            MergeStep::Withdrawals => MergeStep::PostState,
            MergeStep::PostState => MergeStep::PostObservation,
            MergeStep::PostObservation => MergeStep::PostUpdates,
            MergeStep::PostUpdates => if event == MergeEvent::<B, E, T, L>::Reply(
                MergeReply::Updates(Ok(0)),
            ) {
                MergeStep::RequestsHash
            } else {
                MergeStep::PostApply
            },
            MergeStep::PostApply => MergeStep::RequestsHash,
            MergeStep::RequestsHash => MergeStep::RawAccesses,
            MergeStep::RawAccesses => MergeStep::FinalRoot,
            MergeStep::FinalRoot | MergeStep::Finished => MergeStep::Finished,
        }
    }

    /// The program ended with this error.
    pub open spec fn has_failed(self, error: ErrorContent<E>) -> bool {
        &&& self.stage() == MergeStep::Finished
        &&& self.ended() matches Some(Err(e))
        &&& e@ == error
    }

    /// The program ended well, for the request with this root.
    pub open spec fn has_accepted(self, request_root: [u8; 32]) -> bool {
        &&& self.stage() == MergeStep::Finished
        &&& self.ended() == Some(
            Ok::<ProgramOutput, ExecutionError<E>>(
                ProgramOutput { new_payload_request_root: request_root, valid: true },
            ),
        )
    }

    /// `next` holds what this run holds, and what the event adds to it.
    pub open spec fn records(self, event: MergeEvent<B, E, T, L>, next: Self) -> bool {
        &&& next.ended() is None
        &&& match event {
            MergeEvent::Decoded(decoded) => {
                &&& next.decoded_bal() == Some(decoded->Ok_0.0)
                &&& next.header_bal_hash() == decoded->Ok_0.1
            },
            _ => {
                &&& next.decoded_bal() == self.decoded_bal()
                &&& next.header_bal_hash() == self.header_bal_hash()
            },
        }
        &&& next.request() == match event {
            MergeEvent::Reply(MergeReply::Prepared(Ok(prepared))) => Some(prepared),
            _ => self.request(),
        }
        &&& next.parent_state_root() == match event {
            MergeEvent::Reply(MergeReply::Root(Ok(root))) => if self.stage() == MergeStep::Parent {
                root
            } else {
                self.parent_state_root()
            },
            _ => self.parent_state_root(),
        }
        &&& next.block_receipts() == match event {
            MergeEvent::Built(Ok(receipts)) => receipts@,
            _ => self.block_receipts(),
        }
        &&& match event {
            MergeEvent::Hashed(hash) => {
                &&& next.expected_block_hash() == hash
                &&& summary_contents(next.gathered()) == summary_contents(
                    all_summaries(self.chunk_outputs()),
                )
                &&& next.touched() == all_touched(self.chunk_outputs())
                &&& next.accessed() == all_accessed(self.chunk_outputs())
            },
            MergeEvent::Reply(MergeReply::Observed(observation)) => {
                &&& next.expected_block_hash() == self.expected_block_hash()
                &&& next.gathered() == self.gathered()
                &&& next.touched() == self.touched() + observed_addresses(observation)
                &&& next.accessed() == self.accessed() + observed_accesses(observation)
            },
            _ => {
                &&& next.expected_block_hash() == self.expected_block_hash()
                &&& next.gathered() == self.gathered()
                &&& next.touched() == self.touched()
                &&& next.accessed() == self.accessed()
            },
        }
    }

    /// `next` is what becomes of the run on the event.
    pub open spec fn steps_to(self, event: MergeEvent<B, E, T, L>, next: Self) -> bool {
        if !self.expects(event) {
            next == self
        } else {
            &&& next.chunk_outputs() == self.chunk_outputs()
            &&& next.encoded_bal() == self.encoded_bal()
            &&& match self.failure(event) {
                Some(error) => next.has_failed(error),
                None => if self.stage() == MergeStep::FinalRoot {
                    next.has_accepted(self.request()->0.new_payload_request_root)
                } else {
                    &&& next.stage() == self.next_stage(event)
                    &&& self.records(event, next)
                },
            }
        }
    }

    /// What is to be done next.
    pub fn action(&self) -> (action: MergeAction)
        requires
            self.wf(),
        ensures
            action == self.pending(),
    {
        match self.step {
            MergeStep::HeaderBal => MergeAction::DecodeHeaderBal,
            MergeStep::Request => MergeAction::PrepareRequest { header_bal_hash: self.bal_hash },
            MergeStep::Amsterdam => MergeAction::CheckAmsterdam,
            MergeStep::Witness => MergeAction::LoadWitness,
            MergeStep::BlockHashes => MergeAction::InitializeBlockHashes,
            MergeStep::InvalidHash => MergeAction::FindInvalidBlockHash,
            MergeStep::Parent => MergeAction::LoadParentHeader,
            MergeStep::Body => MergeAction::ValidateBlockBody,
            MergeStep::PreExecution => MergeAction::ValidatePreExecution,
            MergeStep::BalHash => MergeAction::ValidateBalHash,
            MergeStep::InitialRoot => MergeAction::ComputeStateRoot,
            MergeStep::BlockHash => MergeAction::ComputeBlockHash,
            MergeStep::PreCalls => MergeAction::ApplySystemCalls { bal_index: 0 },
            MergeStep::PreState => MergeAction::ValidateState {
                bal_index: 0,
                phase: Phase::PreSystem,
            },
            MergeStep::PreObservation => MergeAction::TakeObservation,
            MergeStep::TxUpdates => MergeAction::UpdatesThroughIndex {
                bal_index: self.prepared_block().body.transactions.len() as u16,
            },
            MergeStep::TxApply => MergeAction::ApplyUpdates,
            MergeStep::Receipts => MergeAction::BuildReceipts,
            MergeStep::Gas => MergeAction::ValidateGas {
                gas: compute_block_gas_from_summaries(self.summaries.as_slice()),
            },
            MergeStep::ReceiptsRoot => MergeAction::ValidateReceiptsRoot,
            MergeStep::Requests => MergeAction::ExtractRequests {
                bal_index: self.post_bal_index(),
            },
            MergeStep::Withdrawals => MergeAction::ProcessWithdrawals,
            MergeStep::PostState => MergeAction::ValidateState {
                bal_index: self.post_bal_index(),
                phase: Phase::WithdrawalRequest,
            },
            MergeStep::PostObservation => MergeAction::TakeObservation,
            MergeStep::PostUpdates => MergeAction::TakeTransitions,
            MergeStep::PostApply => MergeAction::ApplyUpdates,
            MergeStep::RequestsHash => MergeAction::ValidateRequestsHash,
            MergeStep::RawAccesses => MergeAction::ValidateRawAccesses,
            MergeStep::FinalRoot => MergeAction::ComputeStateRoot,
            MergeStep::Finished => MergeAction::Stop,
        }
    }

    /// The block of the request.
    fn prepared_block(&self) -> (block: &Block)
        requires
            self.request() is Some,
        ensures
            *block == self.block(),
    {
        &self.prepared.as_ref().unwrap().block
    }

    /// The block access list index after all transactions.
    fn post_bal_index(&self) -> (index: u16)
        requires
            self.request() is Some,
        ensures
            index == index16(self.tx_count() + 1),
    {
        (self.prepared_block().body.transactions.len() as u128 + 1) as u16
    }

    /// The summaries of all transactions, once the outputs were checked.
    pub fn summaries(&self) -> (summaries: &[TxExecutionSummary])
        ensures
            summaries@ == self.gathered(),
    {
        self.summaries.as_slice()
    }

    /// The receipts of all transactions, once they were built.
    pub fn receipts(&self) -> (receipts: &[Receipt<T, L>])
        ensures
            receipts@ == self.block_receipts(),
    {
        self.receipts.as_slice()
    }

    /// All accesses that were observed so far.
    pub fn observed_accesses(&self) -> (observed: &Observation)
        ensures
            observed.touched_addresses@ == self.touched(),
            observed.storage_accesses@ == self.accessed(),
    {
        &self.observed
    }

    /// The addresses of the withdrawals of the block.
    pub fn withdrawal_addresses(&self) -> (addresses: Vec<Address>)
        ensures
            addresses@ == match self.request() {
                Some(prepared) => withdrawal_addresses(prepared.block.body.withdrawals),
                None => Seq::empty(),
            },
    {
        let mut addresses: Vec<Address> = Vec::new();
        if let Some(prepared) = &self.prepared {
            if let Some(withdrawals) = &prepared.block.body.withdrawals {
                let mut i: usize = 0;
                while i < withdrawals.len()
                    invariant
                        i <= withdrawals.len(),
                        addresses@ == withdrawals@.take(i as int).map_values(
                            |withdrawal: Withdrawal| withdrawal.address,
                        ),
                    decreases withdrawals.len() - i,
                {
                    addresses.push(withdrawals[i].address);
                    i = i + 1;
                    assert(addresses@ =~= withdrawals@.take(i as int).map_values(
                        |withdrawal: Withdrawal| withdrawal.address,
                    ));
                }
                assert(withdrawals@.take(i as int) =~= withdrawals@);
            }
        }
        addresses
    }

    /// How the program ended, if it did.
    pub fn outcome(self) -> (outcome: Option<Result<ProgramOutput, ExecutionError<E>>>)
        ensures
            outcome == self.ended(),
    {
        self.outcome
    }

    /// Ends the program with an error.
    fn fail(self, e: ExecutionError<E>) -> (next: Self)
        ensures
            next.chunk_outputs() == self.chunk_outputs(),
            next.encoded_bal() == self.encoded_bal(),
            next.has_failed(e@),
            next.wf(),
    {
        Self { step: MergeStep::Finished, outcome: Some(Err(e)), ..self }
    }

    /// The error for a failed action that only succeeds or fails.
    fn action_error(&self, e: E) -> (error: ExecutionError<E>)
        ensures
            error@ == self.failed_action(e),
    {
        match self.step {
            MergeStep::Witness
            | MergeStep::BlockHashes
            | MergeStep::TxApply
            | MergeStep::PostApply => ExecutionError::State(e),
            MergeStep::Body => ExecutionError::BlockBodyValidation(e),
            MergeStep::PreExecution | MergeStep::BalHash => ExecutionError::BlockValidation(e),
            MergeStep::Gas => ExecutionError::GasValidation(e),
            MergeStep::ReceiptsRoot => ExecutionError::ReceiptsRootValidation(e),
            MergeStep::RequestsHash => ExecutionError::RequestsRootValidation(e),
            _ => ExecutionError::Evm(e),
        }
    }

    /// The stage after one whose action only succeeds or fails; `None` for the other stages.
    fn after_done(&self) -> (step: Option<MergeStep>)
        requires
            self.wf(),
        ensures
            match step {
                Some(step) => {
                    &&& self.expects(MergeEvent::Reply(MergeReply::Done(Ok(()))))
                    &&& step == self.next_stage(MergeEvent::Reply(MergeReply::Done(Ok(()))))
                },
                None => !self.expects(MergeEvent::Reply(MergeReply::Done(Ok(())))),
            },
    {
        let step = match self.step {
            MergeStep::Witness => MergeStep::BlockHashes,
            MergeStep::BlockHashes => MergeStep::InvalidHash,
            MergeStep::Body => MergeStep::PreExecution,
            MergeStep::PreExecution => MergeStep::BalHash,
            MergeStep::BalHash => MergeStep::InitialRoot,
            MergeStep::PreCalls => MergeStep::PreState,
            MergeStep::PreState => MergeStep::PreObservation,
            MergeStep::TxApply => MergeStep::Receipts,
            MergeStep::Gas => MergeStep::ReceiptsRoot,
            MergeStep::ReceiptsRoot => MergeStep::Requests,
            MergeStep::Requests => match self.prepared_block().body.withdrawals {
                Some(_) => MergeStep::Withdrawals,
                None => MergeStep::PostState,
            },
            MergeStep::Withdrawals => MergeStep::PostState,
            MergeStep::PostState => MergeStep::PostObservation,
            MergeStep::PostApply => MergeStep::RequestsHash,
            MergeStep::RequestsHash => MergeStep::RawAccesses,
            MergeStep::RawAccesses => MergeStep::FinalRoot,
            _ => {
                return None;
            },
        };
        Some(step)
    }

    /// Goes on after an action that only succeeds or fails.
    fn resume_done(self, done: Result<(), E>) -> (next: Self)
        requires
            self.wf(),
        ensures
            next.wf(),
            self.steps_to(MergeEvent::Reply(MergeReply::Done(done)), next),
    {
        match self.after_done() {
            None => self,
            Some(step) => match done {
                Ok(()) => Self { step, ..self },
                Err(e) => {
                    let error = self.action_error(e);
                    self.fail(error)
                },
            },
        }
    }

    /// Goes on with the prepared request: the outputs have to cover its block.
    fn resume_prepared(self, prepared: Result<PreparedRequest, ExecutionError<E>>) -> (next: Self)
        requires
            self.wf(),
            self.stage() == MergeStep::Request,
        ensures
            next.wf(),
            self.steps_to(MergeEvent::Reply(MergeReply::Prepared(prepared)), next),
    {
        match prepared {
            Err(e) => self.fail(e),
            Ok(prepared) => match validate_chunk_coverage(
                self.outputs,
                prepared.block.body.transactions.len(),
            ) {
                Err(message) => self.fail(ExecutionError::Internal(message)),
                Ok(()) => Self { step: MergeStep::Amsterdam, prepared: Some(prepared), ..self },
            },
        }
    }

    /// Goes on with a state root.
    fn resume_root(self, root: Result<H256, E>) -> (next: Self)
        requires
            self.wf(),
            self.expects(MergeEvent::Reply(MergeReply::Root(root))),
        ensures
            next.wf(),
            self.steps_to(MergeEvent::Reply(MergeReply::Root(root)), next),
    {
        match root {
            Err(e) => self.fail(ExecutionError::State(e)),
            Ok(root) => match self.step {
                MergeStep::Parent => Self { step: MergeStep::Body, parent_root: root, ..self },
                MergeStep::InitialRoot => if root.same(&self.parent_root) {
                    Self { step: MergeStep::BlockHash, ..self }
                } else {
                    self.fail(ExecutionError::InvalidInitialStateTrie)
                },
                _ => if root.same(&self.prepared_block().header.state_root) {
                    let request_root = self.prepared.as_ref().unwrap().new_payload_request_root;
                    let output = ProgramOutput {
                        new_payload_request_root: request_root,
                        valid: true,
                    };
                    Self { step: MergeStep::Finished, outcome: Some(Ok(output)), ..self }
                } else {
                    self.fail(ExecutionError::InvalidFinalStateTrie)
                },
            },
        }
    }

    /// Goes on with the hash of the block: the outputs have to be those of the block.
    fn check_with_hash(self, block_hash: H256) -> (next: Self)
        requires
            self.wf(),
            self.stage() == MergeStep::BlockHash,
        ensures
            next.wf(),
            self.steps_to(MergeEvent::Hashed(block_hash), next),
    {
        match check_outputs(self.outputs, &block_hash, &self.bal_hash) {
            Err(message) => self.fail(ExecutionError::Internal(message)),
            Ok(()) => {
                let (summaries, observed) = gather_outputs(self.outputs);
                Self { step: MergeStep::PreCalls, block_hash, summaries, observed, ..self }
            },
        }
    }

    /// Goes on with the accesses that a machine recorded.
    fn resume_observed(self, observation: Option<Observation>) -> (next: Self)
        requires
            self.wf(),
            self.expects(MergeEvent::Reply(MergeReply::Observed(observation))),
        ensures
            next.wf(),
            self.steps_to(MergeEvent::Reply(MergeReply::Observed(observation)), next),
    {
        let step = match self.step {
            MergeStep::PreObservation => MergeStep::TxUpdates,
            _ => MergeStep::PostUpdates,
        };
        let mut observed = self.observed;
        if let Some(more) = observation {
            let mut touched_addresses = more.touched_addresses;
            let mut storage_accesses = more.storage_accesses;
            observed.touched_addresses.append(&mut touched_addresses);
            observed.storage_accesses.append(&mut storage_accesses);
        }
        assert(observed.touched_addresses@ =~= self.touched() + observed_addresses(observation));
        assert(observed.storage_accesses@ =~= self.accessed() + observed_accesses(observation));
        Self { step, observed, ..self }
    }

    /// Goes on with the number of account updates.
    fn resume_updates(self, updates: Result<usize, E>) -> (next: Self)
        requires
            self.wf(),
            self.expects(MergeEvent::Reply(MergeReply::Updates(updates))),
        ensures
            next.wf(),
            self.steps_to(MergeEvent::Reply(MergeReply::Updates(updates)), next),
    {
        match updates {
            Err(e) => self.fail(ExecutionError::Evm(e)),
            Ok(count) => {
                let step = match self.step {
                    MergeStep::TxUpdates => if count == 0 {
                        MergeStep::Receipts
                    } else {
                        MergeStep::TxApply
                    },
                    _ => if count == 0 {
                        MergeStep::RequestsHash
                    } else {
                        MergeStep::PostApply
                    },
                };
                Self { step, ..self }
            },
        }
    }

    /// Goes on with what came of the pending action. A reply to another action changes nothing.
    pub fn resume(self, reply: MergeReply<E>) -> (next: Self)
        requires
            self.wf(),
        ensures
            next.wf(),
            self.steps_to(MergeEvent::Reply(reply), next),
    {
        match (self.step, reply) {
            (MergeStep::Request, MergeReply::Prepared(prepared)) => self.resume_prepared(prepared),
            (MergeStep::Amsterdam, MergeReply::Amsterdam(active)) => if active {
                Self { step: MergeStep::Witness, ..self }
            } else {
                self.fail(
                    ExecutionError::Internal("chunked BAL proving requires Amsterdam+".to_owned()),
                )
            },
            (MergeStep::InvalidHash, MergeReply::InvalidBlockHash(found)) => match found {
                Ok(Some(number)) => self.fail(ExecutionError::InvalidBlockHash(number)),
                _ => Self { step: MergeStep::Parent, ..self },
            },
            (MergeStep::Parent, MergeReply::Root(root)) => self.resume_root(root),
            (MergeStep::InitialRoot, MergeReply::Root(root)) => self.resume_root(root),
            (MergeStep::FinalRoot, MergeReply::Root(root)) => self.resume_root(root),
            (MergeStep::PreObservation, MergeReply::Observed(observation)) => self.resume_observed(
                observation,
            ),
            (MergeStep::PostObservation, MergeReply::Observed(observation)) => self.resume_observed(
                observation,
            ),
            (MergeStep::TxUpdates, MergeReply::Updates(updates)) => self.resume_updates(updates),
            (MergeStep::PostUpdates, MergeReply::Updates(updates)) => self.resume_updates(updates),
            (_, MergeReply::Done(done)) => self.resume_done(done),
            _ => self,
        }
    }

    /// The header block access list, once it was decoded.
    pub fn bal(&self) -> (bal: Option<&B>)
        ensures
            match bal {
                Some(bal) => self.decoded_bal() == Some(*bal),
                None => self.decoded_bal() is None,
            },
    {
        self.bal.as_ref()
    }

    /// Has the header block access list decoded by `decode` and hashed by `hash_bal`, and goes on;
    /// no reply can take the place of this. At another stage nothing changes.
    pub fn decode_bal<D: Fn(&Vec<u8>) -> Result<B, String>, G: Fn(&B) -> H256>(
        self,
        decode: &D,
        hash_bal: &G,
    ) -> (next: Self)
        requires
            self.wf(),
            decode.requires((&self.encoded_bal(),)),
            forall|bal: &B| #[trigger] hash_bal.requires((bal,)),
        ensures
            next.wf(),
            self.stage() != MergeStep::HeaderBal ==> next == self,
            self.stage() == MergeStep::HeaderBal ==> exists|decoded: Result<(B, H256), String>|
                {
                    &&& #[trigger] bal_is_read(self.encoded_bal(), *decode, *hash_bal, decoded)
                    &&& self.steps_to(MergeEvent::Decoded(decoded), next)
                },
    {
        match self.step {
            MergeStep::HeaderBal => {
                let decoded = match decode(self.header_bal) {
                    Ok(bal) => {
                        let bal_hash = hash_bal(&bal);
                        Ok((bal, bal_hash))
                    },
                    Err(text) => Err(text),
                };
                let ghost event = MergeEvent::<B, E, T, L>::Decoded(decoded);
                assert(bal_is_read(self.encoded_bal(), *decode, *hash_bal, decoded));
                let next = match header_bal(decoded) {
                    Ok((bal, bal_hash)) => Self {
                        step: MergeStep::Request,
                        bal: Some(bal),
                        bal_hash,
                        ..self
                    },
                    Err(e) => self.fail(e),
                };
                assert(self.steps_to(event, next));
                next
            },
            _ => self,
        }
    }

    /// Has the block hashed by `hash_header`, compares the outputs of the chunks with it, gathers
    /// what they hold and goes on; no reply can take the place of this. At another stage nothing
    /// changes.
    pub fn check_chunks<H: Fn(&BlockHeader) -> H256>(self, hash_header: &H) -> (next: Self)
        requires
            self.wf(),
            forall|header: &BlockHeader| #[trigger] hash_header.requires((header,)),
        ensures
            next.wf(),
            self.stage() != MergeStep::BlockHash ==> next == self,
            self.stage() == MergeStep::BlockHash ==> exists|block_hash: H256|
                {
                    &&& #[trigger] hash_header.ensures((&self.block().header,), block_hash)
                    &&& self.steps_to(MergeEvent::Hashed(block_hash), next)
                },
    {
        match self.step {
            MergeStep::BlockHash => {
                let block_hash = hash_header(&self.prepared_block().header);
                assert(hash_header.ensures((&self.block().header,), block_hash));
                self.check_with_hash(block_hash)
            },
            _ => self,
        }
    }

    /// Builds the receipts of all transactions and goes on; no reply can take the place of this.
    /// At another stage nothing changes.
    pub fn build_receipts<K: Fn(u8) -> Option<T>, D: Fn(&Vec<u8>) -> Result<L, String>>(
        self,
        kind_of: &K,
        decode: &D,
    ) -> (next: Self)
        requires
            self.wf(),
            forall|tx_type: u8| #[trigger] kind_of.requires((tx_type,)),
            forall|log: &Vec<u8>| #[trigger] decode.requires((log,)),
        ensures
            next.wf(),
            self.stage() != MergeStep::Receipts ==> next == self,
            self.stage() == MergeStep::Receipts ==> exists|built: Result<Vec<Receipt<T, L>>, String>|
                {
                    &&& #[trigger] receipts_result(self.gathered(), *kind_of, *decode, built)
                    &&& self.steps_to(MergeEvent::Built(built), next)
                },
    {
        match self.step {
            MergeStep::Receipts => {
                let built = build_receipts_from_summaries(
                    self.summaries.as_slice(),
                    kind_of,
                    decode,
                );
                let ghost event = MergeEvent::<B, E, T, L>::Built(built);
                let next = match built {
                    Ok(receipts) => Self { step: MergeStep::Gas, receipts, ..self },
                    Err(message) => self.fail(ExecutionError::Internal(message)),
                };
                assert(self.steps_to(event, next));
                next
            },
            _ => self,
        }
    }
}

/// Starts the merge program, which starts with the header block access list.
pub fn execution_program<'a, R, W, B, E, T, L>(input: &'a MergeProgramInput<R, W>) -> (run:
    MergeRun<'a, B, E, T, L>)
    ensures
        run.wf(),
        run.stage() == MergeStep::HeaderBal,
        run.chunk_outputs() == input.chunk_outputs@,
        run.encoded_bal() == input.header_bal,
        run.decoded_bal() is None,
        run.request() is None,
        run.gathered().len() == 0,
        run.block_receipts().len() == 0,
        run.touched().len() == 0,
        run.accessed().len() == 0,
{
    MergeRun {
        outputs: input.chunk_outputs.as_slice(),
        header_bal: &input.header_bal,
        step: MergeStep::HeaderBal,
        bal: None,
        bal_hash: H256([0; 32]),
        prepared: None,
        parent_root: H256([0; 32]),
        block_hash: H256([0; 32]),
        summaries: Vec::new(),
        receipts: Vec::new(),
        observed: Observation { touched_addresses: Vec::new(), storage_accesses: Vec::new() },
        outcome: None,
    }
}

} // verus!
