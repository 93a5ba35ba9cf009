//! Why a chunk or merge program fails.

use crate::text::push_text;
use vstd::prelude::*;

verus! {

/// The error of a chunk or merge program; `E` is an error of the execution layer underneath.
#[derive(Debug, PartialEq, Eq)]
pub enum ExecutionError<E> {
    /// A check of the program itself failed.
    Internal(String),
    /// The execution witness could not be turned into a guest state.
    GuestProgramState(E),
    /// The virtual machine failed, or its state disagrees with the block access list.
    Evm(E),
    /// The state underneath could not be read or written.
    State(E),
    /// The block body does not match its header.
    BlockBodyValidation(E),
    /// The block is not valid on top of its parent.
    BlockValidation(E),
    /// The gas of the block is not what its header says.
    GasValidation(E),
    /// The receipts root of the block is not what its header says.
    ReceiptsRootValidation(E),
    /// The requests hash of the block is not what its header says.
    RequestsRootValidation(E),
    /// The block with this number has a hash that its child does not refer to.
    InvalidBlockHash(u64),
    /// The witness does not start from the state of the parent block.
    InvalidInitialStateTrie,
    /// The block does not end in the state that its header says.
    InvalidFinalStateTrie,
}

/// The content of an [`ExecutionError`].
pub ghost enum ErrorContent<E> {
    Internal(Seq<char>),
    GuestProgramState(E),
    Evm(E),
    State(E),
    BlockBodyValidation(E),
    BlockValidation(E),
    GasValidation(E),
    ReceiptsRootValidation(E),
    RequestsRootValidation(E),
    InvalidBlockHash(u64),
    InvalidInitialStateTrie,
    InvalidFinalStateTrie,
}

impl<E> View for ExecutionError<E> {
    type V = ErrorContent<E>;

    open spec fn view(&self) -> ErrorContent<E> {
        match *self {
            ExecutionError::Internal(text) => ErrorContent::Internal(text@),
            ExecutionError::GuestProgramState(e) => ErrorContent::GuestProgramState(e),
            ExecutionError::Evm(e) => ErrorContent::Evm(e),
            ExecutionError::State(e) => ErrorContent::State(e),
            ExecutionError::BlockBodyValidation(e) => ErrorContent::BlockBodyValidation(e),
            ExecutionError::BlockValidation(e) => ErrorContent::BlockValidation(e),
            ExecutionError::GasValidation(e) => ErrorContent::GasValidation(e),
            ExecutionError::ReceiptsRootValidation(e) => ErrorContent::ReceiptsRootValidation(e),
            ExecutionError::RequestsRootValidation(e) => ErrorContent::RequestsRootValidation(e),
            ExecutionError::InvalidBlockHash(n) => ErrorContent::InvalidBlockHash(n),
            ExecutionError::InvalidInitialStateTrie => ErrorContent::InvalidInitialStateTrie,
            ExecutionError::InvalidFinalStateTrie => ErrorContent::InvalidFinalStateTrie,
        }
    }
}

/// The error for a header block access list that does not decode.
pub open spec fn bal_complaint<E>(text: Seq<char>) -> ErrorContent<E> {
    ErrorContent::Internal("failed to decode header BAL: "@ + text)
}

/// What `decode` makes of the encoded header block access list, as a result of a program.
pub open spec fn header_bal_result<B, E, D: Fn(&Vec<u8>) -> Result<B, String>>(
    bytes: Vec<u8>,
    decode: D,
    r: Result<B, ExecutionError<E>>,
) -> bool {
    match r {
        Ok(bal) => decode.ensures((&bytes,), Ok(bal)),
        Err(e) => exists|text: String| #[trigger]
            decode.ensures((&bytes,), Err(text)) && e@ == bal_complaint::<E>(text@),
    }
}

/// The header block access list as `decode` reads it, or an error with the text of the decoder.
pub fn decode_header_bal<B, E, D: Fn(&Vec<u8>) -> Result<B, String>>(
    bytes: &Vec<u8>,
    decode: &D,
) -> (r: Result<B, ExecutionError<E>>)
    requires
        decode.requires((bytes,)),
    ensures
        header_bal_result(*bytes, *decode, r),
{
    header_bal(decode(bytes))
}

/// The decoded header block access list; `decoded` is what the decoder made of its bytes, or the
/// text of the decoding error.
pub(crate) fn header_bal<B, E>(decoded: Result<B, String>) -> (r: Result<B, ExecutionError<E>>)
    ensures
        match decoded {
            Ok(bal) => r == Ok::<B, ExecutionError<E>>(bal),
            Err(text) => r is Err && r->Err_0@ == bal_complaint::<E>(text@),
        },
{
    match decoded {
        Ok(bal) => Ok(bal),
        Err(text) => {
            let mut message = "failed to decode header BAL: ".to_owned();
            push_text(&mut message, text.as_str());
            Err(ExecutionError::Internal(message))
        },
    }
}

/// An encoded header block access list is read back, provided that decoding undoes encoding.
pub proof fn header_bal_survives_encoding<
    B,
    E,
    F: Fn(&B) -> Vec<u8>,
    D: Fn(&Vec<u8>) -> Result<B, String>,
>(
    bal: B,
    encoded: Vec<u8>,
    bytes: Vec<u8>,
    encode: F,
    decode: D,
    r: Result<B, ExecutionError<E>>,
)
    requires
        encode.ensures((&bal,), encoded),
        bytes@ == encoded@,
        header_bal_result(bytes, decode, r),
        forall|b: B, out: Vec<u8>, read: Vec<u8>, decoded: Result<B, String>| #[trigger]
            encode.ensures((&b,), out) && #[trigger] decode.ensures((&read,), decoded) && read@
                == out@ ==> decoded == Ok::<B, String>(b),
    ensures
        r == Ok::<B, ExecutionError<E>>(bal),
{
}

} // verus!
