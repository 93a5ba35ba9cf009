//! Ranges of transactions of one block.

use crate::rlp::{push_list, rlp_list, RLPEncode};
use crate::text::{decimal, push_decimal, push_text};
use vstd::prelude::*;

verus! {

/// `r` accepts when there is no complaint, and otherwise fails with the text of the complaint.
pub open spec fn answers(r: Result<(), String>, complaint: Option<Seq<char>>) -> bool {
    match complaint {
        None => r is Ok,
        Some(text) => r is Err && r->Err_0@ == text,
    }
}

/// A half-open range of transaction indices of one block.
#[derive(Clone, Copy, Debug, Default, PartialEq, Eq, Structural)]
pub struct ChunkRange {
    pub start_tx: u64,
    pub end_tx_exclusive: u64,
}

impl ChunkRange {
    pub fn new(start_tx: u64, end_tx_exclusive: u64) -> (range: Self)
        ensures
            range.start_tx == start_tx,
            range.end_tx_exclusive == end_tx_exclusive,
    {
        Self { start_tx, end_tx_exclusive }
    }

    /// Why the range cannot be a chunk of a block with `tx_count` transactions.
    ///
    /// The bounds are compared as indices, that is after conversion to `usize`.
    pub open spec fn range_complaint(self, tx_count: usize) -> Option<Seq<char>> {
        if self.start_tx as usize >= self.end_tx_exclusive as usize {
            Some("chunk range must be non-empty"@)
        } else if self.end_tx_exclusive as usize > tx_count {
            Some(
                "chunk range end "@ + decimal(self.end_tx_exclusive as nat)
                    + " exceeds transaction count "@ + decimal(tx_count as nat),
            )
        } else {
            None
        }
    }

    /// The number of transactions in the range.
    pub open spec fn width(self) -> usize {
        if self.start_tx <= self.end_tx_exclusive {
            (self.end_tx_exclusive - self.start_tx) as usize
        } else {
            0
        }
    }

    /// Checks that the range is non-empty and within a block of `tx_count` transactions.
    pub fn validate_for_tx_count(&self, tx_count: usize) -> (r: Result<(), String>)
        ensures
            answers(r, self.range_complaint(tx_count)),
    {
        let start: usize = self.start_tx as usize;
        let end: usize = self.end_tx_exclusive as usize;

        if start >= end {
            return Err("chunk range must be non-empty".to_owned());
        }
        if end > tx_count {
            let mut message = "chunk range end ".to_owned();
            push_decimal(&mut message, self.end_tx_exclusive);
            push_text(&mut message, " exceeds transaction count ");
            push_decimal(&mut message, tx_count as u64);
            return Err(message);
        }
        Ok(())
    }

    pub fn tx_count(&self) -> (n: usize)
        ensures
            n == self.width(),
    {
        self.end_tx_exclusive.saturating_sub(self.start_tx) as usize
    }
}

impl RLPEncode for ChunkRange {
    open spec fn rlp(&self) -> Seq<u8> {
        rlp_list(self.start_tx.rlp() + self.end_tx_exclusive.rlp())
    }

    fn encode(&self, buf: &mut Vec<u8>) {
        let mut fields: Vec<u8> = Vec::new();
        self.start_tx.encode(&mut fields);
        self.end_tx_exclusive.encode(&mut fields);
        assert(fields@ =~= self.start_tx.rlp() + self.end_tx_exclusive.rlp());
        push_list(buf, fields);
    }
}

} // verus!
