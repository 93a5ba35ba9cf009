//! What is kept of an executed transaction, and the receipts and block gas made from it.

use crate::rlp::{push_list, rlp_list, RLPEncode};
use crate::text::{decimal, push_decimal, push_text};
use vstd::prelude::*;

verus! {

/// The result of one transaction.
#[derive(Debug, Default, PartialEq, Eq)]
pub struct TxExecutionSummary {
    pub tx_index: u64,
    pub tx_type: u8,
    pub succeeded: bool,
    pub gas_spent: u64,
    pub gas_used: u64,
    pub state_gas_used: u64,
    /// The encoded logs.
    pub logs: Vec<Vec<u8>>,
}

/// The content of a [`TxExecutionSummary`].
pub ghost struct SummaryContent {
    pub tx_index: u64,
    pub tx_type: u8,
    pub succeeded: bool,
    pub gas_spent: u64,
    pub gas_used: u64,
    pub state_gas_used: u64,
    pub logs: Seq<Seq<u8>>,
}

impl View for TxExecutionSummary {
    type V = SummaryContent;

    open spec fn view(&self) -> SummaryContent {
        SummaryContent {
            tx_index: self.tx_index,
            tx_type: self.tx_type,
            succeeded: self.succeeded,
            gas_spent: self.gas_spent,
            gas_used: self.gas_used,
            state_gas_used: self.state_gas_used,
            logs: Seq::new(self.logs@.len(), |i: int| self.logs@[i]@),
        }
    }
}

impl Clone for TxExecutionSummary {
    fn clone(&self) -> (copy: Self)
        ensures
            copy@ == self@,
    {
        let mut logs: Vec<Vec<u8>> = Vec::new();
        let mut i: usize = 0;
        while i < self.logs.len()
            invariant
                i <= self.logs.len(),
                logs@.len() == i,
                forall|j: int| 0 <= j < i ==> (#[trigger] logs@[j])@ == self.logs@[j]@,
            decreases self.logs.len() - i,
        {
            let log = self.logs[i].clone();
            assert(log@ =~= self.logs@[i as int]@);
            logs.push(log);
            i = i + 1;
        }
        let copy = Self {
            tx_index: self.tx_index,
            tx_type: self.tx_type,
            succeeded: self.succeeded,
            gas_spent: self.gas_spent,
            gas_used: self.gas_used,
            state_gas_used: self.state_gas_used,
            logs,
        };
        assert(copy@.logs =~= self@.logs);
        copy
    }
}

/// A transaction receipt with transaction types `T` and logs `L`.
#[derive(Clone, Debug, PartialEq, Eq)]
pub struct Receipt<T, L> {
    pub tx_type: T,
    pub succeeded: bool,
    pub cumulative_gas_used: u64,
    pub logs: Vec<L>,
}

/// `n`, or the largest `u64` if `n` is beyond it.
pub open spec fn capped(n: nat) -> u64 {
    if n <= u64::MAX {
        n as u64
    } else {
        u64::MAX
    }
}

/// The gas that the senders of the transactions paid for.
pub open spec fn total_gas_spent(summaries: Seq<TxExecutionSummary>) -> nat
    decreases summaries.len(),
{
    if summaries.len() == 0 {
        0
    } else {
        total_gas_spent(summaries.drop_last()) + summaries.last().gas_spent as nat
    }
}

/// The gas of a transaction that is not state gas.
pub open spec fn regular_gas(summary: TxExecutionSummary) -> nat {
    if summary.state_gas_used <= summary.gas_used {
        (summary.gas_used - summary.state_gas_used) as nat
    } else {
        0
    }
}

/// The regular gas of all transactions.
pub open spec fn total_regular_gas(summaries: Seq<TxExecutionSummary>) -> nat
    decreases summaries.len(),
{
    if summaries.len() == 0 {
        0
    } else {
        total_regular_gas(summaries.drop_last()) + regular_gas(summaries.last())
    }
}

/// The state gas of all transactions.
pub open spec fn total_state_gas(summaries: Seq<TxExecutionSummary>) -> nat
    decreases summaries.len(),
{
    if summaries.len() == 0 {
        0
    } else {
        total_state_gas(summaries.drop_last()) + summaries.last().state_gas_used as nat
    }
}

/// The gas of a block: regular and state gas are metered side by side and the larger one counts.
pub open spec fn block_gas(summaries: Seq<TxExecutionSummary>) -> u64 {
    let regular = capped(total_regular_gas(summaries));
    let state = capped(total_state_gas(summaries));
    if regular >= state {
        regular
    } else {
        state
    }
}

/// What `kind_of` says of a transaction type byte, as a result.
pub open spec fn tx_type_result<T, K: Fn(u8) -> Option<T>>(
    tx_type: u8,
    kind_of: K,
    r: Result<T, String>,
) -> bool {
    match r {
        Ok(kind) => kind_of.ensures((tx_type,), Some(kind)),
        Err(text) => {
            &&& kind_of.ensures((tx_type,), None)
            &&& text@ == "invalid tx type in summary: "@ + decimal(tx_type as nat)
        },
    }
}

/// What `decode` says of an encoded log, as a result.
pub open spec fn log_result<L, D: Fn(&Vec<u8>) -> Result<L, String>>(
    log: Vec<u8>,
    decode: D,
    r: Result<L, Seq<char>>,
) -> bool {
    match r {
        Ok(decoded) => decode.ensures((&log,), Ok(decoded)),
        Err(text) => exists|e: String|
            #[trigger] decode.ensures((&log,), Err(e)) && text == "failed to decode summary log: "@
                + e@,
    }
}

/// Every log in order, or the complaint about the first one that does not decode.
pub open spec fn logs_result<L, D: Fn(&Vec<u8>) -> Result<L, String>>(
    logs: Seq<Vec<u8>>,
    decode: D,
    r: Result<Vec<L>, String>,
) -> bool {
    match r {
        Ok(decoded) => {
            &&& decoded@.len() == logs.len()
            &&& logs_decode(logs, decode, decoded@)
        },
        Err(text) => exists|before: Seq<L>|
            {
                &&& before.len() < logs.len()
                &&& #[trigger] logs_decode(logs, decode, before)
                &&& log_result(logs[before.len() as int], decode, Err(text@))
            },
    }
}

/// The first logs decode to `decoded`.
pub open spec fn logs_decode<L, D: Fn(&Vec<u8>) -> Result<L, String>>(
    logs: Seq<Vec<u8>>,
    decode: D,
    decoded: Seq<L>,
) -> bool {
    forall|i: int|
        0 <= i < decoded.len() ==> log_result(logs[i], decode, Ok(#[trigger] decoded[i]))
}

/// The receipt of a summary when `cumulative` gas was spent up to and including it. An unknown
/// transaction type is reported before a log that does not decode.
pub open spec fn receipt_result<
    T,
    L,
    K: Fn(u8) -> Option<T>,
    D: Fn(&Vec<u8>) -> Result<L, String>,
>(
    summary: TxExecutionSummary,
    cumulative: u64,
    kind_of: K,
    decode: D,
    r: Result<Receipt<T, L>, String>,
) -> bool {
    match r {
        Ok(receipt) => {
            &&& tx_type_result(summary.tx_type, kind_of, Ok(receipt.tx_type))
            &&& receipt.succeeded == summary.succeeded
            &&& receipt.cumulative_gas_used == cumulative
            &&& logs_result(summary.logs@, decode, Ok(receipt.logs))
        },
        Err(text) => {
            ||| tx_type_result::<T, K>(summary.tx_type, kind_of, Err(text))
            ||| {
                &&& exists|kind: T|
                    #[trigger] tx_type_result(summary.tx_type, kind_of, Ok::<T, String>(kind))
                &&& logs_result::<L, D>(summary.logs@, decode, Err(text))
            }
        },
    }
}

/// The receipts of the first summaries, the gas summed up from one to the next.
pub open spec fn receipts_match<
    T,
    L,
    K: Fn(u8) -> Option<T>,
    D: Fn(&Vec<u8>) -> Result<L, String>,
>(
    summaries: Seq<TxExecutionSummary>,
    kind_of: K,
    decode: D,
    receipts: Seq<Receipt<T, L>>,
) -> bool {
    forall|i: int|
        0 <= i < receipts.len() ==> receipt_result(
            summaries[i],
            capped(total_gas_spent(summaries.take(i + 1))),
            kind_of,
            decode,
            Ok(#[trigger] receipts[i]),
        )
}

/// The receipts of all summaries, or the complaint about the first one that gives no receipt.
pub open spec fn receipts_result<
    T,
    L,
    K: Fn(u8) -> Option<T>,
    D: Fn(&Vec<u8>) -> Result<L, String>,
>(
    summaries: Seq<TxExecutionSummary>,
    kind_of: K,
    decode: D,
    r: Result<Vec<Receipt<T, L>>, String>,
) -> bool {
    match r {
        Ok(receipts) => {
            &&& receipts@.len() == summaries.len()
            &&& receipts_match(summaries, kind_of, decode, receipts@)
        },
        Err(text) => exists|before: Seq<Receipt<T, L>>|
            {
                &&& before.len() < summaries.len()
                &&& #[trigger] receipts_match(summaries, kind_of, decode, before)
                &&& receipt_result::<T, L, K, D>(
                    summaries[before.len() as int],
                    capped(total_gas_spent(summaries.take(before.len() as int + 1))),
                    kind_of,
                    decode,
                    Err(text),
                )
            },
    }
}

/// `encoded` holds what `encode` makes of each log.
pub open spec fn logs_encode<L, E: Fn(&L) -> Vec<u8>>(
    logs: Seq<L>,
    encode: E,
    encoded: Seq<Vec<u8>>,
) -> bool {
    &&& encoded.len() == logs.len()
    &&& forall|i: int|
        0 <= i < logs.len() ==> encode.ensures((&logs[i],), #[trigger] encoded[i])
}

/// Encodes each log.
pub fn encode_logs<L, E: Fn(&L) -> Vec<u8>>(logs: &[L], encode: &E) -> (encoded: Vec<Vec<u8>>)
    requires
        forall|log: &L| #[trigger] encode.requires((log,)),
    ensures
        logs_encode(logs@, *encode, encoded@),
{
    let mut encoded: Vec<Vec<u8>> = Vec::new();
    let mut i: usize = 0;
    while i < logs.len()
        invariant
            i <= logs.len(),
            encoded@.len() == i,
            forall|log: &L| #[trigger] encode.requires((log,)),
            forall|j: int| 0 <= j < i ==> encode.ensures((&logs@[j],), #[trigger] encoded@[j]),
        decreases logs.len() - i,
    {
        let log = encode(&logs[i]);
        encoded.push(log);
        i = i + 1;
    }
    encoded
}

/// The logs of a summary survive it: if decoding undoes encoding, decoding the logs of a summary
/// gives the logs that were encoded into it.
pub proof fn logs_survive_the_summary<
    L,
    E: Fn(&L) -> Vec<u8>,
    D: Fn(&Vec<u8>) -> Result<L, String>,
>(
    logs: Seq<L>,
    encoded: Seq<Vec<u8>>,
    encode: E,
    decode: D,
    r: Result<Vec<L>, String>,
)
    requires
        logs_encode(logs, encode, encoded),
        logs_result(encoded, decode, r),
        forall|log: L, bytes: Vec<u8>, decoded: Result<L, String>| #[trigger]
            encode.ensures((&log,), bytes) && #[trigger] decode.ensures((&bytes,), decoded)
                ==> decoded == Ok::<L, String>(log),
    ensures
        r is Ok,
        r->Ok_0@ == logs,
{
    match r {
        Ok(decoded) => {
            assert forall|i: int| 0 <= i < logs.len() implies decoded@[i] == logs[i] by {
                assert(log_result(encoded[i], decode, Ok(decoded@[i])));
                assert(encode.ensures((&logs[i],), encoded[i]));
            }
            assert(decoded@ =~= logs);
        },
        Err(text) => {
            let before = choose|before: Seq<L>|
                {
                    &&& before.len() < encoded.len()
                    &&& #[trigger] logs_decode(encoded, decode, before)
                    &&& log_result(encoded[before.len() as int], decode, Err(text@))
                };
            let i = before.len() as int;
            assert(encode.ensures((&logs[i],), encoded[i]));
            assert(log_result(encoded[i], decode, Err::<L, Seq<char>>(text@)));
        },
    }
}

impl TxExecutionSummary {
    /// The summary of a transaction with the encoded `logs`.
    pub fn new(
        tx_index: u64,
        tx_type: u8,
        succeeded: bool,
        gas_spent: u64,
        gas_used: u64,
        state_gas_used: u64,
        logs: Vec<Vec<u8>>,
    ) -> (summary: Self)
        ensures
            summary == (TxExecutionSummary {
                tx_index,
                tx_type,
                succeeded,
                gas_spent,
                gas_used,
                state_gas_used,
                logs,
            }),
    {
        Self { tx_index, tx_type, succeeded, gas_spent, gas_used, state_gas_used, logs }
    }

    /// The logs, each decoded by `decode`.
    pub fn decode_logs<L, D: Fn(&Vec<u8>) -> Result<L, String>>(&self, decode: &D) -> (r: Result<
        Vec<L>,
        String,
    >)
        requires
            forall|log: &Vec<u8>| #[trigger] decode.requires((log,)),
        ensures
            logs_result(self.logs@, *decode, r),
    {
        let mut decoded: Vec<L> = Vec::new();
        let mut i: usize = 0;
        while i < self.logs.len()
            invariant
                i <= self.logs.len(),
                decoded@.len() == i,
                forall|log: &Vec<u8>| #[trigger] decode.requires((log,)),
                logs_decode(self.logs@, *decode, decoded@),
            decreases self.logs.len() - i,
        {
            match decode(&self.logs[i]) {
                Ok(log) => {
                    decoded.push(log);
                },
                Err(e) => {
                    let mut text = "failed to decode summary log: ".to_owned();
                    push_text(&mut text, e.as_str());
                    assert(logs_decode(self.logs@, *decode, decoded@));
                    return Err(text);
                },
            }
            i = i + 1;
        }
        Ok(decoded)
    }

    /// The transaction type that `kind_of` knows the type byte by.
    pub fn tx_type<T, K: Fn(u8) -> Option<T>>(&self, kind_of: &K) -> (r: Result<T, String>)
        requires
            kind_of.requires((self.tx_type,)),
        ensures
            tx_type_result(self.tx_type, *kind_of, r),
    {
        match kind_of(self.tx_type) {
            Some(kind) => Ok(kind),
            None => {
                let mut text = "invalid tx type in summary: ".to_owned();
                push_decimal(&mut text, self.tx_type as u64);
                Err(text)
            },
        }
    }

    /// The receipt of the transaction. The gas spent is added to `cumulative_gas_spent` first,
    /// whether or not a receipt can be made.
    pub fn into_receipt<T, L, K: Fn(u8) -> Option<T>, D: Fn(&Vec<u8>) -> Result<L, String>>(
        &self,
        cumulative_gas_spent: &mut u64,
        kind_of: &K,
        decode: &D,
    ) -> (r: Result<Receipt<T, L>, String>)
        requires
            kind_of.requires((self.tx_type,)),
            forall|log: &Vec<u8>| #[trigger] decode.requires((log,)),
        ensures
            *final(cumulative_gas_spent) == capped(
                (*old(cumulative_gas_spent) + self.gas_spent) as nat,
            ),
            *old(cumulative_gas_spent) + self.gas_spent <= u64::MAX ==> *final(cumulative_gas_spent)
                == *old(cumulative_gas_spent) + self.gas_spent,
            *old(cumulative_gas_spent) + self.gas_spent > u64::MAX ==> *final(cumulative_gas_spent)
                == u64::MAX,
            receipt_result(*self, *final(cumulative_gas_spent), *kind_of, *decode, r),
    {
        *cumulative_gas_spent = cumulative_gas_spent.saturating_add(self.gas_spent);
        let tx_type = match self.tx_type(kind_of) {
            Ok(kind) => kind,
            Err(text) => {
                return Err(text);
            },
        };
        assert(tx_type_result(self.tx_type, *kind_of, Ok::<T, String>(tx_type)));
        let logs = match self.decode_logs(decode) {
            Ok(logs) => logs,
            Err(text) => {
                return Err(text);
            },
        };
        Ok(
            Receipt {
                tx_type,
                succeeded: self.succeeded,
                cumulative_gas_used: *cumulative_gas_spent,
                logs,
            },
        )
    }
}

impl RLPEncode for TxExecutionSummary {
    open spec fn rlp(&self) -> Seq<u8> {
        rlp_list(
            self.tx_index.rlp() + self.tx_type.rlp() + self.succeeded.rlp() + self.gas_spent.rlp()
                + self.gas_used.rlp() + self.state_gas_used.rlp() + self.logs.rlp(),
        )
    }

    fn encode(&self, buf: &mut Vec<u8>) {
        let mut fields: Vec<u8> = Vec::new();
        self.tx_index.encode(&mut fields);
        self.tx_type.encode(&mut fields);
        self.succeeded.encode(&mut fields);
        self.gas_spent.encode(&mut fields);
        self.gas_used.encode(&mut fields);
        self.state_gas_used.encode(&mut fields);
        self.logs.encode(&mut fields);
        assert(fields@ =~= self.tx_index.rlp() + self.tx_type.rlp() + self.succeeded.rlp()
            + self.gas_spent.rlp() + self.gas_used.rlp() + self.state_gas_used.rlp()
            + self.logs.rlp());
        push_list(buf, fields);
    }
}

/// The receipts of all transactions of a block, from their summaries in order.
pub fn build_receipts_from_summaries<
    T,
    L,
    K: Fn(u8) -> Option<T>,
    D: Fn(&Vec<u8>) -> Result<L, String>,
>(summaries: &[TxExecutionSummary], kind_of: &K, decode: &D) -> (r: Result<
    Vec<Receipt<T, L>>,
    String,
>)
    requires
        forall|tx_type: u8| #[trigger] kind_of.requires((tx_type,)),
        forall|log: &Vec<u8>| #[trigger] decode.requires((log,)),
    ensures
        receipts_result(summaries@, *kind_of, *decode, r),
{
    let mut cumulative_gas_spent: u64 = 0;
    let mut receipts: Vec<Receipt<T, L>> = Vec::new();
    let mut i: usize = 0;
    while i < summaries.len()
        invariant
            i <= summaries.len(),
            receipts@.len() == i,
            cumulative_gas_spent == capped(total_gas_spent(summaries@.take(i as int))),
            forall|tx_type: u8| #[trigger] kind_of.requires((tx_type,)),
            forall|log: &Vec<u8>| #[trigger] decode.requires((log,)),
            receipts_match(summaries@, *kind_of, *decode, receipts@),
        decreases summaries.len() - i,
    {
        proof {
            let next = summaries@.take(i + 1);
            assert(next.drop_last() =~= summaries@.take(i as int));
            assert(next.last() == summaries@[i as int]);
        }
        let r = summaries[i].into_receipt(&mut cumulative_gas_spent, kind_of, decode);
        match r {
            Ok(receipt) => {
                receipts.push(receipt);
            },
            Err(text) => {
                assert(receipts_match(summaries@, *kind_of, *decode, receipts@));
                return Err(text);
            },
        }
        i = i + 1;
    }
    Ok(receipts)
}

/// The gas of a block from the summaries of its transactions.
pub fn compute_block_gas_from_summaries(summaries: &[TxExecutionSummary]) -> (gas: u64)
    ensures
        gas == block_gas(summaries@),
{
    let mut regular: u64 = 0;
    let mut state: u64 = 0;
    let mut i: usize = 0;
    while i < summaries.len()
        invariant
            i <= summaries.len(),
            regular == capped(total_regular_gas(summaries@.take(i as int))),
            state == capped(total_state_gas(summaries@.take(i as int))),
        decreases summaries.len() - i,
    {
        proof {
            let next = summaries@.take(i + 1);
            assert(next.drop_last() =~= summaries@.take(i as int));
            assert(next.last() == summaries@[i as int]);
        }
        regular = regular.saturating_add(
            summaries[i].gas_used.saturating_sub(summaries[i].state_gas_used),
        );
        state = state.saturating_add(summaries[i].state_gas_used);
        i = i + 1;
    }
    assert(summaries@.take(i as int) =~= summaries@);
    if regular >= state {
        regular
    } else {
        state
    }
}

} // verus!
