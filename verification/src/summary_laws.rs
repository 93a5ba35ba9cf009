//! Laws of gas and receipts.

use crate::artifact::summary_contents;
use crate::summary::{
    block_gas, capped, log_result, logs_decode, logs_encode, logs_result, logs_survive_the_summary,
    receipt_result, receipts_match, receipts_result, total_gas_spent, total_regular_gas,
    total_state_gas, Receipt, TxExecutionSummary,
};
use vstd::prelude::*;

verus! {

/// The gas used by all transactions.
pub open spec fn total_gas_used(summaries: Seq<TxExecutionSummary>) -> nat
    decreases summaries.len(),
{
    if summaries.len() == 0 {
        0
    } else {
        total_gas_used(summaries.drop_last()) + summaries.last().gas_used as nat
    }
}

proof fn spent_gas_grows(summaries: Seq<TxExecutionSummary>, i: int, j: int)
    requires
        0 <= i <= j <= summaries.len(),
    ensures
        total_gas_spent(summaries.take(i)) <= total_gas_spent(summaries.take(j)),
    decreases j - i,
{
    if i < j {
        spent_gas_grows(summaries, i, j - 1);
        assert(summaries.take(j).drop_last() =~= summaries.take(j - 1));
    }
}

/// The cumulative gas of the receipts of a block never decreases, and that of the last receipt is
/// the gas that all transactions spent, up to the largest `u64`.
pub proof fn receipts_gas_never_decreases<
    T,
    L,
    K: Fn(u8) -> Option<T>,
    D: Fn(&Vec<u8>) -> Result<L, String>,
>(summaries: Seq<TxExecutionSummary>, kind_of: K, decode: D, receipts: Vec<Receipt<T, L>>)
    requires
        receipts_result(summaries, kind_of, decode, Ok(receipts)),
    ensures
        forall|i: int, j: int|
            0 <= i <= j < receipts@.len() ==> (#[trigger] receipts@[i]).cumulative_gas_used <= (
            #[trigger] receipts@[j]).cumulative_gas_used,
        receipts@.len() > 0 ==> receipts@.last().cumulative_gas_used == capped(
            total_gas_spent(summaries),
        ),
{
    assert forall|i: int, j: int| 0 <= i <= j < receipts@.len() implies (
    #[trigger] receipts@[i]).cumulative_gas_used <= (
    #[trigger] receipts@[j]).cumulative_gas_used by {
        spent_gas_grows(summaries, i + 1, j + 1);
    }
    assert(summaries.take(summaries.len() as int) =~= summaries);
    if receipts@.len() > 0 {
        assert(receipts@[receipts@.len() - 1].cumulative_gas_used == capped(
            total_gas_spent(summaries),
        ));
    }
}

/// Type, status and logs of a transaction survive its summary: the receipt of a summary is the one
/// that these would give directly, with the gas spent so far, provided that the type byte is known
/// by `kind` and that decoding a log undoes encoding it.
pub proof fn receipt_survives_the_summary<
    T,
    L,
    E: Fn(&L) -> Vec<u8>,
    K: Fn(u8) -> Option<T>,
    D: Fn(&Vec<u8>) -> Result<L, String>,
>(
    summary: TxExecutionSummary,
    logs: Seq<L>,
    kind: T,
    cumulative: u64,
    encode: E,
    kind_of: K,
    decode: D,
    r: Result<Receipt<T, L>, String>,
)
    requires
        logs_encode(logs, encode, summary.logs@),
        receipt_result(summary, cumulative, kind_of, decode, r),
        forall|known: Option<T>| #[trigger]
            kind_of.ensures((summary.tx_type,), known) ==> known == Some(kind),
        forall|log: L, bytes: Vec<u8>, decoded: Result<L, String>| #[trigger]
            encode.ensures((&log,), bytes) && #[trigger] decode.ensures((&bytes,), decoded)
                ==> decoded == Ok::<L, String>(log),
    ensures
        r matches Ok(receipt) && {
            &&& receipt.tx_type == kind
            &&& receipt.succeeded == summary.succeeded
            &&& receipt.cumulative_gas_used == cumulative
            &&& receipt.logs@ == logs
        },
{
    match r {
        Ok(receipt) => {
            logs_survive_the_summary(logs, summary.logs@, encode, decode, Ok(receipt.logs));
        },
        Err(text) => {
            if logs_result::<L, D>(summary.logs@, decode, Err(text)) {
                logs_survive_the_summary(logs, summary.logs@, encode, decode, Err(text));
            }
        },
    }
}

/// The gas used and the state gas of a transaction do not reach its receipt.
pub proof fn gas_meters_do_not_reach_the_receipt<
    T,
    L,
    K: Fn(u8) -> Option<T>,
    D: Fn(&Vec<u8>) -> Result<L, String>,
>(
    a: TxExecutionSummary,
    b: TxExecutionSummary,
    cumulative: u64,
    kind_of: K,
    decode: D,
    r: Result<Receipt<T, L>, String>,
)
    requires
        a.tx_type == b.tx_type,
        a.succeeded == b.succeeded,
        a.logs == b.logs,
    ensures
        receipt_result(a, cumulative, kind_of, decode, r) <==> receipt_result(
            b,
            cumulative,
            kind_of,
            decode,
            r,
        ),
{
}

/// What `decode` makes of a log depends on the bytes of the log alone.
pub open spec fn reads_bytes_alone<L, D: Fn(&Vec<u8>) -> Result<L, String>>(decode: D) -> bool {
    forall|x: Vec<u8>, y: Vec<u8>, r: Result<L, String>|
        #![trigger decode.ensures((&x,), r), decode.ensures((&y,), r)]
        x@ == y@ && decode.ensures((&x,), r) ==> decode.ensures((&y,), r)
}

proof fn content_determines_log<L, D: Fn(&Vec<u8>) -> Result<L, String>>(
    x: Vec<u8>,
    y: Vec<u8>,
    decode: D,
    r: Result<L, Seq<char>>,
)
    requires
        x@ == y@,
        reads_bytes_alone(decode),
        log_result(x, decode, r),
    ensures
        log_result(y, decode, r),
{
    match r {
        Ok(log) => {
            assert(decode.ensures((&y,), Ok(log)));
        },
        Err(text) => {
            let e = choose|e: String|
                #[trigger] decode.ensures((&x,), Err(e)) && text
                    == "failed to decode summary log: "@ + e@;
            assert(decode.ensures((&y,), Err(e)));
        },
    }
}

proof fn content_determines_decoded<L, D: Fn(&Vec<u8>) -> Result<L, String>>(
    a: TxExecutionSummary,
    b: TxExecutionSummary,
    decode: D,
    decoded: Seq<L>,
)
    requires
        a@ == b@,
        reads_bytes_alone(decode),
        decoded.len() <= a.logs@.len(),
        logs_decode(a.logs@, decode, decoded),
    ensures
        logs_decode(b.logs@, decode, decoded),
{
    assert forall|i: int| 0 <= i < decoded.len() implies log_result(
        b.logs@[i],
        decode,
        Ok(#[trigger] decoded[i]),
    ) by {
        same_log(a, b, i);
        assert(log_result(a.logs@[i], decode, Ok::<L, Seq<char>>(decoded[i])));
        content_determines_log(a.logs@[i], b.logs@[i], decode, Ok(decoded[i]));
    }
}

proof fn same_log(a: TxExecutionSummary, b: TxExecutionSummary, i: int)
    requires
        a@ == b@,
        0 <= i < a.logs@.len(),
    ensures
        a.logs@.len() == b.logs@.len(),
        a.logs@[i]@ == b.logs@[i]@,
{
    assert(a.logs@.len() == a@.logs.len());
    assert(b.logs@.len() == b@.logs.len());
    assert(a@.logs[i] == a.logs@[i]@);
    assert(b@.logs[i] == b.logs@[i]@);
}

proof fn content_determines_logs<L, D: Fn(&Vec<u8>) -> Result<L, String>>(
    a: TxExecutionSummary,
    b: TxExecutionSummary,
    decode: D,
    r: Result<Vec<L>, String>,
)
    requires
        a@ == b@,
        reads_bytes_alone(decode),
        logs_result(a.logs@, decode, r),
    ensures
        logs_result(b.logs@, decode, r),
{
    assert(a.logs@.len() == a@.logs.len());
    assert(b.logs@.len() == b@.logs.len());
    match r {
        Ok(decoded) => {
            content_determines_decoded(a, b, decode, decoded@);
        },
        Err(text) => {
            let before = choose|before: Seq<L>|
                {
                    &&& before.len() < a.logs@.len()
                    &&& #[trigger] logs_decode(a.logs@, decode, before)
                    &&& log_result(a.logs@[before.len() as int], decode, Err(text@))
                };
            let i = before.len() as int;
            content_determines_decoded(a, b, decode, before);
            same_log(a, b, i);
            content_determines_log::<L, D>(a.logs@[i], b.logs@[i], decode, Err(text@));
        },
    }
}

/// Summaries with the same content give the same receipt, provided that the decoder of the logs
/// looks at their bytes alone.
pub proof fn content_determines_receipt<
    T,
    L,
    K: Fn(u8) -> Option<T>,
    D: Fn(&Vec<u8>) -> Result<L, String>,
>(
    a: TxExecutionSummary,
    b: TxExecutionSummary,
    cumulative: u64,
    kind_of: K,
    decode: D,
    r: Result<Receipt<T, L>, String>,
)
    requires
        a@ == b@,
        reads_bytes_alone(decode),
        receipt_result(a, cumulative, kind_of, decode, r),
    ensures
        receipt_result(b, cumulative, kind_of, decode, r),
{
    assert(a@.tx_type == a.tx_type && b@.tx_type == b.tx_type);
    assert(a@.succeeded == a.succeeded && b@.succeeded == b.succeeded);
    match r {
        Ok(receipt) => {
            content_determines_logs(a, b, decode, Ok::<Vec<L>, String>(receipt.logs));
        },
        Err(text) => {
            if logs_result::<L, D>(a.logs@, decode, Err(text)) {
                content_determines_logs::<L, D>(a, b, decode, Err(text));
            }
        },
    }
}

/// Summaries with the same contents give the same receipts, provided that the decoder of the logs
/// looks at their bytes alone.
pub proof fn content_determines_receipts<
    T,
    L,
    K: Fn(u8) -> Option<T>,
    D: Fn(&Vec<u8>) -> Result<L, String>,
>(
    a: Seq<TxExecutionSummary>,
    b: Seq<TxExecutionSummary>,
    kind_of: K,
    decode: D,
    r: Result<Vec<Receipt<T, L>>, String>,
)
    requires
        summary_contents(a) == summary_contents(b),
        reads_bytes_alone(decode),
        receipts_result(a, kind_of, decode, r),
    ensures
        receipts_result(b, kind_of, decode, r),
{
    assert(a.len() == summary_contents(a).len());
    assert(b.len() == summary_contents(b).len());
    match r {
        Ok(receipts) => {
            content_determines_first_receipts(a, b, kind_of, decode, receipts@);
        },
        Err(text) => {
            let before = choose|before: Seq<Receipt<T, L>>|
                {
                    &&& before.len() < a.len()
                    &&& #[trigger] receipts_match(a, kind_of, decode, before)
                    &&& receipt_result::<T, L, K, D>(
                        a[before.len() as int],
                        capped(total_gas_spent(a.take(before.len() as int + 1))),
                        kind_of,
                        decode,
                        Err(text),
                    )
                };
            let i = before.len() as int;
            content_determines_first_receipts(a, b, kind_of, decode, before);
            content_determines_spent(a, b, i + 1);
            assert(summary_contents(a)[i] == a[i]@ && summary_contents(b)[i] == b[i]@);
            content_determines_receipt::<T, L, K, D>(
                a[i],
                b[i],
                capped(total_gas_spent(a.take(i + 1))),
                kind_of,
                decode,
                Err(text),
            );
        },
    }
}

proof fn content_determines_first_receipts<
    T,
    L,
    K: Fn(u8) -> Option<T>,
    D: Fn(&Vec<u8>) -> Result<L, String>,
>(
    a: Seq<TxExecutionSummary>,
    b: Seq<TxExecutionSummary>,
    kind_of: K,
    decode: D,
    receipts: Seq<Receipt<T, L>>,
)
    requires
        summary_contents(a) == summary_contents(b),
        reads_bytes_alone(decode),
        receipts.len() <= a.len(),
        receipts_match(a, kind_of, decode, receipts),
    ensures
        receipts_match(b, kind_of, decode, receipts),
{
    assert(a.len() == summary_contents(a).len());
    assert(b.len() == summary_contents(b).len());
    assert forall|i: int| 0 <= i < receipts.len() implies receipt_result(
        b[i],
        capped(total_gas_spent(b.take(i + 1))),
        kind_of,
        decode,
        Ok(#[trigger] receipts[i]),
    ) by {
        content_determines_spent(a, b, i + 1);
        assert(summary_contents(a)[i] == a[i]@ && summary_contents(b)[i] == b[i]@);
        content_determines_receipt(
            a[i],
            b[i],
            capped(total_gas_spent(a.take(i + 1))),
            kind_of,
            decode,
            Ok(receipts[i]),
        );
    }
}

proof fn content_determines_spent(
    a: Seq<TxExecutionSummary>,
    b: Seq<TxExecutionSummary>,
    n: int,
)
    requires
        summary_contents(a) == summary_contents(b),
        0 <= n <= a.len(),
    ensures
        total_gas_spent(a.take(n)) == total_gas_spent(b.take(n)),
    decreases n,
{
    assert(a.len() == summary_contents(a).len());
    assert(b.len() == summary_contents(b).len());
    if n > 0 {
        content_determines_spent(a, b, n - 1);
        assert(a.take(n).drop_last() =~= a.take(n - 1));
        assert(b.take(n).drop_last() =~= b.take(n - 1));
        assert(summary_contents(a)[n - 1] == a[n - 1]@ && summary_contents(b)[n - 1] == b[n - 1]@);
        assert(a[n - 1]@.gas_spent == a[n - 1].gas_spent);
        assert(b[n - 1]@.gas_spent == b[n - 1].gas_spent);
    }
}

/// The gas of a block is the same however its transactions are grouped into chunks: regular and
/// state gas of a whole are the sums of those of its parts.
pub proof fn gas_adds_up(a: Seq<TxExecutionSummary>, b: Seq<TxExecutionSummary>)
    ensures
        total_regular_gas(a + b) == total_regular_gas(a) + total_regular_gas(b),
        total_state_gas(a + b) == total_state_gas(a) + total_state_gas(b),
        total_gas_spent(a + b) == total_gas_spent(a) + total_gas_spent(b),
    decreases b.len(),
{
    if b.len() == 0 {
        assert(a + b =~= a);
    } else {
        assert((a + b).drop_last() =~= a + b.drop_last());
        gas_adds_up(a, b.drop_last());
    }
}

/// The gas of a block is never less than its state gas, and never more than the gas that its
/// transactions used if state gas is part of the gas used, up to the largest `u64` in both cases.
pub proof fn block_gas_is_bounded(summaries: Seq<TxExecutionSummary>)
    ensures
        capped(total_state_gas(summaries)) <= block_gas(summaries),
        (forall|i: int|
            0 <= i < summaries.len() ==> (#[trigger] summaries[i]).state_gas_used
                <= summaries[i].gas_used) ==> block_gas(summaries) <= capped(
            total_gas_used(summaries),
        ),
{
    if forall|i: int|
        0 <= i < summaries.len() ==> (#[trigger] summaries[i]).state_gas_used
            <= summaries[i].gas_used {
        used_gas_splits(summaries);
    }
}

proof fn used_gas_splits(summaries: Seq<TxExecutionSummary>)
    requires
        forall|i: int|
            0 <= i < summaries.len() ==> (#[trigger] summaries[i]).state_gas_used
                <= summaries[i].gas_used,
    ensures
        total_regular_gas(summaries) + total_state_gas(summaries) == total_gas_used(summaries),
    decreases summaries.len(),
{
    if summaries.len() > 0 {
        let front = summaries.drop_last();
        assert forall|i: int| 0 <= i < front.len() implies (#[trigger] front[i]).state_gas_used
            <= front[i].gas_used by {
            assert(front[i] == summaries[i]);
        }
        used_gas_splits(front);
        assert(summaries.last() == summaries[summaries.len() - 1]);
    }
}

} // verus!
