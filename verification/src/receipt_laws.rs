//! What receipts and block gas are, of whatever the functions return: transaction by transaction
//! and field by field.

use crate::summary::{
    build_receipts_from_summaries, capped, compute_block_gas_from_summaries, encode_logs,
    log_result, logs_decode, receipt_result, receipts_match, receipts_result, total_gas_spent,
    total_regular_gas, total_state_gas, tx_type_result, Receipt, TxExecutionSummary,
};
use crate::text::decimal;
use vstd::prelude::*;

verus! {

/// Every transaction adds the gas that it spent to the cumulative gas, whether it succeeded or not:
/// the first receipt has the gas of the first transaction, and each further one the gas of the
/// receipt before it and of its own transaction, up to the largest `u64`.
pub proof fn each_receipt_adds_the_gas_of_its_transaction<
    T,
    L,
    K: Fn(u8) -> Option<T>,
    D: Fn(&Vec<u8>) -> Result<L, String>,
>(summaries: &[TxExecutionSummary], kind_of: K, decode: D, receipts: Vec<Receipt<T, L>>, i: int)
    requires
        call_ensures(
            build_receipts_from_summaries::<T, L, K, D>,
            (summaries, &kind_of, &decode),
            Ok(receipts),
        ) || receipts_result(summaries@, kind_of, decode, Ok(receipts)),
        0 <= i < summaries@.len(),
    ensures
        receipts@.len() == summaries@.len(),
        receipts@[0].cumulative_gas_used == summaries@[0].gas_spent,
        i > 0 && receipts@[i - 1].cumulative_gas_used + summaries@[i].gas_spent <= u64::MAX
            ==> receipts@[i].cumulative_gas_used - receipts@[i - 1].cumulative_gas_used
            == summaries@[i].gas_spent,
        i > 0 && receipts@[i - 1].cumulative_gas_used + summaries@[i].gas_spent > u64::MAX
            ==> receipts@[i].cumulative_gas_used == u64::MAX,
{
    let all = summaries@;
    assert(all.take(1).drop_last() =~= Seq::<TxExecutionSummary>::empty());
    assert(all.take(1).last() == all[0]);
    assert(total_gas_spent(all.take(1)) == all[0].gas_spent) by {
        reveal_with_fuel(total_gas_spent, 2);
    }
    assert(receipt_result(
        all[0],
        capped(total_gas_spent(all.take(1))),
        kind_of,
        decode,
        Ok(receipts@[0]),
    ));
    if i > 0 {
        assert(all.take(i + 1).drop_last() =~= all.take(i));
        assert(all.take(i + 1).last() == all[i]);
        assert(receipt_result(
            all[i - 1],
            capped(total_gas_spent(all.take(i))),
            kind_of,
            decode,
            Ok(receipts@[i - 1]),
        ));
        assert(receipt_result(
            all[i],
            capped(total_gas_spent(all.take(i + 1))),
            kind_of,
            decode,
            Ok(receipts@[i]),
        ));
    }
}

/// A receipt has the status of its transaction, the type that the type byte is known by, and the
/// logs of the transaction, all of them, in order, and each as it decodes.
pub proof fn receipts_keep_status_type_and_logs<
    T,
    L,
    K: Fn(u8) -> Option<T>,
    D: Fn(&Vec<u8>) -> Result<L, String>,
>(summaries: &[TxExecutionSummary], kind_of: K, decode: D, receipts: Vec<Receipt<T, L>>, i: int)
    requires
        call_ensures(
            build_receipts_from_summaries::<T, L, K, D>,
            (summaries, &kind_of, &decode),
            Ok(receipts),
        ) || receipts_result(summaries@, kind_of, decode, Ok(receipts)),
        0 <= i < summaries@.len(),
    ensures
        receipts@.len() == summaries@.len(),
        receipts@[i].succeeded == summaries@[i].succeeded,
        call_ensures(kind_of, (summaries@[i].tx_type,), Some(receipts@[i].tx_type)),
        receipts@[i].logs@.len() == summaries@[i].logs@.len(),
        forall|j: int|
            0 <= j < summaries@[i].logs@.len() ==> call_ensures(
                decode,
                (&summaries@[i].logs@[j],),
                Ok(#[trigger] receipts@[i].logs@[j]),
            ),
{
    assert(receipt_result(
        summaries@[i],
        capped(total_gas_spent(summaries@.take(i + 1))),
        kind_of,
        decode,
        Ok(receipts@[i]),
    ));
    assert forall|j: int| 0 <= j < summaries@[i].logs@.len() implies call_ensures(
        decode,
        (&summaries@[i].logs@[j],),
        Ok(#[trigger] receipts@[i].logs@[j]),
    ) by {
        assert(log_result(summaries@[i].logs@[j], decode, Ok(receipts@[i].logs@[j])));
    }
}

/// No receipts come of summaries only if there is one with a type byte that is not known, or with a
/// log that does not decode. The error names the first of these: all summaries before it have a
/// known type and logs that decode, and its own type is looked at before its logs.
pub proof fn receipts_fail_with_a_type_or_a_log<
    T,
    L,
    K: Fn(u8) -> Option<T>,
    D: Fn(&Vec<u8>) -> Result<L, String>,
>(
    summaries: &[TxExecutionSummary],
    kind_of: K,
    decode: D,
    r: Result<Vec<Receipt<T, L>>, String>,
) -> (found: (Seq<Receipt<T, L>>, Seq<L>, T, String))
    requires
        call_ensures(
            build_receipts_from_summaries::<T, L, K, D>,
            (summaries, &kind_of, &decode),
            r,
        ) || receipts_result(summaries@, kind_of, decode, r),
    ensures
        r matches Err(text) ==> {
            let (before, logs, kind, e) = found;
            let i = before.len() as int;
            let j = logs.len() as int;
            &&& i < summaries@.len()
            &&& forall|k: int|
                0 <= k < i ==> call_ensures(
                    kind_of,
                    (summaries@[k].tx_type,),
                    Some((#[trigger] before[k]).tx_type),
                ) && before[k].logs@.len() == summaries@[k].logs@.len()
            &&& forall|k: int, m: int|
                0 <= k < i && 0 <= m < summaries@[k].logs@.len() ==> call_ensures(
                    decode,
                    (&summaries@[k].logs@[m],),
                    Ok(#[trigger] before[k].logs@[m]),
                )
            &&& {
                ||| {
                    &&& call_ensures(kind_of, (summaries@[i].tx_type,), None)
                    &&& text@ == "invalid tx type in summary: "@ + decimal(
                        summaries@[i].tx_type as nat,
                    )
                }
                ||| {
                    &&& call_ensures(kind_of, (summaries@[i].tx_type,), Some(kind))
                    &&& j < summaries@[i].logs@.len()
                    &&& forall|m: int|
                        0 <= m < j ==> call_ensures(
                            decode,
                            (&summaries@[i].logs@[m],),
                            Ok(#[trigger] logs[m]),
                        )
                    &&& call_ensures(decode, (&summaries@[i].logs@[j],), Err(e))
                    &&& text@ == "failed to decode summary log: "@ + e@
                }
            }
        },
        (forall|i: int|
            0 <= i < summaries@.len() ==> !call_ensures(
                kind_of,
                ((#[trigger] summaries@[i]).tx_type,),
                None,
            )) && (forall|i: int, j: int, e: String|
            0 <= i < summaries@.len() && 0 <= j < summaries@[i].logs@.len()
                ==> !#[trigger] call_ensures(
                decode,
                (&summaries@[i].logs@[j],),
                Err::<L, String>(e),
            )) ==> r is Ok,
{
    match r {
        Ok(_) => arbitrary(),
        Err(text) => {
            let before = choose|before: Seq<Receipt<T, L>>|
                {
                    &&& before.len() < summaries@.len()
                    &&& #[trigger] receipts_match(summaries@, kind_of, decode, before)
                    &&& receipt_result::<T, L, K, D>(
                        summaries@[before.len() as int],
                        capped(total_gas_spent(summaries@.take(before.len() as int + 1))),
                        kind_of,
                        decode,
                        Err(text),
                    )
                };
            let i = before.len() as int;
            let summary = summaries@[i];
            assert forall|k: int| 0 <= k < i implies call_ensures(
                kind_of,
                (summaries@[k].tx_type,),
                Some((#[trigger] before[k]).tx_type),
            ) && before[k].logs@.len() == summaries@[k].logs@.len() by {
                one_receipt_keeps_status_type_and_logs(
                    summaries@[k],
                    capped(total_gas_spent(summaries@.take(k + 1))),
                    kind_of,
                    decode,
                    Ok(before[k]),
                );
            }
            assert forall|k: int, m: int|
                0 <= k < i && 0 <= m < summaries@[k].logs@.len() implies call_ensures(
                decode,
                (&summaries@[k].logs@[m],),
                Ok(#[trigger] before[k].logs@[m]),
            ) by {
                one_receipt_keeps_status_type_and_logs(
                    summaries@[k],
                    capped(total_gas_spent(summaries@.take(k + 1))),
                    kind_of,
                    decode,
                    Ok(before[k]),
                );
            }
            if tx_type_result::<T, K>(summary.tx_type, kind_of, Err(text)) {
                (before, Seq::empty(), arbitrary(), text)
            } else {
                let logs = choose|logs: Seq<L>|
                    {
                        &&& logs.len() < summary.logs@.len()
                        &&& #[trigger] logs_decode(summary.logs@, decode, logs)
                        &&& log_result(
                            summary.logs@[logs.len() as int],
                            decode,
                            Err(text@),
                        )
                    };
                let j = logs.len() as int;
                assert(log_result(summary.logs@[j], decode, Err::<L, Seq<char>>(text@)));
                let e = choose|e: String|
                    #[trigger] decode.ensures((&summary.logs@[j],), Err::<L, String>(e)) && text@
                        == "failed to decode summary log: "@ + e@;
                let kind = choose|kind: T|
                    #[trigger] tx_type_result(summary.tx_type, kind_of, Ok::<T, String>(kind));
                assert forall|m: int| 0 <= m < j implies call_ensures(
                    decode,
                    (&summary.logs@[m],),
                    Ok(#[trigger] logs[m]),
                ) by {
                    assert(log_result(summary.logs@[m], decode, Ok(logs[m])));
                }
                (before, logs, kind, e)
            }
        },
    }
}

/// One summary gives the same: the gas that it spent is added first, and its receipt has its
/// status, its type and its logs.
pub proof fn one_receipt_keeps_status_type_and_logs<
    T,
    L,
    K: Fn(u8) -> Option<T>,
    D: Fn(&Vec<u8>) -> Result<L, String>,
>(
    summary: TxExecutionSummary,
    cumulative: u64,
    kind_of: K,
    decode: D,
    r: Result<Receipt<T, L>, String>,
)
    requires
        receipt_result(summary, cumulative, kind_of, decode, r),
    ensures
        r matches Ok(receipt) ==> {
            &&& receipt.succeeded == summary.succeeded
            &&& receipt.cumulative_gas_used == cumulative
            &&& call_ensures(kind_of, (summary.tx_type,), Some(receipt.tx_type))
            &&& receipt.logs@.len() == summary.logs@.len()
            &&& forall|j: int|
                0 <= j < summary.logs@.len() ==> call_ensures(
                    decode,
                    (&summary.logs@[j],),
                    Ok(#[trigger] receipt.logs@[j]),
                )
        },
        r is Err ==> call_ensures(kind_of, (summary.tx_type,), None) || exists|j: int, e: String|
            0 <= j < summary.logs@.len() && #[trigger] call_ensures(
                decode,
                (&summary.logs@[j],),
                Err::<L, String>(e),
            ),
{
    match r {
        Ok(receipt) => {
            assert forall|j: int| 0 <= j < summary.logs@.len() implies call_ensures(
                decode,
                (&summary.logs@[j],),
                Ok(#[trigger] receipt.logs@[j]),
            ) by {
                assert(log_result(summary.logs@[j], decode, Ok(receipt.logs@[j])));
            }
        },
        Err(text) => {
            if !tx_type_result::<T, K>(summary.tx_type, kind_of, Err(text)) {
                let logs = choose|logs: Seq<L>|
                    {
                        &&& logs.len() < summary.logs@.len()
                        &&& #[trigger] logs_decode(summary.logs@, decode, logs)
                        &&& log_result(
                            summary.logs@[logs.len() as int],
                            decode,
                            Err(text@),
                        )
                    };
                let j = logs.len() as int;
                assert(log_result(summary.logs@[j], decode, Err::<L, Seq<char>>(text@)));
                let e = choose|e: String|
                    #[trigger] decode.ensures((&summary.logs@[j],), Err::<L, String>(e)) && text@
                        == "failed to decode summary log: "@ + e@;
                assert(call_ensures(decode, (&summary.logs@[j],), Err::<L, String>(e)));
            }
        },
    }
}

/// Decoding the logs of a summary alone gives all of them in order, each as it decodes, or the
/// error of one of them.
pub proof fn decoded_logs_are_those_of_the_summary<L, D: Fn(&Vec<u8>) -> Result<L, String>>(
    summary: TxExecutionSummary,
    decode: D,
    r: Result<Vec<L>, String>,
)
    requires
        call_ensures(TxExecutionSummary::decode_logs::<L, D>, (&summary, &decode), r),
    ensures
        r matches Ok(logs) ==> {
            &&& logs@.len() == summary.logs@.len()
            &&& forall|j: int|
                0 <= j < summary.logs@.len() ==> call_ensures(
                    decode,
                    (&summary.logs@[j],),
                    Ok(#[trigger] logs@[j]),
                )
        },
        r matches Err(text) ==> exists|j: int, e: String|
            {
                &&& 0 <= j < summary.logs@.len()
                &&& #[trigger] call_ensures(decode, (&summary.logs@[j],), Err::<L, String>(e))
                &&& text@ == "failed to decode summary log: "@ + e@
            },
{
    match r {
        Ok(decoded) => {
            assert forall|j: int| 0 <= j < summary.logs@.len() implies call_ensures(
                decode,
                (&summary.logs@[j],),
                Ok(#[trigger] decoded@[j]),
            ) by {
                assert(log_result(summary.logs@[j], decode, Ok(decoded@[j])));
            }
        },
        Err(text) => {
            let logs = choose|logs: Seq<L>|
                {
                    &&& logs.len() < summary.logs@.len()
                    &&& #[trigger] logs_decode(summary.logs@, decode, logs)
                    &&& log_result(summary.logs@[logs.len() as int], decode, Err(text@))
                };
            let j = logs.len() as int;
            assert(log_result(summary.logs@[j], decode, Err::<L, Seq<char>>(text@)));
            let e = choose|e: String|
                #[trigger] decode.ensures((&summary.logs@[j],), Err::<L, String>(e)) && text@
                    == "failed to decode summary log: "@ + e@;
            assert(call_ensures(decode, (&summary.logs@[j],), Err::<L, String>(e)));
        },
    }
}

/// The type of a summary is the one that its type byte is known by; an unknown byte is named in the
/// error.
pub proof fn type_byte_decides_the_type<T, K: Fn(u8) -> Option<T>>(
    summary: TxExecutionSummary,
    kind_of: K,
    r: Result<T, String>,
)
    requires
        call_ensures(TxExecutionSummary::tx_type::<T, K>, (&summary, &kind_of), r),
    ensures
        match r {
            Ok(kind) => call_ensures(kind_of, (summary.tx_type,), Some(kind)),
            Err(text) => {
                &&& call_ensures(kind_of, (summary.tx_type,), None)
                &&& text@ == "invalid tx type in summary: "@ + decimal(summary.tx_type as nat)
            },
        },
{
}

/// Encoding logs encodes each of them, in order.
pub proof fn every_log_is_encoded<L, E: Fn(&L) -> Vec<u8>>(
    logs: &[L],
    encode: E,
    encoded: Vec<Vec<u8>>,
)
    requires
        call_ensures(encode_logs::<L, E>, (logs, &encode), encoded),
    ensures
        encoded@.len() == logs@.len(),
        forall|i: int|
            0 <= i < logs@.len() ==> call_ensures(encode, (&logs@[i],), #[trigger] encoded@[i]),
{
}

/// A summary holds what it is made of.
pub proof fn summary_holds_its_parts(
    tx_index: u64,
    tx_type: u8,
    succeeded: bool,
    gas_spent: u64,
    gas_used: u64,
    state_gas_used: u64,
    logs: Vec<Vec<u8>>,
    summary: TxExecutionSummary,
)
    requires
        call_ensures(
            TxExecutionSummary::new,
            (tx_index, tx_type, succeeded, gas_spent, gas_used, state_gas_used, logs),
            summary,
        ),
    ensures
        summary.tx_index == tx_index,
        summary.tx_type == tx_type,
        summary.succeeded == succeeded,
        summary.gas_spent == gas_spent,
        summary.gas_used == gas_used,
        summary.state_gas_used == state_gas_used,
        summary.logs == logs,
{
}

/// The gas of a block is the larger one of two sums over all its transactions, failed ones too, up
/// to the largest `u64`: that of the state gas, and that of the gas used beyond the state gas.
pub proof fn block_gas_is_the_larger_sum(summaries: &[TxExecutionSummary], gas: u64)
    requires
        call_ensures(compute_block_gas_from_summaries, (summaries,), gas),
    ensures
        ({
            let state = summaries@.fold_left(
                0int,
                |sum: int, summary: TxExecutionSummary| sum + summary.state_gas_used,
            );
            let regular = summaries@.fold_left(
                0int,
                |sum: int, summary: TxExecutionSummary|
                    if summary.gas_used > summary.state_gas_used {
                        sum + summary.gas_used - summary.state_gas_used
                    } else {
                        sum
                    },
            );
            let larger = if state > regular {
                state
            } else {
                regular
            };
            gas == if larger > u64::MAX {
                u64::MAX as int
            } else {
                larger
            }
        }),
{
    gas_sums_are_folds(summaries@);
}

/// The totals of state gas and of regular gas are sums over all summaries.
pub proof fn gas_sums_are_folds(summaries: Seq<TxExecutionSummary>)
    ensures
        total_state_gas(summaries) == summaries.fold_left(
            0int,
            |sum: int, summary: TxExecutionSummary| sum + summary.state_gas_used,
        ),
        total_regular_gas(summaries) == summaries.fold_left(
            0int,
            |sum: int, summary: TxExecutionSummary|
                if summary.gas_used > summary.state_gas_used {
                    sum + summary.gas_used - summary.state_gas_used
                } else {
                    sum
                },
        ),
    decreases summaries.len(),
{
    reveal_with_fuel(Seq::fold_left, 2);
    if summaries.len() > 0 {
        gas_sums_are_folds(summaries.drop_last());
    }
}

} // verus!
