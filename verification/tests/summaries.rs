use chunked_l1::summary::{
    build_receipts_from_summaries, compute_block_gas_from_summaries, encode_logs, Receipt,
    TxExecutionSummary,
};

#[derive(Clone, Copy, Debug, PartialEq, Eq)]
enum Kind {
    Legacy,
    Blob,
}

fn kind_of(byte: u8) -> Option<Kind> {
    match byte {
        0 => Some(Kind::Legacy),
        3 => Some(Kind::Blob),
        _ => None,
    }
}

fn decode(log: &Vec<u8>) -> Result<u32, String> {
    match log.as_slice() {
        [a, b] => Ok(u32::from(*a) * 256 + u32::from(*b)),
        _ => Err(format!("{} bytes", log.len())),
    }
}

fn encode(log: &u32) -> Vec<u8> {
    vec![(*log / 256) as u8, (*log % 256) as u8]
}

fn summary(tx_type: u8, gas_spent: u64, logs: Vec<Vec<u8>>) -> TxExecutionSummary {
    TxExecutionSummary::new(0, tx_type, true, gas_spent, gas_spent, 0, logs)
}

fn metered(gas_used: u64, state_gas_used: u64) -> TxExecutionSummary {
    TxExecutionSummary::new(0, 0, true, 0, gas_used, state_gas_used, vec![])
}

#[test]
fn receipts_sum_up_the_gas() {
    let summaries = [
        summary(0, 21_000, vec![]),
        summary(3, 30_000, vec![vec![1, 2]]),
        summary(0, 1, vec![]),
    ];
    let receipts = build_receipts_from_summaries(&summaries, &kind_of, &decode).unwrap();
    assert_eq!(
        receipts,
        vec![
            Receipt {
                tx_type: Kind::Legacy,
                succeeded: true,
                cumulative_gas_used: 21_000,
                logs: vec![],
            },
            Receipt {
                tx_type: Kind::Blob,
                succeeded: true,
                cumulative_gas_used: 51_000,
                logs: vec![258],
            },
            Receipt {
                tx_type: Kind::Legacy,
                succeeded: true,
                cumulative_gas_used: 51_001,
                logs: vec![],
            },
        ]
    );
}

#[test]
fn receipts_gas_saturates() {
    let summaries = [summary(0, u64::MAX, vec![]), summary(0, 5, vec![])];
    let receipts = build_receipts_from_summaries(&summaries, &kind_of, &decode).unwrap();
    assert_eq!(receipts[1].cumulative_gas_used, u64::MAX);
}

#[test]
fn receipts_report_the_first_bad_summary() {
    assert_eq!(
        build_receipts_from_summaries(
            &[summary(0, 1, vec![]), summary(9, 1, vec![vec![]]), summary(8, 1, vec![])],
            &kind_of,
            &decode
        ),
        Err("invalid tx type in summary: 9".to_string())
    );
    assert_eq!(
        build_receipts_from_summaries(
            &[summary(0, 1, vec![vec![0, 1], vec![7]]), summary(9, 1, vec![])],
            &kind_of,
            &decode
        ),
        Err("failed to decode summary log: 1 bytes".to_string())
    );
}

#[test]
fn a_receipt_counts_the_gas_even_if_it_fails() {
    let mut cumulative = 10;
    let receipt = summary(9, 5, vec![]).into_receipt(&mut cumulative, &kind_of, &decode);
    assert_eq!(receipt, Err("invalid tx type in summary: 9".to_string()));
    assert_eq!(cumulative, 15);
    let receipt = summary(0, 5, vec![]).into_receipt(&mut cumulative, &kind_of, &decode).unwrap();
    assert_eq!(receipt.cumulative_gas_used, 20);
    assert_eq!(cumulative, 20);
}

#[test]
fn logs_survive_the_summary() {
    let logs = [0_u32, 1, 513];
    let summary = summary(0, 1, encode_logs(&logs, &encode));
    assert_eq!(summary.logs, vec![vec![0, 0], vec![0, 1], vec![2, 1]]);
    assert_eq!(summary.decode_logs(&decode), Ok(logs.to_vec()));
}

#[test]
fn summary_knows_its_transaction_type() {
    assert_eq!(summary(3, 0, vec![]).tx_type(&kind_of), Ok(Kind::Blob));
    assert_eq!(
        summary(255, 0, vec![]).tx_type(&kind_of),
        Err("invalid tx type in summary: 255".to_string())
    );
}

#[test]
fn block_gas_is_the_larger_of_the_two_meters() {
    assert_eq!(compute_block_gas_from_summaries(&[]), 0);
    assert_eq!(compute_block_gas_from_summaries(&[metered(100, 30), metered(50, 10)]), 110);
    assert_eq!(compute_block_gas_from_summaries(&[metered(100, 90), metered(50, 40)]), 130);
    assert_eq!(compute_block_gas_from_summaries(&[metered(10, 40)]), 40);
    assert_eq!(
        compute_block_gas_from_summaries(&[metered(u64::MAX, 0), metered(1, 0)]),
        u64::MAX
    );
}

#[test]
fn block_gas_does_not_depend_on_the_grouping() {
    let all = [metered(100, 90), metered(50, 5), metered(7, 7)];
    assert_eq!(compute_block_gas_from_summaries(&all), 102);
    assert_eq!(
        compute_block_gas_from_summaries(&all[..1]),
        90
    );
    assert_eq!(compute_block_gas_from_summaries(&all[1..]), 45);
}
