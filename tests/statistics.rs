use op_return_scan::{aggregate, Stats, Transaction, TxOut};

fn tx(id: &str, scripts: &[&str]) -> Transaction {
    Transaction {
        txid: id.to_string(),
        vout: scripts.iter().map(|s| TxOut { scriptpubkey_asm: s.to_string() }).collect(),
    }
}

#[test]
fn smallest_and_largest_are_tracked() {
    let txs = vec![
        tx("t1", &["OP_RETURN 74657374"]),
        tx("t2", &["OP_RETURN 41"]),
        tx("t3", &["OP_RETURN 30313233343536373839"]),
    ];
    let st = aggregate(&txs);
    assert_eq!(st.total_transactions, 3);
    assert_eq!(st.total_op_return, 3);
    assert_eq!(st.smallest_op_return, Some(1));
    assert_eq!(st.smallest_op_return_hex, 2);
    assert_eq!(st.largest_op_return, 10);
    assert_eq!(st.largest_op_return_hex, 20);
    assert_eq!(st.txid, "t3");
    assert_eq!(st.opreturn_ascii, "0123456789");
    assert_eq!(st.opreturn_hex, "30313233343536373839");
}

#[test]
fn single_marker_in_second_transaction() {
    let txs = vec![
        tx("a", &["OP_DUP OP_HASH160"]),
        tx("b", &["OP_0 abcd", "OP_RETURN OP_PUSHBYTES_4 74657374"]),
        tx("c", &[]),
    ];
    let st = aggregate(&txs);
    assert_eq!(st.total_transactions, 3);
    assert_eq!(st.total_op_return, 1);
    assert_eq!(st.smallest_op_return, Some(4));
    assert_eq!(st.smallest_op_return_hex, 8);
    assert_eq!(st.largest_op_return, 4);
    assert_eq!(st.largest_op_return_hex, 8);
    assert_eq!(st.txid, "b");
    assert_eq!(st.opreturn_ascii, "test");
}

#[test]
fn no_transactions_give_empty_stats() {
    let st = aggregate(&Vec::new());
    assert_eq!(st.total_transactions, 0);
    assert_eq!(st.total_op_return, 0);
    assert_eq!(st.smallest_op_return, None);
    assert_eq!(st.largest_op_return, 0);
    assert_eq!(st.txid, "");
}

#[test]
fn empty_payload_is_a_real_smallest() {
    let txs = vec![tx("a", &["OP_RETURN"]), tx("b", &["OP_RETURN 6869"])];
    let st = aggregate(&txs);
    assert_eq!(st.smallest_op_return, Some(0));
    assert_eq!(st.smallest_op_return_hex, 13);
    assert_eq!(st.largest_op_return, 2);
    assert_eq!(st.txid, "b");
}

#[test]
fn equal_lengths_keep_first_exemplar() {
    let txs = vec![tx("a", &["OP_RETURN 6869"]), tx("b", &["OP_RETURN 686a"])];
    let st = aggregate(&txs);
    assert_eq!(st.txid, "a");
    assert_eq!(st.opreturn_hex, "6869");
}

#[test]
fn observe_transaction_reports_payloads() {
    let mut st = Stats::new();
    let found = st.observe_transaction(&tx("x", &["OP_RETURN 74657374", "OP_DUP", "OP_RETURN zz zz"]));
    assert_eq!(
        found,
        vec![
            ("74657374".to_string(), "test".to_string()),
            ("zz".to_string(), "Invalid hex data".to_string()),
        ]
    );
    assert_eq!(st.total_transactions, 1);
    assert_eq!(st.total_op_return, 2);
    assert_eq!(st.largest_op_return, 16);
    assert_eq!(st.smallest_op_return, Some(4));
}

#[test]
fn record_counts_characters() {
    let mut st = Stats::new();
    st.record(&"t".to_string(), &"c3a9".to_string(), &"\u{e9}".to_string());
    assert_eq!(st.smallest_op_return, Some(1));
    assert_eq!(st.largest_op_return, 1);
    assert_eq!(st.largest_op_return_hex, 4);
}
