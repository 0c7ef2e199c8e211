use op_return_scan::{is_end_body, PageOutcome, Pager, Transaction, TxOut, PAGE_SIZE};

fn tx(id: &str) -> Transaction {
    Transaction {
        txid: id.to_string(),
        vout: vec![TxOut { scriptpubkey_asm: "OP_DUP".to_string() }],
    }
}

fn page(ids: &[&str]) -> Vec<Transaction> {
    ids.iter().map(|i| tx(i)).collect()
}

fn ids(p: &Pager) -> Vec<String> {
    p.transactions.iter().map(|t| t.txid.clone()).collect()
}

#[test]
fn identical_pages_accumulate_in_order() {
    let mut p = Pager::new();
    let mut offsets: Vec<usize> = Vec::new();
    for _ in 0..3 {
        offsets.push(p.offset);
        assert_eq!(p.on_page("[...]", Some(page(&["a", "b"]))), PageOutcome::Appended);
    }
    assert_eq!(offsets, vec![0, 25, 50]);
    assert_eq!(p.on_page("", None), PageOutcome::Blank);
    assert!(p.finished);
    assert_eq!(p.offset, 3 * PAGE_SIZE);
    assert_eq!(ids(&p), vec!["a", "b", "a", "b", "a", "b"]);
    p.on_page("[...]", Some(page(&["c"])));
    assert_eq!(p.transactions.len(), 6);
}

#[test]
fn not_found_body_ends_pagination() {
    let mut p = Pager::new();
    p.on_page("[...]", Some(page(&["a"])));
    assert_eq!(p.on_page("Block not found", None), PageOutcome::NotFound);
    assert!(p.finished);
    assert_eq!(ids(&p), vec!["a"]);
}

#[test]
fn unparsed_body_ends_pagination() {
    let mut p = Pager::new();
    assert_eq!(p.on_page("<html>error</html>", None), PageOutcome::Unparsed);
    assert!(p.finished);
    assert!(p.transactions.is_empty());
    assert_eq!(p.offset, 0);
}

#[test]
fn empty_list_ends_pagination() {
    let mut p = Pager::new();
    assert_eq!(p.on_page("[]", Some(Vec::new())), PageOutcome::NoTransactions);
    assert!(p.finished);
}

#[test]
fn end_bodies_are_recognised() {
    assert_eq!(is_end_body(""), Some(PageOutcome::Blank));
    assert_eq!(is_end_body(" \n\t "), Some(PageOutcome::Blank));
    assert_eq!(is_end_body("Block not found"), Some(PageOutcome::NotFound));
    assert_eq!(is_end_body("Block not found!"), None);
    assert_eq!(is_end_body("[]"), None);
}
