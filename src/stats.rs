use vstd::prelude::*;
use crate::payload::{extract_op_return_data, is_marker_script, payload_of, starts_with_marker};

verus! {

/// One output of a transaction: its script in assembly-like text.
pub struct TxOut {
    pub scriptpubkey_asm: String,
}

/// A transaction: its identifier and its outputs, in order.
pub struct Transaction {
    pub txid: String,
    pub vout: Vec<TxOut>,
}

/// The statistics of a block's marker scripts.
pub struct Stats {
    pub total_transactions: usize,
    pub total_op_return: usize,
    /// Decoded length of the smallest payload, once one has been seen.
    pub smallest_op_return: Option<usize>,
    pub smallest_op_return_hex: usize,
    pub largest_op_return: usize,
    pub largest_op_return_hex: usize,
    /// The transaction holding the largest payload, and that payload.
    pub txid: String,
    pub opreturn_ascii: String,
    pub opreturn_hex: String,
}

/// The mathematical content of `Stats`.
pub struct StatsModel {
    pub total_transactions: nat,
    pub total_op_return: nat,
    /// (decoded length, encoded length) of the smallest payload.
    pub smallest: Option<(nat, nat)>,
    pub largest: nat,
    pub largest_hex: nat,
    pub txid: Seq<char>,
    pub ascii: Seq<char>,
    pub hex: Seq<char>,
}

impl View for Stats {
    type V = StatsModel;

    open spec fn view(&self) -> StatsModel {
        StatsModel {
            total_transactions: self.total_transactions as nat,
            total_op_return: self.total_op_return as nat,
            smallest: match self.smallest_op_return {
                Some(n) => Some((n as nat, self.smallest_op_return_hex as nat)),
                None => None,
            },
            largest: self.largest_op_return as nat,
            largest_hex: self.largest_op_return_hex as nat,
            txid: self.txid@,
            ascii: self.opreturn_ascii@,
            hex: self.opreturn_hex@,
        }
    }
}

/// Statistics before anything has been seen.
pub open spec fn empty_stats() -> StatsModel {
    StatsModel {
        total_transactions: 0,
        total_op_return: 0,
        smallest: None,
        largest: 0,
        largest_hex: 0,
        txid: Seq::empty(),
        ascii: Seq::empty(),
        hex: Seq::empty(),
    }
}

/// Folds one marker occurrence into the statistics: the smallest is replaced
/// when none is set or the new payload is strictly shorter, the largest (and
/// its exemplar) when the new payload is strictly longer.
pub open spec fn record_spec(m: StatsModel, txid: Seq<char>, hex: Seq<char>, ascii: Seq<char>) -> StatsModel {
    let n = ascii.len();
    let h = hex.len();
    let replaces_smallest = match m.smallest {
        None => true,
        Some(sm) => n < sm.0,
    };
    let replaces_largest = n > m.largest;
    StatsModel {
        total_transactions: m.total_transactions,
        total_op_return: m.total_op_return + 1,
        smallest: if replaces_smallest { Some((n, h)) } else { m.smallest },
        largest: if replaces_largest { n } else { m.largest },
        largest_hex: if replaces_largest { h } else { m.largest_hex },
        txid: if replaces_largest { txid } else { m.txid },
        ascii: if replaces_largest { ascii } else { m.ascii },
        hex: if replaces_largest { hex } else { m.hex },
    }
}

/// The script texts of a transaction's outputs.
pub open spec fn scripts_of(tx: Transaction) -> Seq<Seq<char>> {
    tx.vout@.map_values(|o: TxOut| o.scriptpubkey_asm@)
}

/// Folds the marker scripts among `scripts`, in order, into `m`.
pub open spec fn observe_scripts(m: StatsModel, txid: Seq<char>, scripts: Seq<Seq<char>>) -> StatsModel
    decreases scripts.len(),
{
    if scripts.len() == 0 {
        m
    } else {
        let prev = observe_scripts(m, txid, scripts.drop_last());
        let s = scripts.last();
        if starts_with_marker(s) {
            record_spec(prev, txid, payload_of(s).0, payload_of(s).1)
        } else {
            prev
        }
    }
}

/// The (encoded, decoded) payloads of the marker scripts among `scripts`, in order.
pub open spec fn marker_payloads(scripts: Seq<Seq<char>>) -> Seq<(Seq<char>, Seq<char>)>
    decreases scripts.len(),
{
    if scripts.len() == 0 {
        Seq::empty()
    } else {
        let prev = marker_payloads(scripts.drop_last());
        if starts_with_marker(scripts.last()) {
            prev.push(payload_of(scripts.last()))
        } else {
            prev
        }
    }
}

/// The views of a list of payload pairs.
pub open spec fn pair_views(v: Seq<(String, String)>) -> Seq<(Seq<char>, Seq<char>)> {
    v.map_values(|p: (String, String)| (p.0@, p.1@))
}

/// Folds one transaction into `m`: it is counted, then its outputs are scanned.
pub open spec fn observe_tx_spec(m: StatsModel, tx: Transaction) -> StatsModel {
    observe_scripts(
        StatsModel { total_transactions: m.total_transactions + 1, ..m },
        tx.txid@,
        scripts_of(tx),
    )
}

/// Folds the transactions, in order, into `m`.
pub open spec fn observe_txs(m: StatsModel, txs: Seq<Transaction>) -> StatsModel
    decreases txs.len(),
{
    if txs.len() == 0 {
        m
    } else {
        observe_tx_spec(observe_txs(m, txs.drop_last()), txs.last())
    }
}

/// The statistics of a block's transactions.
pub open spec fn block_stats(txs: Seq<Transaction>) -> StatsModel {
    observe_txs(empty_stats(), txs)
}

/// The number of outputs over all the transactions.
pub open spec fn output_count(txs: Seq<Transaction>) -> nat
    decreases txs.len(),
{
    if txs.len() == 0 {
        0
    } else {
        output_count(txs.drop_last()) + txs.last().vout@.len()
    }
}

proof fn lemma_output_count_prefix(txs: Seq<Transaction>, i: int)
    requires
        0 <= i <= txs.len(),
    ensures
        output_count(txs.take(i)) <= output_count(txs),
    decreases txs.len(),
{
    if i < txs.len() {
        lemma_output_count_prefix(txs.drop_last(), i);
        assert(txs.drop_last().take(i) =~= txs.take(i));
    } else {
        assert(txs.take(i) =~= txs);
    }
}

proof fn lemma_observe_scripts_count(m: StatsModel, txid: Seq<char>, scripts: Seq<Seq<char>>)
    ensures
        observe_scripts(m, txid, scripts).total_op_return <= m.total_op_return + scripts.len(),
        observe_scripts(m, txid, scripts).total_transactions == m.total_transactions,
    decreases scripts.len(),
{
    if scripts.len() > 0 {
        lemma_observe_scripts_count(m, txid, scripts.drop_last());
    }
}

impl Stats {
    /// Statistics before anything has been seen.
    pub fn new() -> (r: Stats)
        ensures
            r@ == empty_stats(),
    {
        Stats {
            total_transactions: 0,
            total_op_return: 0,
            smallest_op_return: None,
            smallest_op_return_hex: 0,
            largest_op_return: 0,
            largest_op_return_hex: 0,
            txid: String::new(),
            opreturn_ascii: String::new(),
            opreturn_hex: String::new(),
        }
    }

    /// Folds one marker occurrence of transaction `txid` into the statistics.
    pub fn record(&mut self, txid: &String, hex: &String, ascii: &String)
        requires
            old(self).total_op_return < usize::MAX,
        ensures
            final(self)@ == record_spec(old(self)@, txid@, hex@, ascii@),
    {
        let n = ascii.as_str().unicode_len();
        let h = hex.as_str().unicode_len();
        self.total_op_return = self.total_op_return + 1;
        let replaces_smallest = match self.smallest_op_return {
            None => true,
            Some(sm) => n < sm,
        };
        if replaces_smallest {
            self.smallest_op_return = Some(n);
            self.smallest_op_return_hex = h;
        }
        if n > self.largest_op_return {
            self.largest_op_return = n;
            self.largest_op_return_hex = h;
            self.txid = txid.clone();
            self.opreturn_ascii = ascii.clone();
            self.opreturn_hex = hex.clone();
        }
    }

    /// Counts one transaction and folds each of its marker scripts, in order.
    /// Returns the (encoded, decoded) payload of each marker script found.
    pub fn observe_transaction(&mut self, tx: &Transaction) -> (found: Vec<(String, String)>)
        requires
            old(self).total_transactions < usize::MAX,
            old(self).total_op_return + tx.vout@.len() <= usize::MAX,
        ensures
            final(self)@ == observe_tx_spec(old(self)@, *tx),
            pair_views(found@) == marker_payloads(scripts_of(*tx)),
    {
        let ghost start = self@;
        let ghost scripts = scripts_of(*tx);
        self.total_transactions = self.total_transactions + 1;
        let ghost counted = self@;
        assert(counted == StatsModel { total_transactions: start.total_transactions + 1, ..start });
        let mut found: Vec<(String, String)> = Vec::new();
        let mut j: usize = 0;
        while j < tx.vout.len()
            invariant
                j <= tx.vout@.len(),
                scripts == scripts_of(*tx),
                self@ == observe_scripts(counted, tx.txid@, scripts.take(j as int)),
                self.total_op_return <= start.total_op_return + j,
                start.total_op_return + tx.vout@.len() <= usize::MAX,
                pair_views(found@) == marker_payloads(scripts.take(j as int)),
            decreases tx.vout@.len() - j,
        {
            let script = &tx.vout[j].scriptpubkey_asm;
            assert(scripts.take(j + 1).drop_last() =~= scripts.take(j as int));
            assert(scripts.take(j + 1).last() == script@);
            if is_marker_script(script.as_str()) {
                let (hex, ascii) = extract_op_return_data(script.as_str());
                self.record(&tx.txid, &hex, &ascii);
                let ghost before = found@;
                found.push((hex, ascii));
                assert(pair_views(found@) =~= pair_views(before).push(payload_of(script@)));
            }
            j = j + 1;
        }
        assert(scripts.take(j as int) =~= scripts);
        found
    }
}

/// Scans the transactions in order and returns the statistics of their
/// marker scripts.
pub fn aggregate(txs: &Vec<Transaction>) -> (r: Stats)
    requires
        output_count(txs@) <= usize::MAX,
    ensures
        r@ == block_stats(txs@),
{
    let mut st = Stats::new();
    let mut i: usize = 0;
    while i < txs.len()
        invariant
            i <= txs@.len(),
            st@ == observe_txs(empty_stats(), txs@.take(i as int)),
            st.total_transactions == i,
            st.total_op_return <= output_count(txs@.take(i as int)),
            output_count(txs@) <= usize::MAX,
        decreases txs@.len() - i,
    {
        proof {
            let next = txs@.take(i + 1);
            assert(next.drop_last() =~= txs@.take(i as int));
            lemma_output_count_prefix(txs@, i + 1);
            lemma_observe_scripts_count(
                StatsModel { total_transactions: st@.total_transactions + 1, ..st@ },
                txs@[i as int].txid@,
                scripts_of(txs@[i as int]),
            );
        }
        st.observe_transaction(&txs[i]);
        i = i + 1;
    }
    assert(txs@.take(i as int) =~= txs@);
    st
}

} // verus!
