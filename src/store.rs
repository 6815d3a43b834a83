//! An in-memory store with the persistence semantics the reconciler relies on: at most one
//! record per signature, the first kept, and append-only movements.
use vstd::prelude::*;
use crate::reconcile::{
    Reconciliation, TokenMovement, TokenMovementView, TransactionRecord, TransactionRecordView,
    movements_view,
};

verus! {

pub ghost struct LedgerView {
    pub transactions: Seq<TransactionRecordView>,
    pub movements: Seq<TokenMovementView>,
}

pub open spec fn has_signature(txs: Seq<TransactionRecordView>, signature: Seq<char>) -> bool {
    exists|i: int| 0 <= i < txs.len() && (#[trigger] txs[i]).signature == signature
}

pub open spec fn signatures_unique(txs: Seq<TransactionRecordView>) -> bool {
    forall|i: int, j: int|
        0 <= i < txs.len() && 0 <= j < txs.len() && (#[trigger] txs[i]).signature == (#[trigger] txs[j]).signature
            ==> i == j
}

/// The store after an idempotent insert: unchanged when the signature is already there.
pub open spec fn after_insert_transaction(v: LedgerView, r: TransactionRecordView) -> LedgerView {
    if has_signature(v.transactions, r.signature) {
        v
    } else {
        LedgerView { transactions: v.transactions.push(r), movements: v.movements }
    }
}

pub struct Ledger {
    transactions: Vec<TransactionRecord>,
    movements: Vec<TokenMovement>,
}

impl View for Ledger {
    type V = LedgerView;

    closed spec fn view(&self) -> LedgerView {
        LedgerView {
            transactions: self.transactions@.map_values(|r: TransactionRecord| r@),
            movements: movements_view(self.movements@),
        }
    }
}

impl Ledger {
    pub open spec fn wf(&self) -> bool {
        signatures_unique(self@.transactions)
    }

    pub fn new() -> (r: Ledger)
        ensures
            r.wf(),
            r@.transactions.len() == 0,
            r@.movements.len() == 0,
    {
        let r = Ledger { transactions: Vec::new(), movements: Vec::new() };
        assert(r@.transactions.len() == 0);
        r
    }

    /// Whether a record with this signature is stored.
    pub fn transaction_exists(&self, signature: &String) -> (r: bool)
        ensures
            r == has_signature(self@.transactions, signature@),
    {
        let ghost txs = self@.transactions;
        let mut i: usize = 0;
        while i < self.transactions.len()
            invariant
                i <= self.transactions@.len(),
                txs == self@.transactions,
                forall|k: int| 0 <= k < i ==> (#[trigger] txs[k]).signature != signature@,
            decreases self.transactions.len() - i,
        {
            if self.transactions[i].signature == *signature {
                assert(txs[i as int] == self.transactions@[i as int]@);
                return true;
            }
            assert(txs[i as int] == self.transactions@[i as int]@);
            i = i + 1;
        }
        false
    }

    /// Stores a record unless one with its signature is already stored, in which case the
    /// store is left unchanged. Returns whether the record was stored.
    pub fn insert_transaction(&mut self, record: TransactionRecord) -> (r: bool)
        requires
            old(self).wf(),
        ensures
            final(self).wf(),
            final(self)@ == after_insert_transaction(old(self)@, record@),
            r == !has_signature(old(self)@.transactions, record@.signature),
    {
        if self.transaction_exists(&record.signature) {
            false
        } else {
            let ghost before = self@;
            let ghost rv = record@;
            self.transactions.push(record);
            proof {
                let txs = self@.transactions;
                assert(txs =~= before.transactions.push(rv));
                lemma_push_keeps_unique(before.transactions, rv);
            }
            true
        }
    }

    /// Appends a movement.
    pub fn insert_movement(&mut self, movement: TokenMovement)
        requires
            old(self).wf(),
        ensures
            final(self).wf(),
            final(self)@ == (LedgerView {
                transactions: old(self)@.transactions,
                movements: old(self)@.movements.push(movement@),
            }),
    {
        let ghost before = self@;
        let ghost mv = movement@;
        self.movements.push(movement);
        assert(self@.movements =~= before.movements.push(mv));
        assert(self@.transactions =~= before.transactions);
    }

    /// Persists a reconciliation: its record idempotently, then each of its movements.
    pub fn persist(&mut self, reconciliation: Reconciliation)
        requires
            old(self).wf(),
        ensures
            final(self).wf(),
            final(self)@.transactions == after_insert_transaction(old(self)@, reconciliation.record@).transactions,
            final(self)@.movements == old(self)@.movements + movements_view(reconciliation.movements@),
    {
        let Reconciliation { record, movements } = reconciliation;
        let ghost mid_movements = self@.movements;
        self.insert_transaction(record);
        let ghost start = self@;
        let mut rest = movements;
        let ghost all = rest@;
        assert(all.subrange(0, all.len() as int) == all);
        let mut i: usize = 0;
        let n = rest.len();
        while i < n
            invariant
                self.wf(),
                n == all.len(),
                i <= n,
                rest@ == all.subrange(i as int, n as int),
                self@.transactions == start.transactions,
                self@.movements == start.movements + movements_view(all.subrange(0, i as int)),
            decreases n - i,
        {
            let m = rest.remove(0);
            assert(m == all[i as int]);
            assert(rest@ =~= all.subrange(i as int + 1, n as int));
            self.insert_movement(m);
            assert(all.subrange(0, i as int + 1) == all.subrange(0, i as int).push(all[i as int]));
            assert(movements_view(all.subrange(0, i as int + 1))
                =~= movements_view(all.subrange(0, i as int)).push(all[i as int]@));
            assert(self@.movements =~= start.movements + movements_view(all.subrange(0, i as int + 1)));
            i = i + 1;
        }
        assert(all.subrange(0, n as int) == all);
        assert(start.movements == mid_movements);
    }

    /// The stored records, in order of insertion.
    pub fn transactions(&self) -> (r: &Vec<TransactionRecord>)
        ensures
            r@.map_values(|t: TransactionRecord| t@) == self@.transactions,
    {
        &self.transactions
    }

    /// The stored movements, in order of insertion.
    pub fn movements(&self) -> (r: &Vec<TokenMovement>)
        ensures
            movements_view(r@) == self@.movements,
    {
        &self.movements
    }
}

proof fn lemma_push_keeps_unique(txs: Seq<TransactionRecordView>, r: TransactionRecordView)
    requires
        signatures_unique(txs),
        !has_signature(txs, r.signature),
    ensures
        signatures_unique(txs.push(r)),
{
    let t = txs.push(r);
    assert forall|i: int, j: int|
        0 <= i < t.len() && 0 <= j < t.len() && (#[trigger] t[i]).signature == (#[trigger] t[j]).signature
        implies i == j by {
        if i < txs.len() && j < txs.len() {
            assert(t[i] == txs[i] && t[j] == txs[j]);
        } else if i < txs.len() {
            assert(t[i] == txs[i]);
        } else if j < txs.len() {
            assert(t[j] == txs[j]);
        }
    }
}

/// Inserting two records with the same signature into a store that lacks it leaves
/// exactly one record with that signature: the first one.
pub proof fn lemma_insert_transaction_idempotent(
    v: LedgerView,
    first: TransactionRecordView,
    second: TransactionRecordView,
)
    requires
        signatures_unique(v.transactions),
        !has_signature(v.transactions, first.signature),
        first.signature == second.signature,
    ensures
        after_insert_transaction(after_insert_transaction(v, first), second)
            == after_insert_transaction(v, first),
        after_insert_transaction(v, first).transactions == v.transactions.push(first),
        signatures_unique(after_insert_transaction(v, first).transactions),
        forall|i: int| 0 <= i < after_insert_transaction(v, first).transactions.len()
            && (#[trigger] after_insert_transaction(v, first).transactions[i]).signature == first.signature
            ==> after_insert_transaction(v, first).transactions[i] == first,
{
    let w = after_insert_transaction(v, first);
    let last = v.transactions.len() as int;
    assert(w.transactions[last] == first);
    assert(has_signature(w.transactions, second.signature));
    lemma_push_keeps_unique(v.transactions, first);
}

} // verus!
