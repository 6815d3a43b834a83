//! The transaction reconciler: from a confirmed transaction to the records it leaves.
use vstd::prelude::*;
use crate::diff::{
    BalanceChange, BalanceChangeView, BalanceSnapshot, balance_changes, changes_view,
    clone_opt_string, diff_balances, opt_view,
};

verus! {

/// Transaction metadata as the node reports it, or its absence.
pub enum TransactionMeta {
    Present {
        fee: u64,
        /// Whether the transaction succeeded on-chain.
        succeeded: bool,
        /// The full metadata as a structured document, when it could be serialised.
        raw_metadata: Option<String>,
        pre_token_balances: Option<Vec<BalanceSnapshot>>,
        post_token_balances: Option<Vec<BalanceSnapshot>>,
    },
    Absent,
}

/// A confirmed transaction as fetched from the node.
pub struct ConfirmedTransaction {
    pub slot: u64,
    pub block_time: Option<i64>,
    pub meta: TransactionMeta,
}

/// The canonical record of one observed transaction.
pub struct TransactionRecord {
    pub signature: String,
    pub slot: u64,
    pub block_time: Option<i64>,
    pub fee: u64,
    pub status: bool,
    pub raw_metadata: Option<String>,
}

pub ghost struct TransactionRecordView {
    pub signature: Seq<char>,
    pub slot: u64,
    pub block_time: Option<i64>,
    pub fee: u64,
    pub status: bool,
    pub raw_metadata: Option<Seq<char>>,
}

impl View for TransactionRecord {
    type V = TransactionRecordView;

    open spec fn view(&self) -> TransactionRecordView {
        TransactionRecordView {
            signature: self.signature@,
            slot: self.slot,
            block_time: self.block_time,
            fee: self.fee,
            status: self.status,
            raw_metadata: opt_view(self.raw_metadata),
        }
    }
}

/// A non-zero net balance change caused by one transaction.
pub struct TokenMovement {
    pub signature: String,
    pub mint: String,
    pub amount: i128,
    pub decimals: u8,
    pub source: Option<String>,
    pub destination: Option<String>,
    pub block_time: Option<i64>,
}

pub ghost struct TokenMovementView {
    pub signature: Seq<char>,
    pub mint: Seq<char>,
    pub amount: int,
    pub decimals: u8,
    pub source: Option<Seq<char>>,
    pub destination: Option<Seq<char>>,
    pub block_time: Option<i64>,
}

impl View for TokenMovement {
    type V = TokenMovementView;

    open spec fn view(&self) -> TokenMovementView {
        TokenMovementView {
            signature: self.signature@,
            mint: self.mint@,
            amount: self.amount as int,
            decimals: self.decimals,
            source: opt_view(self.source),
            destination: opt_view(self.destination),
            block_time: self.block_time,
        }
    }
}

pub open spec fn movements_view(v: Seq<TokenMovement>) -> Seq<TokenMovementView> {
    v.map_values(|m: TokenMovement| m@)
}

/// What reconciling one transaction leaves to persist.
pub struct Reconciliation {
    pub record: TransactionRecord,
    pub movements: Vec<TokenMovement>,
}

/// The movement recorded for a balance change: the post snapshot's owner is the source,
/// and no destination is derived.
pub open spec fn movement_of(
    signature: Seq<char>,
    block_time: Option<i64>,
    c: BalanceChangeView,
) -> TokenMovementView {
    TokenMovementView {
        signature,
        mint: c.mint,
        amount: c.amount,
        decimals: c.decimals,
        source: c.owner,
        destination: None,
        block_time,
    }
}

/// The record a transaction yields; without metadata it is a failed observation with no
/// fee and no metadata document.
pub open spec fn record_of(signature: Seq<char>, tx: ConfirmedTransaction) -> TransactionRecordView {
    match tx.meta {
        TransactionMeta::Present { fee, succeeded, raw_metadata, .. } => TransactionRecordView {
            signature,
            slot: tx.slot,
            block_time: tx.block_time,
            fee,
            status: succeeded,
            raw_metadata: opt_view(raw_metadata),
        },
        TransactionMeta::Absent => TransactionRecordView {
            signature,
            slot: tx.slot,
            block_time: tx.block_time,
            fee: 0,
            status: false,
            raw_metadata: None,
        },
    }
}

/// The movements a transaction yields: one per balance change when both snapshot lists
/// are present, none otherwise.
pub open spec fn movements_of(signature: Seq<char>, tx: ConfirmedTransaction) -> Seq<TokenMovementView> {
    match tx.meta {
        TransactionMeta::Present {
            pre_token_balances: Some(pre),
            post_token_balances: Some(post),
            ..
        } => balance_changes(pre@, post@).map_values(
            |c: BalanceChangeView| movement_of(signature, tx.block_time, c),
        ),
        _ => Seq::empty(),
    }
}

fn movements_from_changes(signature: &String, block_time: Option<i64>, changes: &Vec<BalanceChange>) -> (r: Vec<TokenMovement>)
    ensures
        movements_view(r@) == changes_view(changes@).map_values(
            |c: BalanceChangeView| movement_of(signature@, block_time, c),
        ),
{
    let mut out: Vec<TokenMovement> = Vec::new();
    let mut i: usize = 0;
    while i < changes.len()
        invariant
            i <= changes@.len(),
            out@.len() == i,
            movements_view(out@) == changes_view(changes@.subrange(0, i as int)).map_values(
                |c: BalanceChangeView| movement_of(signature@, block_time, c),
            ),
        decreases changes.len() - i,
    {
        let c = &changes[i];
        let m = TokenMovement {
            signature: signature.clone(),
            mint: c.mint.clone(),
            amount: c.amount,
            decimals: c.decimals,
            source: clone_opt_string(&c.owner),
            destination: None,
            block_time,
        };
        let ghost old_out = out@;
        out.push(m);
        proof {
            let lhs = movements_view(out@);
            let rhs = changes_view(changes@.subrange(0, i as int + 1)).map_values(
                |c: BalanceChangeView| movement_of(signature@, block_time, c),
            );
            assert(lhs.len() == rhs.len());
            assert forall|k: int| 0 <= k < lhs.len() implies lhs[k] == rhs[k] by {
                assert(changes@.subrange(0, i as int + 1)[k] == changes@[k]);
                if k < i {
                    assert(changes@.subrange(0, i as int)[k] == changes@[k]);
                    assert(out@[k] == old_out[k]);
                    assert(movements_view(old_out)[k] == old_out[k]@);
                } else {
                    assert(out@[k] == m);
                }
            }
            assert(lhs =~= rhs);
        }
        i = i + 1;
    }
    assert(changes@.subrange(0, changes@.len() as int) == changes@);
    out
}

/// Reconciles one confirmed transaction: its record (fee, status and metadata from the
/// transaction metadata, or a failed observation without it) and its token movements
/// (the balance diff of the pre and post snapshots, when both are present).
pub fn process_confirmed_transaction(signature: &String, tx: &ConfirmedTransaction) -> (r: Reconciliation)
    ensures
        r.record@ == record_of(signature@, *tx),
        movements_view(r.movements@) == movements_of(signature@, *tx),
{
    let record = match &tx.meta {
        TransactionMeta::Present { fee, succeeded, raw_metadata, .. } => TransactionRecord {
            signature: signature.clone(),
            slot: tx.slot,
            block_time: tx.block_time,
            fee: *fee,
            status: *succeeded,
            raw_metadata: clone_opt_string(raw_metadata),
        },
        TransactionMeta::Absent => TransactionRecord {
            signature: signature.clone(),
            slot: tx.slot,
            block_time: tx.block_time,
            fee: 0,
            status: false,
            raw_metadata: None,
        },
    };
    let movements = match &tx.meta {
        TransactionMeta::Present {
            pre_token_balances: Some(pre),
            post_token_balances: Some(post),
            ..
        } => {
            let changes = diff_balances(pre, post);
            movements_from_changes(signature, tx.block_time, &changes)
        },
        _ => Vec::new(),
    };
    Reconciliation { record, movements }
}

} // verus!
