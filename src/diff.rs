//! The balance diff engine: net per-mint changes between two token-balance snapshots.
use vstd::prelude::*;
use crate::amount::{amount_of, amount_value};

verus! {

/// One token account's holdings of one mint at a point in time.
pub struct BalanceSnapshot {
    /// Position of the token account in the transaction's account list.
    pub account_index: u8,
    pub mint: String,
    /// Owner address of the token account, when the source reports it.
    pub owner: Option<String>,
    /// Raw, unscaled amount as decimal text.
    pub amount: String,
    pub decimals: u8,
}

/// A non-zero net change of one token account's holdings.
pub struct BalanceChange {
    pub mint: String,
    pub owner: Option<String>,
    pub decimals: u8,
    pub amount: i128,
}

pub ghost struct BalanceChangeView {
    pub mint: Seq<char>,
    pub owner: Option<Seq<char>>,
    pub decimals: u8,
    pub amount: int,
}

pub open spec fn opt_view(o: Option<String>) -> Option<Seq<char>> {
    match o {
        Some(s) => Some(s@),
        None => None,
    }
}

impl View for BalanceChange {
    type V = BalanceChangeView;

    open spec fn view(&self) -> BalanceChangeView {
        BalanceChangeView {
            mint: self.mint@,
            owner: opt_view(self.owner),
            decimals: self.decimals,
            amount: self.amount as int,
        }
    }
}

pub open spec fn changes_view(v: Seq<BalanceChange>) -> Seq<BalanceChangeView> {
    v.map_values(|c: BalanceChange| c@)
}

/// Whether a snapshot holds the given `(account_index, mint)` key.
pub open spec fn same_key(s: BalanceSnapshot, account_index: u8, mint: Seq<char>) -> bool {
    s.account_index == account_index && s.mint@ == mint
}

/// The amount held under a key before the transaction: that of the first snapshot with
/// the key, or zero for an account that had none.
pub open spec fn prior_amount(pre: Seq<BalanceSnapshot>, account_index: u8, mint: Seq<char>) -> int
    decreases pre.len(),
{
    if pre.len() == 0 {
        0
    } else if same_key(pre[0], account_index, mint) {
        amount_value(pre[0].amount@)
    } else {
        prior_amount(pre.drop_first(), account_index, mint)
    }
}

/// Net change of the holdings that a post-transaction snapshot reports.
pub open spec fn net_change(pre: Seq<BalanceSnapshot>, p: BalanceSnapshot) -> int {
    amount_value(p.amount@) - prior_amount(pre, p.account_index, p.mint@)
}

/// The changes between two snapshot lists, one per post snapshot whose net change is
/// non-zero, in the order of `post`.
pub open spec fn balance_changes(
    pre: Seq<BalanceSnapshot>,
    post: Seq<BalanceSnapshot>,
) -> Seq<BalanceChangeView>
    decreases post.len(),
{
    if post.len() == 0 {
        Seq::empty()
    } else {
        let earlier = balance_changes(pre, post.drop_last());
        let p = post.last();
        let n = net_change(pre, p);
        if n != 0 {
            earlier.push(
                BalanceChangeView {
                    mint: p.mint@,
                    owner: opt_view(p.owner),
                    decimals: p.decimals,
                    amount: n,
                },
            )
        } else {
            earlier
        }
    }
}

pub fn clone_opt_string(o: &Option<String>) -> (r: Option<String>)
    ensures
        opt_view(r) == opt_view(*o),
{
    match o {
        Some(s) => Some(s.clone()),
        None => None,
    }
}

proof fn lemma_prior_amount_skip(pre: Seq<BalanceSnapshot>, j: int, account_index: u8, mint: Seq<char>)
    requires
        0 <= j < pre.len(),
        !same_key(pre[j], account_index, mint),
    ensures
        prior_amount(pre.subrange(j, pre.len() as int), account_index, mint)
            == prior_amount(pre.subrange(j + 1, pre.len() as int), account_index, mint),
{
    let s = pre.subrange(j, pre.len() as int);
    assert(s[0] == pre[j]);
    assert(s.drop_first() == pre.subrange(j + 1, pre.len() as int));
}

/// The amount held under a key in `pre`, by the first snapshot with that key.
pub fn find_prior_amount(pre: &Vec<BalanceSnapshot>, account_index: u8, mint: &String) -> (r: i64)
    ensures
        r as int == prior_amount(pre@, account_index, mint@),
{
    let mut j: usize = 0;
    assert(pre@.subrange(0, pre@.len() as int) == pre@);
    while j < pre.len()
        invariant
            j <= pre@.len(),
            prior_amount(pre@, account_index, mint@)
                == prior_amount(pre@.subrange(j as int, pre@.len() as int), account_index, mint@),
        decreases pre.len() - j,
    {
        let p = &pre[j];
        if p.account_index == account_index && p.mint == *mint {
            let ghost s = pre@.subrange(j as int, pre@.len() as int);
            assert(s[0] == pre@[j as int]);
            return amount_of(p.amount.as_str());
        }
        proof {
            lemma_prior_amount_skip(pre@, j as int, account_index, mint@);
        }
        j = j + 1;
    }
    0
}

/// Computes the net per-mint changes from `pre` to `post`: for each post snapshot, its
/// amount minus that of the first pre snapshot with the same account index and mint (zero
/// where there is none), kept only where non-zero. Malformed amounts count as zero.
pub fn diff_balances(pre: &Vec<BalanceSnapshot>, post: &Vec<BalanceSnapshot>) -> (r: Vec<BalanceChange>)
    ensures
        changes_view(r@) == balance_changes(pre@, post@),
{
    let mut out: Vec<BalanceChange> = Vec::new();
    let mut i: usize = 0;
    while i < post.len()
        invariant
            i <= post@.len(),
            changes_view(out@) == balance_changes(pre@, post@.subrange(0, i as int)),
        decreases post.len() - i,
    {
        let p = &post[i];
        let ghost prefix = post@.subrange(0, i as int + 1);
        assert(prefix.drop_last() == post@.subrange(0, i as int));
        assert(prefix.last() == post@[i as int]);
        let after = amount_of(p.amount.as_str());
        let before = find_prior_amount(pre, p.account_index, &p.mint);
        let net = after as i128 - before as i128;
        if net != 0 {
            let change = BalanceChange {
                mint: p.mint.clone(),
                owner: clone_opt_string(&p.owner),
                decimals: p.decimals,
                amount: net,
            };
            out.push(change);
            assert(changes_view(out@) == changes_view(out@.drop_last()).push(change@));
        }
        i = i + 1;
    }
    assert(post@.subrange(0, post@.len() as int) == post@);
    out
}

/// Every change the diff reports is non-zero.
pub proof fn lemma_changes_nonzero(pre: Seq<BalanceSnapshot>, post: Seq<BalanceSnapshot>)
    ensures
        forall|k: int| 0 <= k < balance_changes(pre, post).len()
            ==> (#[trigger] balance_changes(pre, post)[k]).amount != 0,
    decreases post.len(),
{
    if post.len() > 0 {
        lemma_changes_nonzero(pre, post.drop_last());
    }
}

/// No two snapshots of a list share an `(account_index, mint)` key.
pub open spec fn keys_unique(s: Seq<BalanceSnapshot>) -> bool {
    forall|i: int, j: int|
        0 <= i < s.len() && 0 <= j < s.len() && i != j
            ==> !same_key(#[trigger] s[i], (#[trigger] s[j]).account_index, s[j].mint@)
}

proof fn lemma_prior_amount_at(pre: Seq<BalanceSnapshot>, j: int)
    requires
        0 <= j < pre.len(),
        forall|i: int| 0 <= i < j ==> !same_key(#[trigger] pre[i], pre[j].account_index, pre[j].mint@),
    ensures
        prior_amount(pre, pre[j].account_index, pre[j].mint@) == amount_value(pre[j].amount@),
    decreases j,
{
    if j > 0 {
        assert(!same_key(pre[0], pre[j].account_index, pre[j].mint@));
        let rest = pre.drop_first();
        assert(rest[j - 1] == pre[j]);
        assert forall|i: int| 0 <= i < j - 1 implies !same_key(#[trigger] rest[i], rest[j - 1].account_index, rest[j - 1].mint@) by {
            assert(rest[i] == pre[i + 1]);
        }
        lemma_prior_amount_at(rest, j - 1);
    }
}

proof fn lemma_no_change_prefix(pre: Seq<BalanceSnapshot>, m: int)
    requires
        keys_unique(pre),
        0 <= m <= pre.len(),
    ensures
        balance_changes(pre, pre.subrange(0, m)).len() == 0,
    decreases m,
{
    if m > 0 {
        let post = pre.subrange(0, m);
        assert(post.drop_last() == pre.subrange(0, m - 1));
        lemma_no_change_prefix(pre, m - 1);
        assert(post.last() == pre[m - 1]);
        lemma_prior_amount_at(pre, m - 1);
    }
}

/// Diffing a snapshot list against itself yields no change, provided no two of its
/// snapshots share an `(account_index, mint)` key.
pub proof fn lemma_identical_snapshots_no_change(s: Seq<BalanceSnapshot>)
    requires
        keys_unique(s),
    ensures
        balance_changes(s, s).len() == 0,
{
    lemma_no_change_prefix(s, s.len() as int);
    assert(s.subrange(0, s.len() as int) == s);
}

proof fn lemma_prior_amount_unique(pre: Seq<BalanceSnapshot>, account_index: u8, mint: Seq<char>)
    requires
        keys_unique(pre),
    ensures
        forall|j: int| 0 <= j < pre.len() && same_key(#[trigger] pre[j], account_index, mint)
            ==> prior_amount(pre, account_index, mint) == amount_value(pre[j].amount@),
        (forall|j: int| 0 <= j < pre.len() ==> !same_key(#[trigger] pre[j], account_index, mint))
            ==> prior_amount(pre, account_index, mint) == 0,
    decreases pre.len(),
{
    assert forall|j: int| 0 <= j < pre.len() && same_key(#[trigger] pre[j], account_index, mint)
        implies prior_amount(pre, account_index, mint) == amount_value(pre[j].amount@) by {
        assert forall|i: int| 0 <= i < j implies !same_key(#[trigger] pre[i], pre[j].account_index, pre[j].mint@) by {
            assert(!same_key(pre[i], pre[j].account_index, pre[j].mint@));
        }
        lemma_prior_amount_at(pre, j);
    }
    if pre.len() > 0 {
        let rest = pre.drop_first();
        assert forall|i: int, j: int|
            0 <= i < rest.len() && 0 <= j < rest.len() && i != j
            implies !same_key(#[trigger] rest[i], (#[trigger] rest[j]).account_index, rest[j].mint@) by {
            assert(rest[i] == pre[i + 1] && rest[j] == pre[j + 1]);
        }
        lemma_prior_amount_unique(rest, account_index, mint);
        if forall|j: int| 0 <= j < pre.len() ==> !same_key(#[trigger] pre[j], account_index, mint) {
            assert(!same_key(pre[0], account_index, mint));
            assert forall|j: int| 0 <= j < rest.len() implies !same_key(#[trigger] rest[j], account_index, mint) by {
                assert(rest[j] == pre[j + 1]);
            }
        }
    }
}

proof fn lemma_same_prior_amount(a: Seq<BalanceSnapshot>, b: Seq<BalanceSnapshot>, account_index: u8, mint: Seq<char>)
    requires
        keys_unique(a),
        keys_unique(b),
        forall|s: BalanceSnapshot| a.contains(s) <==> b.contains(s),
    ensures
        prior_amount(a, account_index, mint) == prior_amount(b, account_index, mint),
{
    lemma_prior_amount_unique(a, account_index, mint);
    lemma_prior_amount_unique(b, account_index, mint);
    if exists|j: int| 0 <= j < a.len() && same_key(#[trigger] a[j], account_index, mint) {
        let j = choose|j: int| 0 <= j < a.len() && same_key(#[trigger] a[j], account_index, mint);
        assert(a.contains(a[j]));
        let k = choose|k: int| 0 <= k < b.len() && b[k] == a[j];
        assert(same_key(b[k], account_index, mint));
    } else if exists|k: int| 0 <= k < b.len() && same_key(#[trigger] b[k], account_index, mint) {
        let k = choose|k: int| 0 <= k < b.len() && same_key(#[trigger] b[k], account_index, mint);
        assert(b.contains(b[k]));
        let j = choose|j: int| 0 <= j < a.len() && a[j] == b[k];
        assert(same_key(a[j], account_index, mint));
    }
}

/// Where no two snapshots of `pre` share a key, the changes do not depend on the order of
/// `pre`: two such lists holding the same snapshots give the same changes for any `post`.
pub proof fn lemma_pre_order_irrelevant(
    a: Seq<BalanceSnapshot>,
    b: Seq<BalanceSnapshot>,
    post: Seq<BalanceSnapshot>,
)
    requires
        keys_unique(a),
        keys_unique(b),
        forall|s: BalanceSnapshot| a.contains(s) <==> b.contains(s),
    ensures
        balance_changes(a, post) == balance_changes(b, post),
    decreases post.len(),
{
    if post.len() > 0 {
        lemma_pre_order_irrelevant(a, b, post.drop_last());
        lemma_same_prior_amount(a, b, post.last().account_index, post.last().mint@);
    }
}

} // verus!
