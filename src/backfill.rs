//! The backfill walker: the decisions of a paginated walk backward through an account's
//! signature history, one event at a time. The caller performs each action it asks for
//! and hands back what came of it.
use vstd::prelude::*;
use crate::diff::{clone_opt_string, opt_view};

verus! {

/// Number of signatures asked for per page; a shorter page marks the end of the history.
pub const PAGE_LIMIT: usize = 100;

#[derive(Clone, Copy, PartialEq, Eq, Debug, Structural)]
pub enum WalkPhase {
    /// Waiting for the next page of signatures.
    AwaitingPage,
    /// Waiting to learn whether the current signature is already stored.
    CheckingSignature,
    /// Waiting for the current signature's transaction to be fetched and reconciled.
    ResolvingTransaction,
    Halted,
}

/// What the walker asks its caller to do next.
#[derive(Debug)]
pub enum WalkAction {
    /// Fetch up to `limit` signatures older than `before` (the newest when absent).
    FetchPage { before: Option<String>, limit: usize },
    /// Tell whether a transaction with this signature is stored.
    CheckExists(String),
    /// Fetch this signature's transaction and reconcile it.
    FetchTransaction(String),
    Halt,
}

/// What came of the last action.
#[derive(Debug)]
pub enum WalkEvent {
    /// A page of signatures, newest first.
    PageFetched(Vec<String>),
    /// The page could not be fetched.
    PageFailed,
    /// Whether the signature asked about is stored.
    Exists(bool),
    /// The transaction asked for was reconciled, or fetching it failed.
    TransactionSettled,
}

pub ghost enum WalkActionView {
    FetchPage { before: Option<Seq<char>>, limit: int },
    CheckExists(Seq<char>),
    FetchTransaction(Seq<char>),
    Halt,
}

pub ghost enum WalkEventView {
    PageFetched(Seq<Seq<char>>),
    PageFailed,
    Exists(bool),
    TransactionSettled,
}

pub ghost struct WalkerView {
    /// The cursor: the oldest signature dealt with so far.
    pub before: Option<Seq<char>>,
    pub page: Seq<Seq<char>>,
    pub pos: int,
    pub phase: WalkPhase,
}

pub open spec fn strings_view(v: Seq<String>) -> Seq<Seq<char>> {
    v.map_values(|s: String| s@)
}

impl View for WalkAction {
    type V = WalkActionView;

    open spec fn view(&self) -> WalkActionView {
        match self {
            WalkAction::FetchPage { before, limit } => WalkActionView::FetchPage {
                before: opt_view(*before),
                limit: *limit as int,
            },
            WalkAction::CheckExists(s) => WalkActionView::CheckExists(s@),
            WalkAction::FetchTransaction(s) => WalkActionView::FetchTransaction(s@),
            WalkAction::Halt => WalkActionView::Halt,
        }
    }
}

impl View for WalkEvent {
    type V = WalkEventView;

    open spec fn view(&self) -> WalkEventView {
        match self {
            WalkEvent::PageFetched(v) => WalkEventView::PageFetched(strings_view(v@)),
            WalkEvent::PageFailed => WalkEventView::PageFailed,
            WalkEvent::Exists(b) => WalkEventView::Exists(*b),
            WalkEvent::TransactionSettled => WalkEventView::TransactionSettled,
        }
    }
}

pub open spec fn walker_wf(v: WalkerView) -> bool {
    match v.phase {
        WalkPhase::CheckingSignature | WalkPhase::ResolvingTransaction => 0 <= v.pos < v.page.len(),
        _ => true,
    }
}

/// The action a walker state asks for.
pub open spec fn pending_action(v: WalkerView) -> WalkActionView {
    match v.phase {
        WalkPhase::AwaitingPage => WalkActionView::FetchPage { before: v.before, limit: PAGE_LIMIT as int },
        WalkPhase::CheckingSignature => WalkActionView::CheckExists(v.page[v.pos]),
        WalkPhase::ResolvingTransaction => WalkActionView::FetchTransaction(v.page[v.pos]),
        WalkPhase::Halted => WalkActionView::Halt,
    }
}

/// Done with the current signature: the cursor moves to it, and the walk goes on with the
/// next signature of the page, the next page, or halts after a short page.
pub open spec fn advance(v: WalkerView) -> WalkerView {
    let next = v.pos + 1;
    WalkerView {
        before: Some(v.page[v.pos]),
        page: v.page,
        pos: next,
        phase: if next < v.page.len() {
            WalkPhase::CheckingSignature
        } else if v.page.len() < PAGE_LIMIT {
            WalkPhase::Halted
        } else {
            WalkPhase::AwaitingPage
        },
    }
}

/// The state after an event. An event that does not answer the pending action changes
/// nothing.
pub open spec fn next_state(v: WalkerView, e: WalkEventView) -> WalkerView {
    match v.phase {
        WalkPhase::AwaitingPage => match e {
            WalkEventView::PageFetched(sigs) => WalkerView {
                before: v.before,
                page: sigs,
                pos: 0,
                phase: if sigs.len() == 0 { WalkPhase::Halted } else { WalkPhase::CheckingSignature },
            },
            WalkEventView::PageFailed => WalkerView { phase: WalkPhase::Halted, ..v },
            _ => v,
        },
        WalkPhase::CheckingSignature => match e {
            WalkEventView::Exists(true) => advance(v),
            WalkEventView::Exists(false) => WalkerView { phase: WalkPhase::ResolvingTransaction, ..v },
            _ => v,
        },
        WalkPhase::ResolvingTransaction => match e {
            WalkEventView::TransactionSettled => advance(v),
            _ => v,
        },
        WalkPhase::Halted => v,
    }
}

pub struct BackfillWalker {
    before: Option<String>,
    page: Vec<String>,
    pos: usize,
    phase: WalkPhase,
}

impl View for BackfillWalker {
    type V = WalkerView;

    closed spec fn view(&self) -> WalkerView {
        WalkerView {
            before: opt_view(self.before),
            page: strings_view(self.page@),
            pos: self.pos as int,
            phase: self.phase,
        }
    }
}

impl BackfillWalker {
    pub open spec fn wf(&self) -> bool {
        walker_wf(self@)
    }

    /// A walker at the newest end of the history, about to ask for the first page.
    pub fn new() -> (r: BackfillWalker)
        ensures
            r.wf(),
            r@.before is None,
            r@.phase == WalkPhase::AwaitingPage,
            pending_action(r@) == (WalkActionView::FetchPage { before: None, limit: PAGE_LIMIT as int }),
    {
        BackfillWalker { before: None, page: Vec::new(), pos: 0, phase: WalkPhase::AwaitingPage }
    }

    /// The action the walker waits on.
    pub fn pending(&self) -> (r: WalkAction)
        requires
            self.wf(),
        ensures
            r@ == pending_action(self@),
    {
        match self.phase {
            WalkPhase::AwaitingPage => WalkAction::FetchPage {
                before: clone_opt_string(&self.before),
                limit: PAGE_LIMIT,
            },
            WalkPhase::CheckingSignature => WalkAction::CheckExists(self.page[self.pos].clone()),
            WalkPhase::ResolvingTransaction => WalkAction::FetchTransaction(self.page[self.pos].clone()),
            WalkPhase::Halted => WalkAction::Halt,
        }
    }

    /// The cursor: the oldest signature dealt with so far.
    pub fn before(&self) -> (r: &Option<String>)
        ensures
            opt_view(*r) == self@.before,
    {
        &self.before
    }

    pub fn is_halted(&self) -> (r: bool)
        ensures
            r == (self@.phase == WalkPhase::Halted),
    {
        self.phase == WalkPhase::Halted
    }

    fn advance_cursor(&mut self)
        requires
            walker_wf(old(self)@),
            old(self)@.phase == WalkPhase::CheckingSignature || old(self)@.phase == WalkPhase::ResolvingTransaction,
        ensures
            final(self)@ == advance(old(self)@),
            walker_wf(final(self)@),
    {
        assert(strings_view(self.page@).len() == self.page@.len());
        let p = self.pos;
        assert(p < self.page.len());
        self.before = Some(self.page[p].clone());
        self.pos = p + 1;
        self.phase = if self.pos < self.page.len() {
            WalkPhase::CheckingSignature
        } else if self.page.len() < PAGE_LIMIT {
            WalkPhase::Halted
        } else {
            WalkPhase::AwaitingPage
        };
    }

    /// Takes what came of the pending action and returns the next action.
    pub fn step(&mut self, event: WalkEvent) -> (r: WalkAction)
        requires
            old(self).wf(),
        ensures
            final(self).wf(),
            final(self)@ == next_state(old(self)@, event@),
            r@ == pending_action(final(self)@),
    {
        match self.phase {
            WalkPhase::AwaitingPage => match event {
                WalkEvent::PageFetched(sigs) => {
                    self.phase = if sigs.len() == 0 {
                        WalkPhase::Halted
                    } else {
                        WalkPhase::CheckingSignature
                    };
                    self.page = sigs;
                    self.pos = 0;
                },
                WalkEvent::PageFailed => {
                    self.phase = WalkPhase::Halted;
                },
                _ => {},
            },
            WalkPhase::CheckingSignature => match event {
                WalkEvent::Exists(true) => self.advance_cursor(),
                WalkEvent::Exists(false) => {
                    self.phase = WalkPhase::ResolvingTransaction;
                },
                _ => {},
            },
            WalkPhase::ResolvingTransaction => match event {
                WalkEvent::TransactionSettled => self.advance_cursor(),
                _ => {},
            },
            WalkPhase::Halted => {},
        }
        self.pending()
    }
}

/// A signature already stored is not fetched again: the cursor moves past it and the next
/// action is no transaction fetch.
pub proof fn lemma_known_signature_skipped(v: WalkerView)
    requires
        walker_wf(v),
        v.phase == WalkPhase::CheckingSignature,
    ensures
        next_state(v, WalkEventView::Exists(true)).before == Some(v.page[v.pos]),
        !(pending_action(next_state(v, WalkEventView::Exists(true))) is FetchTransaction),
        next_state(v, WalkEventView::Exists(true)).pos == v.pos + 1,
{
}

/// An empty page, or a failed page fetch, ends the walk at once.
pub proof fn lemma_empty_page_halts(v: WalkerView)
    requires
        v.phase == WalkPhase::AwaitingPage,
    ensures
        next_state(v, WalkEventView::PageFetched(Seq::empty())).phase == WalkPhase::Halted,
        next_state(v, WalkEventView::PageFailed).phase == WalkPhase::Halted,
        pending_action(next_state(v, WalkEventView::PageFetched(Seq::empty()))) == WalkActionView::Halt,
{
}

/// Once the last signature of a page is dealt with, the walk halts if the page was shorter
/// than the limit, and otherwise asks for the page older than that signature.
pub proof fn lemma_page_end(v: WalkerView, e: WalkEventView)
    requires
        walker_wf(v),
        v.pos == v.page.len() - 1,
        (v.phase == WalkPhase::CheckingSignature && e == WalkEventView::Exists(true))
            || (v.phase == WalkPhase::ResolvingTransaction && e == WalkEventView::TransactionSettled),
    ensures
        v.page.len() < PAGE_LIMIT ==> next_state(v, e).phase == WalkPhase::Halted,
        v.page.len() >= PAGE_LIMIT ==> pending_action(next_state(v, e)) == (WalkActionView::FetchPage {
            before: Some(v.page.last()),
            limit: PAGE_LIMIT as int,
        }),
{
}

/// Within a page, each signature is either skipped or resolved, then the walk moves on to
/// the next one: the walk never revisits a position.
pub proof fn lemma_progress(v: WalkerView, e: WalkEventView)
    requires
        walker_wf(v),
        v.phase == WalkPhase::CheckingSignature || v.phase == WalkPhase::ResolvingTransaction,
        next_state(v, e).phase != v.phase,
        next_state(v, e).phase != WalkPhase::ResolvingTransaction,
    ensures
        next_state(v, e).pos == v.pos + 1,
        next_state(v, e).page == v.page,
{
}

} // verus!
