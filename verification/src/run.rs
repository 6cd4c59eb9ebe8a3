//! The fallback downloads of a run, one extension after the other, and
//! their tally.

use vstd::prelude::*;
use crate::lookup::{DeclaredModel, UnavailableExtension};

verus! {

/// How the fallback download of one extension ended.
#[derive(Clone, Copy, Debug, PartialEq, Eq, Structural)]
pub enum ItemOutcome {
    /// The asset was fetched.
    Fetched,
    /// The transfer failed.
    FetchFailed,
    /// The item ended before any transfer: its identifier was rejected, or
    /// its record could not be stored.
    NotStarted,
}

/// The status to mark in the ledger after an item has ended, where the item
/// got a record at all.
pub fn ledger_mark(outcome: ItemOutcome) -> (mark: Option<bool>)
    ensures
        mark == match outcome {
            ItemOutcome::Fetched => Some(true),
            ItemOutcome::FetchFailed => Some(false),
            ItemOutcome::NotStarted => None,
        },
{
    match outcome {
        ItemOutcome::Fetched => Some(true),
        ItemOutcome::FetchFailed => Some(false),
        ItemOutcome::NotStarted => None,
    }
}

/// The number of successes among `outcomes`.
pub open spec fn successes(outcomes: Seq<ItemOutcome>) -> nat {
    outcomes.filter(|o: ItemOutcome| o == ItemOutcome::Fetched).len()
}

/// The number of failures among `outcomes`.
pub open spec fn failures(outcomes: Seq<ItemOutcome>) -> nat {
    outcomes.filter(|o: ItemOutcome| o != ItemOutcome::Fetched).len()
}

/// The fallback downloads of a run: the extensions to fetch, one after the
/// other, and how those that ended have ended.
#[derive(Debug)]
pub struct DownloadRun {
    queue: Vec<UnavailableExtension>,
    outcomes: Vec<ItemOutcome>,
}

impl DownloadRun {
    /// The extensions of the run, in order.
    pub closed spec fn queue(self) -> Seq<DeclaredModel> {
        self.queue@.map_values(|u: UnavailableExtension| u@)
    }

    /// The outcomes of the items that have ended, in order.
    pub closed spec fn outcomes(self) -> Seq<ItemOutcome> {
        self.outcomes@
    }

    /// Some item of the run has not ended yet.
    pub open spec fn in_progress(self) -> bool {
        self.outcomes().len() < self.queue().len()
    }

    /// A run over `queue` of which no item has ended.
    pub fn new(queue: Vec<UnavailableExtension>) -> (run: DownloadRun)
        ensures
            run.queue() == queue@.map_values(|u: UnavailableExtension| u@),
            run.outcomes() == Seq::<ItemOutcome>::empty(),
    {
        DownloadRun { queue, outcomes: Vec::new() }
    }

    /// The extension whose download is next, or `None` when all have ended.
    pub fn current(&self) -> (next: Option<&UnavailableExtension>)
        ensures
            next is Some <==> self.in_progress(),
            next matches Some(extension) ==> extension@ == self.queue()[self.outcomes().len() as int],
    {
        let position = self.outcomes.len();
        if position < self.queue.len() {
            Some(&self.queue[position])
        } else {
            None
        }
    }

    /// Records how the current item ended and moves on to the next. A failed
    /// item is counted like any other and does not end the run. A run of
    /// which every item has ended stays as it is.
    pub fn settle(&mut self, outcome: ItemOutcome)
        ensures
            final(self).queue() == old(self).queue(),
            final(self).outcomes() == if old(self).in_progress() {
                old(self).outcomes().push(outcome)
            } else {
                old(self).outcomes()
            },
    {
        if self.outcomes.len() < self.queue.len() {
            self.outcomes.push(outcome);
        }
    }

    /// The number of items that were fetched.
    pub fn succeeded(&self) -> (n: usize)
        ensures
            n == successes(self.outcomes()),
    {
        let ghost fetched = |o: ItemOutcome| o == ItemOutcome::Fetched;
        let mut n: usize = 0;
        let mut i: usize = 0;
        proof {
            reveal(Seq::filter);
        }
        while i < self.outcomes.len()
            invariant
                i <= self.outcomes.len(),
                n <= i,
                fetched == |o: ItemOutcome| o == ItemOutcome::Fetched,
                n == self.outcomes@.take(i as int).filter(fetched).len(),
            decreases self.outcomes.len() - i,
        {
            proof {
                self.outcomes@.take(i as int).lemma_filter_push(self.outcomes@[i as int], fetched);
                assert(self.outcomes@.take(i + 1) =~= self.outcomes@.take(i as int).push(
                    self.outcomes@[i as int],
                ));
            }
            if self.outcomes[i] == ItemOutcome::Fetched {
                n += 1;
            }
            i += 1;
        }
        proof {
            assert(self.outcomes@.take(i as int) =~= self.outcomes@);
        }
        n
    }

    /// The number of items that failed.
    pub fn failed(&self) -> (n: usize)
        ensures
            n == failures(self.outcomes()),
    {
        proof {
            lemma_tally_complete(self.outcomes@);
        }
        self.outcomes.len() - self.succeeded()
    }
}

/// Every item that has ended counts once: as a success or as a failure.
pub proof fn lemma_tally_complete(outcomes: Seq<ItemOutcome>)
    ensures
        successes(outcomes) + failures(outcomes) == outcomes.len(),
    decreases outcomes.len(),
{
    reveal(Seq::filter);
    if outcomes.len() > 0 {
        lemma_tally_complete(outcomes.drop_last());
    }
}

} // verus!
