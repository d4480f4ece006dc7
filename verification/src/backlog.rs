//! The backlog: published batches kept in the order of their creation time,
//! for replay to a consumer that was away.

use vstd::prelude::*;
use crate::models::{RepChange, RepDataQueueItem};
use crate::ranking::{insert_ranked, ordered, place_for, sort_ranked, sorted_of, stably_sorted};

verus! {

/// Batches ordered by creation time, oldest first. Batches of the same time
/// stay in the order in which they were appended.
pub struct Backlog {
    entries: Vec<RepDataQueueItem>,
}

impl View for Backlog {
    type V = Seq<RepDataQueueItem>;

    closed spec fn view(&self) -> Seq<RepDataQueueItem> {
        self.entries@
    }
}

/// How many batches are replayed at most when a consumer starts.
pub const MAX_BACKLOG: usize = 1000;

/// The smaller of a bound and a length.
pub open spec fn bounded(bound: int, len: int) -> int {
    if bound < len {
        bound
    } else {
        len
    }
}

impl Backlog {
    #[verifier::type_invariant]
    closed spec fn in_time_order(self) -> bool {
        ordered(self.entries@)
    }

    /// An empty backlog.
    pub fn new() -> (backlog: Backlog)
        ensures
            backlog@.len() == 0,
    {
        Backlog { entries: Vec::new() }
    }

    /// The backlog of `items`: sorted by creation time, stably.
    pub fn from_items(items: Vec<RepDataQueueItem>) -> (backlog: Backlog)
        ensures
            backlog@ == sorted_of(items@),
            stably_sorted(items@, backlog@),
    {
        Backlog { entries: sort_ranked(items) }
    }

    /// The number of batches.
    pub fn len(&self) -> (n: usize)
        ensures
            n == self@.len(),
    {
        self.entries.len()
    }

    /// Adds a batch, behind every batch that is not younger than it.
    pub fn append(&mut self, item: RepDataQueueItem)
        ensures
            final(self)@ == old(self)@.insert(place_for(old(self)@, item.created_at as int), item),
            ordered(final(self)@),
    {
        proof {
            use_type_invariant(&*self);
        }
        let mut entries: Vec<RepDataQueueItem> = Vec::new();
        core::mem::swap(&mut self.entries, &mut entries);
        insert_ranked(&mut entries, item);
        self.entries = entries;
    }

    /// The batches to replay: at most `bound` of them, the oldest first.
    /// Batches beyond the bound are not replayed.
    pub fn oldest(self, bound: usize) -> (batch: Vec<RepDataQueueItem>)
        ensures
            batch@ == self@.take(bounded(bound as int, self@.len() as int)),
            ordered(batch@),
    {
        proof {
            use_type_invariant(&self);
        }
        let mut batch = self.entries;
        if bound < batch.len() {
            batch.truncate(bound);
        }
        assert(batch@ =~= self@.take(bounded(bound as int, self@.len() as int)));
        batch
    }
}

/// The changes of a batch in the order of their delivery: by the rank of the
/// participant, stably. The rank is that of the side after, or of the side
/// before where the side after is the sentinel.
pub fn delivery_order(item: RepDataQueueItem) -> (changes: Vec<RepChange>)
    ensures
        changes@ == sorted_of(item.diff@),
        stably_sorted(item.diff@, changes@),
{
    sort_ranked(item.diff)
}

} // verus!
