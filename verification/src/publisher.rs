//! The publisher: turning the changes of a tick into the batch that is
//! published and kept for replay.

use vstd::prelude::*;
use crate::ident::is_id;
use crate::models::{RepChange, RepDataQueueItem};

verus! {

/// What a batch made from `changes` at `created_at` is, but for the value of
/// its identifier: it holds those changes, that time and that flag, and an
/// identifier of the right shape.
pub open spec fn is_batch_of(
    item: RepDataQueueItem,
    changes: Vec<RepChange>,
    include_team_handle: bool,
    created_at: i64,
) -> bool {
    &&& item.diff == changes
    &&& item.include_team_handle == include_team_handle
    &&& item.created_at == created_at
    &&& item.id matches Some(id) && is_id(id@)
}

/// The batch to publish for `changes`, with a new identifier, or nothing
/// where there are no changes.
pub fn batch(changes: Vec<RepChange>, include_team_handle: bool, created_at: i64) -> (r: Option<
    RepDataQueueItem,
>)
    ensures
        r is None <==> changes@.len() == 0,
        r matches Some(item) ==> is_batch_of(item, changes, include_team_handle, created_at),
{
    if changes.len() == 0 {
        None
    } else {
        let mut item = RepDataQueueItem { id: None, diff: changes, include_team_handle, created_at };
        item.create_id();
        Some(item)
    }
}

} // verus!
