//! Decisions of the filters sync: when it has to be restarted, and when a
//! change of the filters height is seen.

use vstd::prelude::*;

verus! {

/// How a run of the filters sync ended.
#[derive(Clone, Copy, Debug, PartialEq, Eq, Structural)]
pub enum SyncEnd {
    /// The watch found the scan lagging too far behind the explorer.
    DiscrepancyDetected,
    /// The sync was aborted from outside.
    Aborted,
    /// The sync failed with an error.
    Failed,
    /// The sync finished.
    Finished,
}

/// Whether the connection to the node is dropped so that the sync restarts:
/// after a discrepancy or a failure, not after an abort or a normal end.
pub fn restart_after(end: SyncEnd) -> (res: bool)
    ensures
        res == (end == SyncEnd::DiscrepancyDetected || end == SyncEnd::Failed),
{
    match end {
        SyncEnd::DiscrepancyDetected => true,
        SyncEnd::Aborted => false,
        SyncEnd::Failed => true,
        SyncEnd::Finished => false,
    }
}

/// One poll of the filters height: the new height once it differs from the
/// height seen when polling started.
pub fn filters_height_changed(start: u32, current: u32) -> (res: Option<u32>)
    ensures
        res == if current != start {
            Some(current)
        } else {
            None::<u32>
        },
{
    if current != start {
        Some(current)
    } else {
        None
    }
}

} // verus!
