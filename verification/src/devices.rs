//! Which device notifications wake the poller early.

use vstd::prelude::*;

verus! {

/// `CM_NOTIFY_ACTION_DEVICEINTERFACEARRIVAL`.
pub const ACTION_ARRIVAL: i32 = 0;
/// `CM_NOTIFY_ACTION_DEVICEINTERFACEREMOVAL`.
pub const ACTION_REMOVAL: i32 = 1;

/// Whether a serial-port interface notification is news. Windows also sends query and
/// cancel actions for removals it is still negotiating; only an arrival or a removal that
/// has happened is, and the poller decides what it means.
pub fn is_settled_change(action: i32) -> (settled: bool)
    ensures
        settled == (action == ACTION_ARRIVAL || action == ACTION_REMOVAL),
{
    action == ACTION_ARRIVAL || action == ACTION_REMOVAL
}

} // verus!
