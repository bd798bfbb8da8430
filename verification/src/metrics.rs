//! Values that the server exports as metrics.
use vstd::prelude::*;

verus! {

/// The server's uptime in nanoseconds, given the instants (nanoseconds since
/// the Unix epoch) at which it started and at which the uptime is taken; no
/// uptime when the clock reads earlier than the start.
pub fn update_metrics(started_at: u128, now: u128) -> (uptime: Option<u128>)
    ensures
        uptime == if started_at <= now {
            Some((now - started_at) as u128)
        } else {
            None::<u128>
        },
{
    if started_at <= now {
        Some(now - started_at)
    } else {
        None
    }
}

} // verus!
