//! Capacity of the bounded channels between the engine and a consumer.

use vstd::prelude::*;

verus! {

/// Slots of channel per unit of available parallelism.
pub const SLOTS_PER_CPU: usize = 20;

/// The smallest channel capacity.
pub const MIN_CAPACITY: usize = 88;

/// The channel capacity for a parallelism hint: twenty slots per unit, at
/// least 88, and at most what a `usize` holds.
pub open spec fn capacity_of(parallelism: int) -> int {
    let wanted = if parallelism * 20 > usize::MAX {
        usize::MAX as int
    } else {
        parallelism * 20
    };
    if wanted < 88 {
        88
    } else {
        wanted
    }
}

/// The capacity of the channel that feeds a consumer task.
pub fn channel_capacity(parallelism: usize) -> (r: usize)
    ensures
        r == capacity_of(parallelism as int),
{
    let wanted = if parallelism > usize::MAX / SLOTS_PER_CPU {
        usize::MAX
    } else {
        parallelism * SLOTS_PER_CPU
    };
    if wanted < MIN_CAPACITY {
        MIN_CAPACITY
    } else {
        wanted
    }
}

/// The capacity of a subscription tap into the engine: half the channel's.
pub fn subscription_capacity(parallelism: usize) -> (r: usize)
    ensures
        r == capacity_of(parallelism as int) / 2,
{
    channel_capacity(parallelism) / 2
}

/// Relies on `num_cpus::get`: the number of logical CPUs available to this
/// process, which is at least one.
#[verifier::external_body]
fn available_parallelism() -> (r: usize)
    ensures
        r >= 1,
{
    num_cpus::get()
}

/// The channel capacity for the CPUs available to this process.
pub fn buffer() -> (r: usize)
    ensures
        exists|p: int| p >= 1 && r == capacity_of(p),
        r >= MIN_CAPACITY,
{
    let p = available_parallelism();
    channel_capacity(p)
}

} // verus!
