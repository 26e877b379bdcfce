//! Deadlines on the system counter.

use vstd::prelude::*;

verus! {

/// How many ticks of a counter that runs at `frequency` take at least `timeout_us` microseconds. A
/// counter that states no frequency ticks once per microsecond.
pub open spec fn ticks(timeout_us: int, frequency: int) -> int {
    if frequency == 0 {
        timeout_us
    } else {
        (timeout_us * frequency + 999_999) / 1_000_000
    }
}

/// The counter value at which `timeout_us` microseconds from `now` on have passed.
pub fn deadline(timeout_us: u64, frequency: u64, now: u64) -> (deadline: u64)
    requires
        timeout_us * frequency <= u64::MAX,
    ensures
        deadline == now.wrapping_add(ticks(timeout_us as int, frequency as int) as u64),
        0 <= ticks(timeout_us as int, frequency as int) <= u64::MAX,
{
    let ticks: u64 = if frequency == 0 {
        timeout_us
    } else {
        let product: u64 = timeout_us * frequency;
        proof {
            let p = product as int;
            assert((p + 999_999) / 1_000_000 == p / 1_000_000 + if p % 1_000_000 == 0 {
                0int
            } else {
                1int
            });
        }
        if product % 1_000_000 == 0 {
            product / 1_000_000
        } else {
            product / 1_000_000 + 1
        }
    };
    now.wrapping_add(ticks)
}

/// Whether the counter has reached `deadline`: it is at most half a turn of the counter behind.
pub open spec fn has_passed(deadline: u64, now: u64) -> bool {
    now.wrapping_sub(deadline) < 0x8000_0000_0000_0000
}

/// Whether the counter has reached `deadline`.
pub fn deadline_passed(deadline: u64, now: u64) -> (passed: bool)
    ensures
        passed == has_passed(deadline, now),
{
    now.wrapping_sub(deadline) < 0x8000_0000_0000_0000
}

/// A deadline of less than half a turn of the counter is passed from its last tick on, and not
/// before.
pub proof fn deadline_passes_in_time(start: u64, ticks: u64, elapsed: u64)
    requires
        ticks < 0x8000_0000_0000_0000,
        elapsed < 0x8000_0000_0000_0000,
    ensures
        has_passed(start.wrapping_add(ticks), start.wrapping_add(elapsed)) <==> elapsed >= ticks,
{
}

} // verus!
