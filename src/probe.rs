use vstd::prelude::*;

verus! {

/// Seconds between two probes of the card.
pub const PROBE_INTERVAL_SECS: u64 = 60;

/// Consecutive absences after which the PIN is forgotten.
pub const PROBE_FAIL_LIMIT: u32 = 3;

/// The failure count after one probe: reset on presence, one more on absence
/// (held at its maximum).
pub open spec fn next_failures(failures: u32, present: bool) -> u32 {
    if present {
        0
    } else if failures < u32::MAX {
        (failures + 1) as u32
    } else {
        failures
    }
}

/// Whether the probe that leaves `failures` consecutive absences clears the PIN.
pub open spec fn clears_pin(failures: u32) -> bool {
    failures >= PROBE_FAIL_LIMIT
}

/// The liveness prober's state: the number of consecutive probes that did
/// not find the primary card.
pub struct Prober {
    failures: u32,
}

impl Prober {
    pub closed spec fn spec_failures(&self) -> u32 {
        self.failures
    }

    pub fn new() -> (r: Self)
        ensures
            r.spec_failures() == 0,
    {
        Prober { failures: 0 }
    }

    pub fn failures(&self) -> (r: u32)
        ensures
            r == self.spec_failures(),
    {
        self.failures
    }

    /// Record one probe. Returns whether the PIN must be cleared now: on an
    /// absence that makes `PROBE_FAIL_LIMIT` or more in a row.
    pub fn observe(&mut self, present: bool) -> (clear: bool)
        ensures
            final(self).spec_failures() == next_failures(old(self).spec_failures(), present),
            clear == (!present && clears_pin(final(self).spec_failures())),
    {
        if present {
            self.failures = 0;
            false
        } else {
            if self.failures < u32::MAX {
                self.failures = self.failures + 1;
            }
            self.failures >= PROBE_FAIL_LIMIT
        }
    }
}

/// From any state, a presence followed by two absences does not clear the
/// PIN, and a third absence does: the PIN goes on the third consecutive
/// absence, not the second.
pub proof fn lemma_third_absence_clears(failures: u32)
    ensures
        ({
            let f0 = next_failures(failures, true);
            let f1 = next_failures(f0, false);
            let f2 = next_failures(f1, false);
            let f3 = next_failures(f2, false);
            &&& !clears_pin(f1)
            &&& !clears_pin(f2)
            &&& clears_pin(f3)
        }),
{
}

/// A present card never clears the PIN, and resets the count.
pub proof fn lemma_presence_resets(failures: u32)
    ensures
        next_failures(failures, true) == 0,
        !clears_pin(next_failures(failures, true)),
{
}

} // verus!
