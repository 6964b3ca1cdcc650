//! Result counters of the checksum-verification tool.

use vstd::prelude::*;

verus! {

/// Counts the outcome of each file checked against its recorded checksum.
#[derive(Debug, Clone, Copy, PartialEq, Eq, Structural)]
pub struct Report {
    pub passed: usize,
    pub failed: usize,
    pub missing: usize,
}

impl Report {
    /// How many files were checked in all.
    pub fn total(&self) -> (n: usize)
        requires
            self.passed + self.failed + self.missing <= usize::MAX,
        ensures
            n == self.passed + self.failed + self.missing,
    {
        self.passed + self.failed + self.missing
    }

    /// The fieldwise sum of two reports.
    pub fn add(self, rhs: Self) -> (r: Self)
        requires
            self.passed + rhs.passed <= usize::MAX,
            self.failed + rhs.failed <= usize::MAX,
            self.missing + rhs.missing <= usize::MAX,
        ensures
            r.passed == self.passed + rhs.passed,
            r.failed == self.failed + rhs.failed,
            r.missing == self.missing + rhs.missing,
    {
        Self {
            passed: self.passed + rhs.passed,
            failed: self.failed + rhs.failed,
            missing: self.missing + rhs.missing,
        }
    }

    /// Adds another report's counts into this one, fieldwise.
    pub fn add_assign(&mut self, rhs: Self)
        requires
            old(self).passed + rhs.passed <= usize::MAX,
            old(self).failed + rhs.failed <= usize::MAX,
            old(self).missing + rhs.missing <= usize::MAX,
        ensures
            final(self).passed == old(self).passed + rhs.passed,
            final(self).failed == old(self).failed + rhs.failed,
            final(self).missing == old(self).missing + rhs.missing,
    {
        self.passed = self.passed + rhs.passed;
        self.failed = self.failed + rhs.failed;
        self.missing = self.missing + rhs.missing;
    }
}

impl Default for Report {
    /// A report with every count at zero.
    fn default() -> (r: Self)
        ensures
            r.passed == 0,
            r.failed == 0,
            r.missing == 0,
    {
        Self { passed: 0, failed: 0, missing: 0 }
    }
}

} // verus!
