//! Result counters of the batch-rename tool.

use vstd::prelude::*;

verus! {

/// Counts what happened to each file considered by a rename pass.
#[derive(Debug, Clone, Copy, PartialEq, Eq, Structural)]
pub struct Report {
    pub renamed: usize,
    pub untouched: usize,
    pub missing: usize,
}

impl Report {
    /// How many files were considered in all.
    pub fn total(&self) -> (n: usize)
        requires
            self.renamed + self.untouched + self.missing <= usize::MAX,
        ensures
            n == self.renamed + self.untouched + self.missing,
    {
        self.renamed + self.untouched + self.missing
    }

    /// The fieldwise sum of two reports.
    pub fn add(self, rhs: Self) -> (r: Self)
        requires
            self.renamed + rhs.renamed <= usize::MAX,
            self.untouched + rhs.untouched <= usize::MAX,
            self.missing + rhs.missing <= usize::MAX,
        ensures
            r.renamed == self.renamed + rhs.renamed,
            r.untouched == self.untouched + rhs.untouched,
            r.missing == self.missing + rhs.missing,
    {
        Self {
            renamed: self.renamed + rhs.renamed,
            untouched: self.untouched + rhs.untouched,
            missing: self.missing + rhs.missing,
        }
    }

    /// Adds another report's counts into this one, fieldwise.
    pub fn add_assign(&mut self, rhs: Self)
        requires
            old(self).renamed + rhs.renamed <= usize::MAX,
            old(self).untouched + rhs.untouched <= usize::MAX,
            old(self).missing + rhs.missing <= usize::MAX,
        ensures
            final(self).renamed == old(self).renamed + rhs.renamed,
            final(self).untouched == old(self).untouched + rhs.untouched,
            final(self).missing == old(self).missing + rhs.missing,
    {
        self.renamed = self.renamed + rhs.renamed;
        self.untouched = self.untouched + rhs.untouched;
        self.missing = self.missing + rhs.missing;
    }
}

impl Default for Report {
    /// A report with every count at zero.
    fn default() -> (r: Self)
        ensures
            r.renamed == 0,
            r.untouched == 0,
            r.missing == 0,
    {
        Self { renamed: 0, untouched: 0, missing: 0 }
    }
}

} // verus!
