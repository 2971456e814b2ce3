//! Run-level counters: one per processing outcome, incremented exactly once
//! per input file and read once at the end of the run for the summary.

use vstd::prelude::*;

verus! {

/// Counters for the four per-file outcomes of a run.
pub struct Stats {
    pub processed: u64,
    pub duplicates: u64,
    pub errors: u64,
    pub renamed: u64,
}

impl Stats {
    /// All counters start at zero.
    pub fn new() -> (s: Stats)
        ensures
            s.processed == 0,
            s.duplicates == 0,
            s.errors == 0,
            s.renamed == 0,
    {
        Stats { processed: 0, duplicates: 0, errors: 0, renamed: 0 }
    }

    /// Counts a file that was moved without conflict.
    pub fn inc_processed(&mut self)
        requires
            old(self).processed < u64::MAX,
        ensures
            final(self).processed == old(self).processed + 1,
            final(self).duplicates == old(self).duplicates,
            final(self).errors == old(self).errors,
            final(self).renamed == old(self).renamed,
    {
        self.processed = self.processed + 1;
    }

    /// Counts a byte-identical duplicate that was skipped.
    pub fn inc_duplicates(&mut self)
        requires
            old(self).duplicates < u64::MAX,
        ensures
            final(self).duplicates == old(self).duplicates + 1,
            final(self).processed == old(self).processed,
            final(self).errors == old(self).errors,
            final(self).renamed == old(self).renamed,
    {
        self.duplicates = self.duplicates + 1;
    }

    /// Counts a file whose processing failed.
    pub fn inc_errors(&mut self)
        requires
            old(self).errors < u64::MAX,
        ensures
            final(self).errors == old(self).errors + 1,
            final(self).processed == old(self).processed,
            final(self).duplicates == old(self).duplicates,
            final(self).renamed == old(self).renamed,
    {
        self.errors = self.errors + 1;
    }

    /// Counts a file placed under a hash-derived name after a collision.
    pub fn inc_renamed(&mut self)
        requires
            old(self).renamed < u64::MAX,
        ensures
            final(self).renamed == old(self).renamed + 1,
            final(self).processed == old(self).processed,
            final(self).duplicates == old(self).duplicates,
            final(self).errors == old(self).errors,
    {
        self.renamed = self.renamed + 1;
    }
}

impl Default for Stats {
    /// The default statistics: every counter at zero.
    fn default() -> (s: Stats)
        ensures
            s.processed == 0,
            s.duplicates == 0,
            s.errors == 0,
            s.renamed == 0,
    {
        Stats::new()
    }
}

} // verus!
