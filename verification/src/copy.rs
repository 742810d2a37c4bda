//! The bookkeeping of a one-way copy between two streams: read a chunk,
//! forward it, count it; stop at end of input.

use vstd::prelude::*;

verus! {

/// What the copier does after a read.
#[derive(Debug, Clone, Copy, PartialEq, Eq, Structural)]
pub enum CopyStep {
    /// Write the `n` bytes just read to the other side, then read again.
    Forward(usize),
    /// End of input: flush the other side; `total` bytes were copied.
    Finish(u64),
}

/// A copy in progress: how many bytes have been forwarded so far.
pub struct CopyProgress {
    total: u64,
}

impl CopyProgress {
    /// Bytes forwarded so far.
    pub closed spec fn spec_total(&self) -> nat {
        self.total as nat
    }

    /// A copy that has forwarded nothing yet.
    pub fn new() -> (r: CopyProgress)
        ensures
            r.spec_total() == 0,
    {
        CopyProgress { total: 0 }
    }

    /// Bytes forwarded so far.
    pub fn total(&self) -> (r: u64)
        ensures
            r == self.spec_total(),
    {
        self.total
    }

    /// Handles a read of `n` bytes (`0` is end of input).
    pub fn on_read(&mut self, n: usize) -> (step: CopyStep)
        requires
            old(self).spec_total() + n <= u64::MAX,
        ensures
            n == 0 ==> step == CopyStep::Finish(old(self).spec_total() as u64)
                && final(self).spec_total() == old(self).spec_total(),
            n > 0 ==> step == CopyStep::Forward(n) && final(self).spec_total()
                == old(self).spec_total() + n,
    {
        if n == 0 {
            CopyStep::Finish(self.total)
        } else {
            self.total = self.total + n as u64;
            CopyStep::Forward(n)
        }
    }
}

} // verus!
