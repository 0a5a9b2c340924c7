use vstd::prelude::*;

verus! {

/// The number of finished jobs out of the length of the batch.
pub struct ProgressCounter {
    pub position: u64,
    pub length: u64,
}

/// The counter after `n` more jobs have finished.
pub open spec fn after_completions(c: ProgressCounter, n: nat) -> ProgressCounter
    decreases n,
{
    if n == 0 {
        c
    } else {
        let p = after_completions(c, (n - 1) as nat);
        ProgressCounter { position: (p.position + 1) as u64, length: p.length }
    }
}

impl ProgressCounter {
    /// The counter never passes the length of the batch.
    pub open spec fn wf(&self) -> bool {
        self.position <= self.length
    }

    /// A counter at zero for a batch of `length` jobs.
    pub fn new(length: u64) -> (r: ProgressCounter)
        ensures
            r.position == 0,
            r.length == length,
            r.wf(),
    {
        ProgressCounter { position: 0, length }
    }

    /// Whether every job of the batch has been counted.
    pub fn is_finished(&self) -> (r: bool)
        ensures
            r == (self.position == self.length),
    {
        self.position == self.length
    }

    /// Counts one more finished job and returns the new position.
    pub fn complete(&mut self) -> (p: u64)
        requires
            old(self).wf(),
            old(self).position < old(self).length,
        ensures
            *final(self) == after_completions(*old(self), 1),
            final(self).wf(),
            p == final(self).position,
    {
        assert(after_completions(*self, 0) == *self);
        self.position = self.position + 1;
        self.position
    }
}

/// However the `length` jobs of a batch finish, each completion finds the
/// counter below the length and moves it by one, so after `m` completions it
/// stands at `m`, and after all of them at `length`, with none lost.
pub proof fn lemma_every_completion_counted(length: u64, m: nat)
    requires
        m <= length,
    ensures
        after_completions(ProgressCounter { position: 0, length }, m) == (ProgressCounter {
            position: m as u64,
            length,
        }),
        m < length ==> after_completions(ProgressCounter { position: 0, length }, m).position
            < length,
        m == length ==> after_completions(ProgressCounter { position: 0, length }, m).position
            == length,
    decreases m,
{
    if m > 0 {
        lemma_every_completion_counted(length, (m - 1) as nat);
    }
}

} // verus!
