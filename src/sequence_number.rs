use vstd::prelude::*;

verus! {

/// A generator of fresh numbers: 0, 1, 2, ... each handed out once.
///
/// Shared between tasks it sits behind a lock, so that its calls are
/// serialised: whatever the interleaving, the values come out of one run of
/// `next` on one generator.
#[derive(Debug)]
pub struct SequenceNumber {
    sn: usize,
}

impl SequenceNumber {
    /// The value that the next call of `next` hands out.
    pub closed spec fn upcoming(&self) -> nat {
        self.sn as nat
    }

    pub fn new() -> (r: SequenceNumber)
        ensures
            r.upcoming() == 0,
    {
        SequenceNumber { sn: 0 }
    }

    /// Hands out the next number, or `None` once every `usize` below the
    /// largest one has been issued.
    pub fn next(&mut self) -> (r: Option<usize>)
        ensures
            next_step(old(self).upcoming(), final(self).upcoming(), r),
            old(self).upcoming() >= usize::MAX ==> *final(self) == *old(self),
    {
        if self.sn < usize::MAX {
            let ret = self.sn;
            self.sn = self.sn + 1;
            Some(ret)
        } else {
            None
        }
    }
}

impl Default for SequenceNumber {
    fn default() -> (r: SequenceNumber)
        ensures
            r.upcoming() == 0,
    {
        SequenceNumber::new()
    }
}

/// One call of `next`: from the value `before` to be issued to `after`,
/// returning `r`.
pub open spec fn next_step(before: nat, after: nat, r: Option<usize>) -> bool {
    if before < usize::MAX {
        r == Some(before as usize) && after == before + 1
    } else {
        r is None && after == before
    }
}

/// `n` calls of `next` in a row on a generator about to issue `start`,
/// however the tasks that make them are interleaved (the lock serialises them
/// into one row): the `k`-th call returns `start + k`, so the `n` values are
/// exactly `start .. start + n`, each once, and the generator is then about to
/// issue `start + n`. `upcoming[k]` is the value it would issue before call `k`.
pub proof fn lemma_next_issues_each_value_once(start: nat, upcoming: Seq<nat>, results: Seq<Option<usize>>)
    requires
        upcoming.len() == results.len() + 1,
        upcoming[0] == start,
        start + results.len() <= usize::MAX,
        forall|k: int| 0 <= k < results.len() ==> next_step(upcoming[k], upcoming[k + 1], #[trigger] results[k]),
    ensures
        forall|k: int| 0 <= k < results.len() ==> #[trigger] results[k] == Some((start + k) as usize),
        forall|j: int, k: int| 0 <= j < k < results.len() ==> #[trigger] results[j] != #[trigger] results[k],
        upcoming[results.len() as int] == start + results.len(),
{
    assert forall|k: int| 0 <= k <= results.len() implies upcoming[k] == start + k by {
        lemma_upcoming_counts(start, upcoming, results, k);
    }
    assert forall|k: int| 0 <= k < results.len() implies #[trigger] results[k] == Some((start + k) as usize) by {
        assert(upcoming[k] == start + k);
    }
}

proof fn lemma_upcoming_counts(start: nat, upcoming: Seq<nat>, results: Seq<Option<usize>>, k: int)
    requires
        upcoming.len() == results.len() + 1,
        upcoming[0] == start,
        start + results.len() <= usize::MAX,
        forall|i: int| 0 <= i < results.len() ==> next_step(upcoming[i], upcoming[i + 1], #[trigger] results[i]),
        0 <= k <= results.len(),
    ensures
        upcoming[k] == start + k,
    decreases k,
{
    if k > 0 {
        lemma_upcoming_counts(start, upcoming, results, k - 1);
        assert(next_step(upcoming[k - 1], upcoming[k], results[k - 1]));
    }
}

} // verus!
