//! The decision core of the statistics harness.
//!
//! The harness runs each benchmark as a subprocess, `reps` times each, in a
//! randomized interleaving so that systematic drift cannot bias one
//! benchmark. The decisions — which benchmark to run next given a random
//! draw, and when to stop — live here over plain counts; running the
//! subprocess, parsing its output and computing statistics stay with the
//! caller. No series ever holds more than `reps` measurements, and when the
//! scheduler is done the total collected is exactly the number of
//! benchmarks times `reps`.

use vstd::prelude::*;

verus! {

/// The number of series in `s` that still hold fewer than `reps`
/// measurements.
pub open spec fn num_incomplete(s: Seq<usize>, reps: usize) -> int
    decreases s.len(),
{
    if s.len() == 0 {
        0
    } else {
        num_incomplete(s.drop_last(), reps) + if s.last() < reps {
            1int
        } else {
            0int
        }
    }
}

/// The total number of measurements collected over all series.
pub open spec fn sum_counts(s: Seq<usize>) -> int
    decreases s.len(),
{
    if s.len() == 0 {
        0
    } else {
        sum_counts(s.drop_last()) + s.last()
    }
}

/// The incomplete count is between zero and the series count, and it is
/// zero exactly when no series is below `reps`.
pub proof fn lemma_num_incomplete_bounds(s: Seq<usize>, reps: usize)
    ensures
        0 <= num_incomplete(s, reps) <= s.len(),
        (num_incomplete(s, reps) == 0) <==> (forall|i: int|
            0 <= i < s.len() ==> (#[trigger] s[i]) >= reps),
    decreases s.len(),
{
    if s.len() > 0 {
        lemma_num_incomplete_bounds(s.drop_last(), reps);
        assert(forall|i: int| 0 <= i < s.len() - 1 ==> (#[trigger] s[i]) == s.drop_last()[i]);
        assert(s[s.len() - 1] == s.last());
    }
}

/// Raising one series' count by one raises the total by one.
proof fn lemma_sum_counts_update(s: Seq<usize>, k: int, v: usize)
    requires
        0 <= k < s.len(),
    ensures
        sum_counts(s.update(k, v)) == sum_counts(s) - s[k] + v,
    decreases s.len(),
{
    if k == s.len() - 1 {
        assert(s.update(k, v).drop_last() =~= s.drop_last());
    } else {
        assert(s.update(k, v).drop_last() =~= s.drop_last().update(k, v));
        lemma_sum_counts_update(s.drop_last(), k, v);
    }
}

/// The total over series that all hold exactly `v` is the series count
/// times `v`.
proof fn lemma_sum_counts_constant(s: Seq<usize>, v: usize)
    requires
        forall|i: int| 0 <= i < s.len() ==> (#[trigger] s[i]) == v,
    ensures
        sum_counts(s) == s.len() * v,
    decreases s.len(),
{
    if s.len() == 0 {
        assert(sum_counts(s) == 0);
    } else {
        assert(forall|i: int| 0 <= i < s.len() - 1 ==> (#[trigger] s.drop_last()[i]) == s[i]);
        lemma_sum_counts_constant(s.drop_last(), v);
        assert((s.len() - 1) * v + v == s.len() * v) by (nonlinear_arith);
    }
}

/// The measurement ledger: one count per benchmark, and the target repeat
/// count.
pub struct Sched {
    counts: Vec<usize>,
    reps: usize,
}

impl Sched {
    /// How many measurements each benchmark has accumulated, in benchmark
    /// order.
    pub closed spec fn counts(self) -> Seq<usize> {
        self.counts@
    }

    /// The target number of measurements per benchmark.
    pub closed spec fn reps(self) -> usize {
        self.reps
    }

    /// No benchmark ever accumulates more than `reps` measurements.
    pub open spec fn wf(self) -> bool {
        forall|i: int| 0 <= i < self.counts().len() ==> (#[trigger] self.counts()[i]) <= self.reps()
    }

    /// Every series is complete.
    pub open spec fn done(self) -> bool {
        forall|i: int| 0 <= i < self.counts().len() ==> (#[trigger] self.counts()[i])
            == self.reps()
    }

    /// The total number of measurements collected so far.
    pub open spec fn total(self) -> int {
        sum_counts(self.counts())
    }

    /// A scheduler for `n` benchmarks, none measured yet, aiming at `reps`
    /// measurements each.
    pub fn new(n: usize, reps: usize) -> (s: Sched)
        ensures
            s.wf(),
            s.counts().len() == n as int,
            forall|i: int| 0 <= i < n ==> (#[trigger] s.counts()[i]) == 0,
            s.reps() == reps,
            s.total() == 0,
    {
        let mut counts: Vec<usize> = Vec::with_capacity(n);
        let mut i: usize = 0;
        while i < n
            invariant
                i <= n,
                counts@.len() == i as int,
                forall|j: int| 0 <= j < i ==> (#[trigger] counts@[j]) == 0,
            decreases n - i,
        {
            counts.push(0);
            i += 1;
        }
        proof {
            lemma_sum_counts_constant(counts@, 0);
        }
        Sched { counts: counts, reps: reps }
    }

    /// How many benchmarks this scheduler drives.
    pub fn num_benchmarks(&self) -> (n: usize)
        ensures
            n == self.counts().len(),
    {
        self.counts.len()
    }

    /// How many measurements benchmark `i` has accumulated.
    pub fn count_of(&self, i: usize) -> (c: usize)
        requires
            i < self.counts().len(),
        ensures
            c == self.counts()[i as int],
    {
        self.counts[i]
    }

    /// Whether every benchmark has reached the target.
    pub fn is_done(&self) -> (b: bool)
        ensures
            b <==> self.done(),
    {
        let n = self.counts.len();
        let mut i: usize = 0;
        while i < n
            invariant
                i <= n,
                n == self.counts().len(),
                forall|j: int| 0 <= j < i ==> (#[trigger] self.counts()[j]) == self.reps(),
            decreases n - i,
        {
            if self.counts[i] != self.reps {
                return false;
            }
            i += 1;
        }
        true
    }

    /// Which benchmark to run next, given a random draw: the `draw mod k`-th
    /// of the `k` benchmarks still below the target, so a uniform draw picks
    /// uniformly among the incomplete ones. Returns nothing exactly when
    /// every series is complete.
    pub fn pick(&self, draw: usize) -> (o: Option<usize>)
        requires
            self.wf(),
        ensures
            o is Some <==> !self.done(),
            match o {
                Some(i) => i < self.counts().len() && self.counts()[i as int] < self.reps(),
                None => true,
            },
    {
        let n = self.counts.len();
        let mut k: usize = 0;
        let mut i: usize = 0;
        while i < n
            invariant
                i <= n,
                n == self.counts().len(),
                k == num_incomplete(self.counts().take(i as int), self.reps()),
                k <= i,
            decreases n - i,
        {
            proof {
                assert(self.counts().take(i + 1).drop_last() =~= self.counts().take(i as int));
                assert(self.counts().take(i + 1).last() == self.counts()[i as int]);
                lemma_num_incomplete_bounds(self.counts().take(i as int), self.reps());
            }
            if self.counts[i] < self.reps {
                k += 1;
            }
            i += 1;
        }
        proof {
            assert(self.counts().take(n as int) =~= self.counts());
            lemma_num_incomplete_bounds(self.counts(), self.reps());
        }
        if k == 0 {
            return None;
        }
        let target = draw % k;
        let mut seen: usize = 0;
        let mut j: usize = 0;
        while j < n
            invariant
                j <= n,
                n == self.counts().len(),
                k == num_incomplete(self.counts(), self.reps()),
                target < k,
                seen == num_incomplete(self.counts().take(j as int), self.reps()),
                seen <= target,
                !self.done(),
            decreases n - j,
        {
            proof {
                assert(self.counts().take(j + 1).drop_last() =~= self.counts().take(j as int));
                assert(self.counts().take(j + 1).last() == self.counts()[j as int]);
            }
            if self.counts[j] < self.reps {
                if seen == target {
                    return Some(j);
                }
                seen += 1;
            }
            j += 1;
        }
        proof {
            assert(self.counts().take(n as int) =~= self.counts());
        }
        None
    }

    /// Record one collected measurement for benchmark `i`. Only a benchmark
    /// below the target may record, so no series ever exceeds `reps`.
    pub fn record(&mut self, i: usize)
        requires
            old(self).wf(),
            i < old(self).counts().len(),
            old(self).counts()[i as int] < old(self).reps(),
        ensures
            final(self).wf(),
            final(self).reps() == old(self).reps(),
            final(self).counts() == old(self).counts().update(
                i as int,
                (old(self).counts()[i as int] + 1) as usize,
            ),
            final(self).total() == old(self).total() + 1,
    {
        proof {
            lemma_sum_counts_update(
                self.counts(),
                i as int,
                (self.counts()[i as int] + 1) as usize,
            );
        }
        let c = self.counts[i];
        self.counts[i] = c + 1;
    }
}

/// When every series is complete, the total number of measurements is
/// exactly the number of benchmarks times the repeat count.
pub proof fn lemma_done_total(s: Sched)
    requires
        s.done(),
    ensures
        s.total() == s.counts().len() * s.reps(),
{
    lemma_sum_counts_constant(s.counts(), s.reps());
}

} // verus!
