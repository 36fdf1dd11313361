use vstd::prelude::*;

use crate::size::{compare_sizes, size_compare_is_an_order, SizeOrder};
use crate::types::download::{goes_first, DownloadJob};

verus! {

/// Whether `job` goes first, or together with the first, among `jobs`.
pub open spec fn is_first_in(job: DownloadJob, jobs: Seq<DownloadJob>, largest_first: bool) -> bool {
    forall|j: int| 0 <= j < jobs.len() ==> goes_first(job.file.size@, #[trigger] jobs[j].file.size@, largest_first)
}

/// Whether taking `popped` out of `before` leaves `after`: `popped` is the
/// earliest queued job among those that go first, and the others stay in order.
pub open spec fn is_pop(
    before: Seq<DownloadJob>,
    after: Seq<DownloadJob>,
    popped: DownloadJob,
    largest_first: bool,
) -> bool {
    exists|i: int|
        0 <= i < before.len() && before[i] == popped && is_first_in(popped, before, largest_first)
            && (forall|j: int| 0 <= j < i ==> !is_first_in(#[trigger] before[j], before, largest_first))
            && after == before.remove(i)
}

/// The jobs still to download, handed out by file size: smallest first, or
/// largest first when so configured.
pub struct JobQueue {
    jobs: Vec<DownloadJob>,
    largest_first: bool,
}

impl JobQueue {
    /// The queued jobs, in the order they were added.
    pub closed spec fn contents(&self) -> Seq<DownloadJob> {
        self.jobs@
    }

    /// Whether larger files go first.
    pub closed spec fn largest_first(&self) -> bool {
        self.largest_first
    }

    /// A queue of `jobs`.
    pub fn new(jobs: Vec<DownloadJob>, largest_first: bool) -> (res: Self)
        ensures
            res.contents() == jobs@,
            res.largest_first() == largest_first,
    {
        JobQueue { jobs, largest_first }
    }

    /// How many jobs are queued.
    pub fn len(&self) -> (res: usize)
        ensures
            res == self.contents().len(),
    {
        self.jobs.len()
    }

    /// Whether no job is queued.
    pub fn is_empty(&self) -> (res: bool)
        ensures
            res == (self.contents().len() == 0),
    {
        self.jobs.len() == 0
    }

    /// Adds a job.
    pub fn push(&mut self, job: DownloadJob)
        ensures
            final(self).contents() == old(self).contents().push(job),
            final(self).largest_first() == old(self).largest_first(),
    {
        self.jobs.push(job);
    }

    /// Takes out the job that goes first; `None` when the queue is empty.
    pub fn pop(&mut self) -> (res: Option<DownloadJob>)
        ensures
            final(self).largest_first() == old(self).largest_first(),
            old(self).contents().len() == 0 ==> res is None && final(self).contents()
                == old(self).contents(),
            old(self).contents().len() > 0 ==> (res matches Some(job) && is_pop(
                old(self).contents(),
                final(self).contents(),
                job,
                old(self).largest_first(),
            )),
    {
        let n = self.jobs.len();
        if n == 0 {
            return None;
        }
        let lf = self.largest_first;
        let mut best: usize = 0;
        let mut i: usize = 1;
        proof {
            let s0 = self.jobs@[0].file.size@;
            size_compare_is_an_order(s0, s0, s0);
        }
        while i < n
            invariant
                n == self.jobs@.len(),
                lf == self.largest_first,
                0 <= best < i <= n,
                forall|j: int| 0 <= j < i ==> goes_first(self.jobs@[best as int].file.size@, #[trigger] self.jobs@[j].file.size@, lf),
                forall|j: int| 0 <= j < best ==> !goes_first(#[trigger] self.jobs@[j].file.size@, self.jobs@[best as int].file.size@, lf),
            decreases n - i,
        {
            let order = compare_sizes(self.jobs[i].file.size.as_str(), self.jobs[best].file.size.as_str());
            let better = match order {
                SizeOrder::Smaller => !lf,
                SizeOrder::Larger => lf,
                SizeOrder::Same => false,
            };
            proof {
                let bi = self.jobs@[i as int].file.size@;
                let bb = self.jobs@[best as int].file.size@;
                size_compare_is_an_order(bi, bb, bi);
                let nb: int = if better { i as int } else { best as int };
                assert forall|j: int| 0 <= j < i + 1 implies goes_first(
                    self.jobs@[nb].file.size@,
                    #[trigger] self.jobs@[j].file.size@,
                    lf,
                ) by {
                    let bj = self.jobs@[j].file.size@;
                    size_compare_is_an_order(bi, bb, bj);
                    size_compare_is_an_order(bj, bb, bi);
                    size_compare_is_an_order(bb, bi, bj);
                    size_compare_is_an_order(bj, bi, bb);
                }
                if better {
                    assert forall|j: int| 0 <= j < i implies !goes_first(
                        #[trigger] self.jobs@[j].file.size@,
                        bi,
                        lf,
                    ) by {
                        let bj = self.jobs@[j].file.size@;
                        size_compare_is_an_order(bi, bb, bj);
                        size_compare_is_an_order(bj, bb, bi);
                        size_compare_is_an_order(bb, bi, bj);
                        size_compare_is_an_order(bj, bi, bb);
                        size_compare_is_an_order(bi, bj, bb);
                        size_compare_is_an_order(bb, bj, bi);
                    }
                }
            }
            if better {
                best = i;
            }
            i = i + 1;
        }
        let ghost before = self.jobs@;
        let job = self.jobs.remove(best);
        proof {
            let b = best as int;
            assert(is_first_in(job, before, lf));
            assert forall|j: int| 0 <= j < b implies !is_first_in(#[trigger] before[j], before, lf) by {
                assert(!goes_first(before[j].file.size@, before[b].file.size@, lf));
            }
            assert(self.jobs@ == before.remove(b));
        }
        Some(job)
    }
}

/// Jobs come out of the queue in priority order: of two jobs taken out one
/// after the other, with nothing added between, the first goes first.
pub proof fn pops_come_in_priority_order(
    s0: Seq<DownloadJob>,
    s1: Seq<DownloadJob>,
    s2: Seq<DownloadJob>,
    a: DownloadJob,
    b: DownloadJob,
    largest_first: bool,
)
    requires
        is_pop(s0, s1, a, largest_first),
        is_pop(s1, s2, b, largest_first),
    ensures
        goes_first(a.file.size@, b.file.size@, largest_first),
{
    let i = choose|i: int|
        0 <= i < s0.len() && s0[i] == a && is_first_in(a, s0, largest_first) && (forall|j: int|
            0 <= j < i ==> !is_first_in(#[trigger] s0[j], s0, largest_first)) && s1 == s0.remove(i);
    let k = choose|k: int|
        0 <= k < s1.len() && s1[k] == b && is_first_in(b, s1, largest_first) && (forall|j: int|
            0 <= j < k ==> !is_first_in(#[trigger] s1[j], s1, largest_first)) && s2 == s1.remove(k);
    if k < i {
        assert(s0[k] == b);
    } else {
        assert(s0[k + 1] == b);
    }
}

/// Taking a job out of the queue loses no other job and adds none.
pub proof fn pop_keeps_the_other_jobs(
    before: Seq<DownloadJob>,
    after: Seq<DownloadJob>,
    popped: DownloadJob,
    largest_first: bool,
)
    requires
        is_pop(before, after, popped, largest_first),
    ensures
        before.to_multiset() == after.to_multiset().insert(popped),
{
    let i = choose|i: int|
        0 <= i < before.len() && before[i] == popped && is_first_in(popped, before, largest_first)
            && (forall|j: int| 0 <= j < i ==> !is_first_in(#[trigger] before[j], before, largest_first))
            && after == before.remove(i);
    broadcast use vstd::multiset::group_multiset_axioms;

    vstd::seq_lib::to_multiset_remove(before, i);
    before.to_multiset_ensures();
    assert(before.contains(popped));
    assert(before.to_multiset() =~= before.to_multiset().remove(popped).insert(popped));
}

} // verus!
