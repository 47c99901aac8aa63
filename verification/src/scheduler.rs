//! How many tests run at the same time, and the order in which the tests of a
//! run start.

use vstd::prelude::*;

verus! {

/// The tests of a run: those that wait, in the order in which they will start,
/// those that are running, and those that are done.
pub struct Schedule {
    pub limit: usize,
    pub pending: Vec<usize>,
    pub running: Vec<usize>,
    pub finished: Vec<usize>,
}

impl Schedule {
    /// No more tests are running than the limit allows.
    pub open spec fn wf(&self) -> bool {
        self.running@.len() <= self.limit
    }

    /// How many tests the schedule holds.
    pub open spec fn total(&self) -> nat {
        self.pending@.len() + self.running@.len() + self.finished@.len()
    }

    /// A schedule in which all tests wait.
    pub fn new(limit: usize, tests: Vec<usize>) -> (r: Self)
        ensures
            r.wf(),
            r.limit == limit,
            r.pending@ == tests@,
            r.running@.len() == 0,
            r.finished@.len() == 0,
    {
        Schedule { limit, pending: tests, running: Vec::new(), finished: Vec::new() }
    }

    /// Starts the test that has waited longest, if a test waits and a permit is
    /// left.
    pub fn start_next(&mut self) -> (r: Option<usize>)
        requires
            old(self).wf(),
        ensures
            final(self).wf(),
            final(self).limit == old(self).limit,
            final(self).finished@ == old(self).finished@,
            final(self).total() == old(self).total(),
            if old(self).pending@.len() > 0 && old(self).running@.len() < old(self).limit {
                &&& r == Some(old(self).pending@[0])
                &&& final(self).pending@ == old(self).pending@.drop_first()
                &&& final(self).running@ == old(self).running@.push(old(self).pending@[0])
            } else {
                &&& r is None
                &&& final(self).pending@ == old(self).pending@
                &&& final(self).running@ == old(self).running@
            },
    {
        if self.pending.len() > 0 && self.running.len() < self.limit {
            let test = self.pending.remove(0);
            self.running.push(test);
            assert(old(self).pending@.remove(0) =~= old(self).pending@.drop_first());
            Some(test)
        } else {
            None
        }
    }

    /// Ends a running test: it gives its permit back and is done. Nothing
    /// happens if the test is not running.
    pub fn finish(&mut self, test: usize) -> (r: bool)
        requires
            old(self).wf(),
        ensures
            final(self).wf(),
            final(self).limit == old(self).limit,
            final(self).pending@ == old(self).pending@,
            final(self).total() == old(self).total(),
            r == old(self).running@.contains(test),
            r ==> exists|at: int|
                {
                    &&& 0 <= at < old(self).running@.len()
                    &&& old(self).running@[at] == test
                    &&& forall|j: int| 0 <= j < at ==> old(self).running@[j] != test
                    &&& #[trigger] old(self).running@.remove(at) == final(self).running@
                },
            r ==> final(self).finished@ == old(self).finished@.push(test),
            !r ==> final(self).running@ == old(self).running@,
            !r ==> final(self).finished@ == old(self).finished@,
    {
        let mut i: usize = 0;
        while i < self.running.len()
            invariant
                i <= self.running.len(),
                *self == *old(self),
                self.wf(),
                forall|j: int| 0 <= j < i ==> self.running@[j] != test,
            decreases self.running.len() - i,
        {
            if self.running[i] == test {
                self.running.remove(i);
                self.finished.push(test);
                assert(old(self).running@.remove(i as int) == self.running@);
                return true;
            }
            i = i + 1;
        }
        false
    }

    /// Whether every test is done.
    pub fn is_done(&self) -> (r: bool)
        ensures
            r == (self.pending@.len() == 0 && self.running@.len() == 0),
    {
        self.pending.len() == 0 && self.running.len() == 0
    }
}

} // verus!
