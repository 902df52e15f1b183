//! The plain runner: one pass over the tests, with no status of its own,
//! that hands back what it has to report.

use vstd::prelude::*;
use crate::entity::{answers_on, fit_for, passed_over, pending, stopped_before, Entity};
use crate::facts::{
    lemma_cancelled, lemma_pass_cancels, lemma_pass_runs, lemma_pass_skips, lemma_pass_whole,
    lemma_ran_settles, lemma_ran_shape, lemma_step_keeps, passed_up_to,
};
use crate::report::{reports, RunResult};
use crate::runner::all_accept;
use crate::status::Status;

verus! {

/// Runs tests and groups of tests on one shared input, in one pass.
pub struct TestRunner<'a, T, F> {
    pub tests: Vec<Entity<F>>,
    pub data: &'a T,
}

/// Whether `results` reports the given tests, one result for each, in order.
pub open spec fn report_all<F>(results: Seq<RunResult>, tests: Seq<Entity<F>>) -> bool {
    &&& results.len() == tests.len()
    &&& forall|i: int| 0 <= i < tests.len() ==> reports(#[trigger] results[i], tests[i])
}

impl<'a, T, F> TestRunner<'a, T, F> {
    /// Creates a runner without tests for the given input.
    pub fn new(data: &'a T) -> (runner: Self)
        ensures
            runner.tests@ == Seq::<Entity<F>>::empty(),
            runner.data == data,
    {
        TestRunner { tests: Vec::new(), data }
    }

    /// Appends a test.
    pub fn add_test(&mut self, test: Entity<F>)
        ensures
            final(self).tests@ == old(self).tests@.push(test),
            final(self).data == old(self).data,
    {
        self.tests.push(test);
    }

    /// Makes one pass over the tests and returns what there is to report of
    /// each of them.
    ///
    /// The pass runs the pending tests in order. Once a critical test has
    /// failed or was cancelled, it cancels the pending tests that are left.
    pub fn run(&mut self) -> (results: Vec<RunResult>) where F: Fn(&T) -> Status
        requires
            all_accept(old(self).tests@, *old(self).data),
        ensures
            final(self).data == old(self).data,
            passed_over(old(self).tests@, *old(self).data, final(self).tests@),
            report_all(results@, final(self).tests@),
    {
        let ghost before = self.tests@;
        let ghost input = *self.data;
        let ghost answers = answers_on::<T, F>(input);
        let data = self.data;
        let mut abort = false;
        let mut i: usize = 0;
        while i < self.tests.len()
            invariant
                self.data == old(self).data,
                data == self.data,
                before == old(self).tests@,
                input == *old(self).data,
                answers == answers_on::<T, F>(input),
                passed_up_to(before, answers, self.tests@, i as int),
                all_accept(self.tests@, input),
                abort == stopped_before(before, self.tests@, i as int),
            decreases self.tests.len() - i,
        {
            let ghost now = self.tests@;
            if self.tests[i].status() == Status::Init {
                if !abort {
                    proof {
                        crate::facts::lemma_accepts_runnable(now[i as int], input);
                    }
                    self.tests[i].run(data);
                    abort = self.tests[i].should_abort();
                    proof {
                        lemma_ran_settles(
                            now[i as int],
                            self.tests@[i as int],
                            answers,
                            fit_for(input),
                        );
                        lemma_pass_runs(before, answers, now, self.tests@, i as int, i as int);
                        lemma_ran_shape(now[i as int], self.tests@[i as int], answers);
                        lemma_step_keeps(now, self.tests@, fit_for(input), i as int);
                    }
                } else {
                    self.tests[i].abort();
                    proof {
                        lemma_pass_cancels(before, answers, now, self.tests@, i as int, i as int);
                        lemma_cancelled(now[i as int], self.tests@[i as int]);
                        lemma_step_keeps(now, self.tests@, fit_for(input), i as int);
                    }
                }
            } else {
                proof {
                    lemma_pass_skips(before, answers, now, i as int);
                }
            }
            i = i + 1;
        }
        proof {
            lemma_pass_whole(before, answers, self.tests@, i as int);
        }
        let mut results: Vec<RunResult> = Vec::new();
        let mut j: usize = 0;
        while j < self.tests.len()
            invariant
                j <= self.tests.len(),
                report_all(results@, self.tests@.take(j as int)),
            decreases self.tests.len() - j,
        {
            let result = self.tests[j].result();
            results.push(result);
            j = j + 1;
        }
        proof {
            assert(self.tests@.take(j as int) =~= self.tests@);
        }
        results
    }
}

} // verus!
