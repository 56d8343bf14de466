//! A minimal TAP-style reporter used by the test suite: it numbers
//! checks, prints one line per check, and remembers whether any check
//! failed.

use std::io::Write;
use vstd::prelude::*;
use vstd::std_specs::cmp::PartialEqSpec;

verus! {

/// Relies on std::io::stdout: prints the TAP plan line.
#[verifier::external_body]
fn print_plan(n: usize) {
    let mut out = std::io::stdout();
    let _ = writeln!(out, "1..{}", n);
}

/// Relies on std::io::stdout: prints one TAP result line from the
/// already chosen result word.
#[verifier::external_body]
fn print_result(word: &str, num: usize, name: &str) {
    let mut out = std::io::stdout();
    let _ = writeln!(out, "{} {} - {}", word, num, name);
}

/// Relies on std::io::stderr: prints a diagnostic line for a
/// mismatching comparison.
#[verifier::external_body]
fn print_diag<T: core::fmt::Debug>(got: &T, expect: &T, name: &str) {
    let mut err = std::io::stderr();
    let _ = writeln!(err, "# got {:?} expected {:?} in: {}", got, expect, name);
}

/// Relies on std::io::stderr: prints a diagnostic line for a
/// mismatching string comparison.
#[verifier::external_body]
fn print_diag_str(got: &str, expect: &str, name: &str) {
    let mut err = std::io::stderr();
    let _ = writeln!(err, "# got '{}' expected '{}' in: {}", got, expect, name);
}

/// A TAP-style check counter.
pub struct Tap {
    nexttest: usize,
    total: usize,
    _fail: bool,
}

impl Tap {
    /// The number the next check will carry.
    pub closed spec fn spec_next(self) -> int {
        self.nexttest as int
    }

    /// How many checks were planned.
    pub closed spec fn spec_total(self) -> int {
        self.total as int
    }

    /// Whether some check has failed.
    pub closed spec fn spec_failed(self) -> bool {
        self._fail
    }

    /// The counter invariant: numbering starts at one.
    pub open spec fn wf(self) -> bool {
        self.spec_next() >= 1
    }

    /// A fresh counter: the next check is number one, nothing is
    /// planned and nothing has failed.
    pub fn new() -> (t: Tap)
        ensures
            t.wf(),
            t.spec_next() == 1,
            t.spec_total() == 0,
            !t.spec_failed(),
    {
        Tap { nexttest: 1, total: 0, _fail: false }
    }

    /// Announces how many checks will run.
    pub fn plan_tests(&mut self, n: usize)
        requires
            old(self).wf(),
        ensures
            final(self).wf(),
            final(self).spec_total() == n,
            final(self).spec_next() == old(self).spec_next(),
            final(self).spec_failed() == old(self).spec_failed(),
    {
        self.total = n;
        print_plan(n);
    }

    /// Adopts the number of checks run so far as the plan.
    pub fn finish(&mut self)
        requires
            old(self).wf(),
        ensures
            final(self).wf(),
            final(self).spec_total() == old(self).spec_next() - 1,
            final(self).spec_next() == old(self).spec_next(),
            final(self).spec_failed() == old(self).spec_failed(),
    {
        self.total = self.nexttest - 1;
    }

    /// Records a passing check.
    pub fn pass(&mut self, name: &str)
        requires
            old(self).wf(),
            old(self).spec_next() < usize::MAX,
        ensures
            final(self).wf(),
            final(self).spec_next() == old(self).spec_next() + 1,
            final(self).spec_total() == old(self).spec_total(),
            final(self).spec_failed() == old(self).spec_failed(),
    {
        print_result("ok", self.nexttest, name);
        self.nexttest = self.nexttest + 1;
    }

    /// Records a failing check.
    pub fn fail(&mut self, name: &str)
        requires
            old(self).wf(),
            old(self).spec_next() < usize::MAX,
        ensures
            final(self).wf(),
            final(self).spec_next() == old(self).spec_next() + 1,
            final(self).spec_total() == old(self).spec_total(),
            final(self).spec_failed(),
    {
        print_result("not ok", self.nexttest, name);
        self.nexttest = self.nexttest + 1;
        self._fail = true;
    }

    /// Records one check with the given outcome.
    pub fn ok(&mut self, cmp: bool, name: &str)
        requires
            old(self).wf(),
            old(self).spec_next() < usize::MAX,
        ensures
            final(self).wf(),
            final(self).spec_next() == old(self).spec_next() + 1,
            final(self).spec_total() == old(self).spec_total(),
            final(self).spec_failed() == (old(self).spec_failed() || !cmp),
    {
        if cmp {
            self.pass(name);
        } else {
            self.fail(name);
        }
    }

    /// Records a failure standing for `count` checks that cannot run.
    pub fn bypass(&mut self, count: usize, name: &str)
        requires
            old(self).wf(),
            old(self).spec_next() + count < usize::MAX,
        ensures
            final(self).wf(),
            final(self).spec_next() == old(self).spec_next() + count,
            final(self).spec_total() == old(self).spec_total(),
            final(self).spec_failed(),
    {
        self.fail(name);
        self.nexttest = self.nexttest - 1;
        self.nexttest = self.nexttest + count;
    }

    /// Checks that two comparable values are equal: a failure is
    /// recorded exactly when they differ.
    pub fn is_int<T: PartialEq + core::fmt::Debug>(&mut self, got: T, expect: T, name: &str)
        requires
            old(self).wf(),
            old(self).spec_next() < usize::MAX,
        ensures
            final(self).wf(),
            final(self).spec_next() == old(self).spec_next() + 1,
            final(self).spec_total() == old(self).spec_total(),
            old(self).spec_failed() ==> final(self).spec_failed(),
            T::obeys_eq_spec() ==> final(self).spec_failed() == (old(self).spec_failed()
                || !got.eq_spec(&expect)),
    {
        let same = got == expect;
        if same {
            self.ok(true, name);
        } else {
            self.ok(false, name);
            print_diag(&got, &expect, name);
        }
    }

    /// Checks that two strings are equal.
    pub fn is_str(&mut self, got: &str, expect: &str, name: &str)
        requires
            old(self).wf(),
            old(self).spec_next() < usize::MAX,
        ensures
            final(self).wf(),
            final(self).spec_next() == old(self).spec_next() + 1,
            final(self).spec_total() == old(self).spec_total(),
            final(self).spec_failed() == (old(self).spec_failed() || got@ != expect@),
    {
        let same = crate::parse::str_eq(got, expect);
        if same {
            self.ok(true, name);
        } else {
            self.ok(false, name);
            print_diag_str(got, expect, name);
        }
    }

    /// Whether every check ran and passed: no failure was recorded
    /// and the count of checks matches the plan.
    pub fn passed(&mut self) -> (r: bool)
        requires
            old(self).wf(),
        ensures
            *final(self) == *old(self),
            r == (!old(self).spec_failed() && old(self).spec_total() == old(self).spec_next()
                - 1),
    {
        !self._fail && self.total == self.nexttest - 1
    }
}

/// A place for a debugger to rest.
pub fn breakpoint() {
    return ;
}

} // verus!
