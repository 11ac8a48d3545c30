//! The kernel's own test harness: runnable test cases and the exit code
//! reported to the emulator. The port write that actually exits, and the
//! serial printing around it, are hardware operations performed outside
//! this crate.

use vstd::prelude::*;

verus! {

/// What the kernel reports to the emulator when the run ends.
#[derive(Copy, Clone, PartialEq, Eq, Structural, Debug)]
pub enum ExitCode {
    Success,
    Failure,
}

impl ExitCode {
    /// The value written to the emulator's exit port.
    pub fn code(self) -> (r: u32)
        ensures
            self == ExitCode::Success ==> r == 2,
            self == ExitCode::Failure ==> r == 3,
    {
        match self {
            ExitCode::Success => 2,
            ExitCode::Failure => 3,
        }
    }
}

/// A runnable test case. Implementations are the embedder's; nothing is
/// assumed of their bodies.
pub trait Testable {
    /// Runs the case; a failure panics.
    fn run(&self);

    /// Runs a case that is expected to panic; returning at all is a
    /// failure.
    fn run_should_panic(&self);
}

/// Runs every test in order; reaching the end means every case passed.
pub fn runner<T: Testable>(tests: &Vec<T>) -> (r: ExitCode)
    ensures
        r == ExitCode::Success,
{
    let n = tests.len();
    let mut i: usize = 0;
    while i < n
        invariant
            i <= n,
            n == tests@.len(),
        decreases n - i,
    {
        tests[i].run();
        i = i + 1;
    }
    ExitCode::Success
}

/// Runs a single test.
pub fn run<T: Testable>(test: &T) -> (r: ExitCode)
    ensures
        r == ExitCode::Success,
{
    test.run();
    ExitCode::Success
}

/// Runs a single test that must panic; control returning here means it
/// did not.
pub fn run_should_panic<T: Testable>(test: &T) -> (r: ExitCode)
    ensures
        r == ExitCode::Failure,
{
    test.run_should_panic();
    ExitCode::Failure
}

} // verus!
