//! The way of a process into the background, step by step.
//!
//! The calls are the caller's: it does what a step names, and asks with the
//! result of the call for the next.

use vstd::prelude::*;
use vstd::string::StringExecFns;

verus! {

/// The path of the file that holds the process id of the daemon.
pub const PID_FILE: &'static str = "/tmp/solanum.pid";

/// The directory in which the daemon runs.
pub const WORKING_DIRECTORY: &'static str = "/";

/// The call that failed on the way into the background.
#[derive(Clone, Copy, Debug, PartialEq, Eq, Structural)]
pub enum Failure {
    ForkChild,
    StartSession,
    ForkGrandchild,
    ChangeDirectory,
    WritePidFile,
}

/// What the process does next on its way into the background.
#[derive(Clone, Copy, Debug, PartialEq, Eq, Structural)]
pub enum Step {
    /// Set the file mode mask to 0.
    SetUmask,
    /// Fork the child.
    ForkChild,
    /// Start a new session, in the child.
    StartSession,
    /// Fork the grandchild, in the child.
    ForkGrandchild,
    /// Change to the root directory, in the grandchild.
    ChangeDirectory,
    /// Close the three standard streams.
    CloseStreams,
    /// Write the process id to the pid file.
    WritePidFile,
    /// The process is a daemon: run the event loop.
    Run,
    /// Leave with success: the parent, whose child has the given process id,
    /// or the child, once the grandchild is there.
    ExitSuccess(Option<i64>),
    /// Say what failed and leave with failure.
    ExitFailure(Failure),
}

impl Step {
    /// The first step.
    pub open spec fn first() -> Step {
        Step::SetUmask
    }

    /// Nothing follows the step.
    pub open spec fn is_last(self) -> bool {
        self is Run || self is ExitSuccess || self is ExitFailure
    }

    /// The step after `self`, whose call returned `result`. A negative
    /// result is a failure, but of the mask and of the closing, which always
    /// go on. A fork returns 0 in the new process and its id, which is
    /// positive, in the old one.
    pub open spec fn next(self, result: i64) -> Step {
        match self {
            Step::SetUmask => Step::ForkChild,
            Step::ForkChild => if result < 0 {
                Step::ExitFailure(Failure::ForkChild)
            } else if result > 0 {
                Step::ExitSuccess(Some(result))
            } else {
                Step::StartSession
            },
            Step::StartSession => if result < 0 {
                Step::ExitFailure(Failure::StartSession)
            } else {
                Step::ForkGrandchild
            },
            Step::ForkGrandchild => if result < 0 {
                Step::ExitFailure(Failure::ForkGrandchild)
            } else if result > 0 {
                Step::ExitSuccess(None)
            } else {
                Step::ChangeDirectory
            },
            Step::ChangeDirectory => if result < 0 {
                Step::ExitFailure(Failure::ChangeDirectory)
            } else {
                Step::CloseStreams
            },
            Step::CloseStreams => Step::WritePidFile,
            Step::WritePidFile => if result < 0 {
                Step::ExitFailure(Failure::WritePidFile)
            } else {
                Step::Run
            },
            Step::Run => self,
            Step::ExitSuccess(_) => self,
            Step::ExitFailure(_) => self,
        }
    }

    /// The step that is reached from `self` when the calls return `results`,
    /// in order.
    pub open spec fn after(self, results: Seq<i64>) -> Step
        decreases results.len(),
    {
        if results.len() == 0 {
            self
        } else {
            self.after(results.drop_last()).next(results.last())
        }
    }

    /// The call of the step can fail.
    pub open spec fn can_fail(self) -> bool {
        self is ForkChild || self is StartSession || self is ForkGrandchild
            || self is ChangeDirectory || self is WritePidFile
    }
}

impl Failure {
    /// What is said of the failure.
    pub open spec fn message(self) -> Seq<char> {
        match self {
            Failure::ForkChild => "Could not fork child process"@,
            Failure::StartSession => "Could not setsid"@,
            Failure::ForkGrandchild => "Could not fork grandchild process"@,
            Failure::ChangeDirectory => "Could not chdir to root"@,
            Failure::WritePidFile => "Could not write the pid file"@,
        }
    }

    /// What is said of the failure.
    pub fn to_string(&self) -> (text: String)
        ensures
            text@ == self.message(),
    {
        match self {
            Failure::ForkChild => String::from_str("Could not fork child process"),
            Failure::StartSession => String::from_str("Could not setsid"),
            Failure::ForkGrandchild => String::from_str("Could not fork grandchild process"),
            Failure::ChangeDirectory => String::from_str("Could not chdir to root"),
            Failure::WritePidFile => String::from_str("Could not write the pid file"),
        }
    }
}

/// The first step into the background.
pub fn daemonize() -> (step: Step)
    ensures
        step == Step::first(),
{
    Step::SetUmask
}

/// The step after `step`, whose call returned `result`.
pub fn daemonize_next(step: Step, result: i64) -> (next: Step)
    ensures
        next == step.next(result),
{
    match step {
        Step::SetUmask => Step::ForkChild,
        Step::ForkChild => {
            if result < 0 {
                Step::ExitFailure(Failure::ForkChild)
            } else if result > 0 {
                Step::ExitSuccess(Some(result))
            } else {
                Step::StartSession
            }
        },
        Step::StartSession => {
            if result < 0 {
                Step::ExitFailure(Failure::StartSession)
            } else {
                Step::ForkGrandchild
            }
        },
        Step::ForkGrandchild => {
            if result < 0 {
                Step::ExitFailure(Failure::ForkGrandchild)
            } else if result > 0 {
                Step::ExitSuccess(None)
            } else {
                Step::ChangeDirectory
            }
        },
        Step::ChangeDirectory => {
            if result < 0 {
                Step::ExitFailure(Failure::ChangeDirectory)
            } else {
                Step::CloseStreams
            }
        },
        Step::CloseStreams => Step::WritePidFile,
        Step::WritePidFile => {
            if result < 0 {
                Step::ExitFailure(Failure::WritePidFile)
            } else {
                Step::Run
            }
        },
        Step::Run => Step::Run,
        Step::ExitSuccess(pid) => Step::ExitSuccess(pid),
        Step::ExitFailure(failure) => Step::ExitFailure(failure),
    }
}

/// A call that can fail and does, ends the way with a failure.
pub proof fn a_failed_call_is_fatal(step: Step, result: i64)
    requires
        step.can_fail(),
        result < 0,
    ensures
        step.next(result) is ExitFailure,
{
}

/// Nothing follows a last step.
pub proof fn a_last_step_stays(step: Step, result: i64)
    requires
        step.is_last(),
    ensures
        step.next(result) == step,
{
}

/// The process runs as a daemon after seven calls, and only where both
/// forks returned 0 and no call failed: it is the grandchild.
pub proof fn only_the_grandchild_runs(results: Seq<i64>)
    requires
        results.len() == 7,
    ensures
        Step::first().after(results) is Run <==> {
            &&& results[1] == 0
            &&& results[2] >= 0
            &&& results[3] == 0
            &&& results[4] >= 0
            &&& results[6] >= 0
        },
{
    let r1 = results.take(1);
    let r2 = results.take(2);
    let r3 = results.take(3);
    let r4 = results.take(4);
    let r5 = results.take(5);
    let r6 = results.take(6);
    assert(r1.drop_last() =~= results.take(0));
    assert(r2.drop_last() =~= r1);
    assert(r3.drop_last() =~= r2);
    assert(r4.drop_last() =~= r3);
    assert(r5.drop_last() =~= r4);
    assert(r6.drop_last() =~= r5);
    assert(results.drop_last() =~= r6);
    assert(Step::first().after(results.take(0)) == Step::first());
    assert(Step::first().after(r1) == Step::ForkChild);
    assert(Step::first().after(r2) == Step::ForkChild.next(results[1]));
    assert(Step::first().after(r3) == Step::first().after(r2).next(results[2]));
    assert(Step::first().after(r4) == Step::first().after(r3).next(results[3]));
    assert(Step::first().after(r5) == Step::first().after(r4).next(results[4]));
    assert(Step::first().after(r6) == Step::first().after(r5).next(results[5]));
    assert(Step::first().after(results) == Step::first().after(r6).next(results[6]));
}

} // verus!
