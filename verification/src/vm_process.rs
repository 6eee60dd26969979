//! The process of the guest: forking it off, waiting for it, and what its end means.

use crate::error;
use crate::error::Error;
use crate::text;
use vstd::prelude::*;
use vstd::string::StringExecFns;

verus! {

/// `libc::WIFEXITED`: whether a wait status is that of a process that exited.
pub assume_specification[ libc::WIFEXITED ](status: libc::c_int) -> (b: bool)
    ensures
        b == (status & 0x7f == 0),
;

/// `libc::WEXITSTATUS`: the code with which a process exited.
pub assume_specification[ libc::WEXITSTATUS ](status: libc::c_int) -> (code: libc::c_int)
    ensures
        code == (status >> 8) & 0xff,
;

/// `libc::WIFSIGNALED`: whether a wait status is that of a process that a signal ended.
pub assume_specification[ libc::WIFSIGNALED ](status: libc::c_int) -> (b: bool)
    ensures
        b == (status & 0x7f != 0 && status & 0x7f != 0x7f),
;

/// `libc::WTERMSIG`: the signal that ended a process.
pub assume_specification[ libc::WTERMSIG ](status: libc::c_int) -> (signal: libc::c_int)
    ensures
        signal == status & 0x7f,
;

/// The signal that ended the process whose wait status is `status`, if one did.
pub open spec fn signal_in(status: i32) -> Option<i32> {
    let low = status & 0x7f;
    if low != 0 && low != 0x7f {
        Some(low)
    } else {
        None
    }
}

/// The exit code that a guest's wait status stands for: its own where it exited, and 128 more than the
/// signal where one ended it.
pub open spec fn exit_of(status: i32) -> Result<u8, Seq<char>> {
    if status & 0x7f == 0 {
        Ok(((status >> 8) & 0xff) as u8)
    } else {
        match signal_in(status) {
            Some(signal) => Ok((128 + signal) as u8),
            None => Err("VM exited with unknown status "@ + text::decimal_int(status as int)),
        }
    }
}

/// The signal that ended the process whose wait status is `status`, if one did.
pub fn signal_of(status: i32) -> (r: Option<i32>)
    ensures
        r == signal_in(status),
{
    if libc::WIFSIGNALED(status) {
        Some(libc::WTERMSIG(status))
    } else {
        None
    }
}

/// The exit code that a guest's wait status stands for.
pub fn exit_code(status: i32) -> (r: Result<u8, Error>)
    ensures
        match exit_of(status) {
            Ok(code) => r == Ok::<u8, Error>(code),
            Err(text) => r matches Err(e) && e@ == text,
        },
{
    if libc::WIFEXITED(status) {
        return Ok(libc::WEXITSTATUS(status) as u8);
    }
    match signal_of(status) {
        Some(signal) => {
            assert(0 <= (status & 0x7f) <= 0x7f) by (bit_vector);
            Ok(128u8 + signal as u8)
        },
        None => Err(
            Error::new(
                "VM exited with unknown status ".to_owned().concat(
                    text::decimal_int_text(status).as_str(),
                ),
            ),
        ),
    }
}

/// What a call of the system returned, and the system's text for the last error.
pub struct Returned {
    pub value: i32,
    pub error: String,
}

/// The code with which the guest's process exits where the guest could not be started.
pub const SETUP_FAILED: i32 = 127;

/// What the guest's process tells the user where the guest could not be started.
pub fn setup_report(e: &Error) -> (s: String)
    ensures
        s@ == error::within("nixvm: child VM setup failed"@, e@),
{
    "nixvm: child VM setup failed".to_owned().concat(": ").concat(e.text.as_str())
}

/// An operation that running the guest asks of the host.
#[derive(Clone, Copy, PartialEq, Eq, Structural, Debug)]
pub enum RunOp {
    /// `fork`.
    Fork,
    /// In the guest's process: configuring the guest and starting it, which returns only where the guest
    /// could not be started.
    BecomeGuest,
    /// `_exit`: ending the guest's process at once, without cleaning up, which is left to the process
    /// that waits for it.
    Exit { code: i32 },
    /// `open`, for reading from `/dev/null`.
    OpenNull,
    /// `dup2`, onto the standard input, which is left to the guest.
    RedirectInput { from: i32 },
    /// `close`.
    Close { file: i32 },
    /// `waitpid`, for the guest's process.
    Wait { pid: i32 },
}

/// How far the guest's run has come.
#[derive(Clone, Copy, PartialEq, Eq, Structural, Debug)]
pub enum RunStage {
    Forking,
    /// This is the guest's process.
    Guest,
    /// This is the guest's process, in which the guest could not be started.
    Unstarted,
    Opening { pid: i32 },
    Redirecting { pid: i32, file: i32 },
    Closing { pid: i32, file: i32 },
    Waiting { pid: i32 },
    Over,
}

/// The operation of a stage, where it has one.
pub open spec fn op_of(stage: RunStage) -> Option<RunOp> {
    match stage {
        RunStage::Forking => Some(RunOp::Fork),
        RunStage::Guest => Some(RunOp::BecomeGuest),
        RunStage::Unstarted => Some(RunOp::Exit { code: SETUP_FAILED }),
        RunStage::Opening { pid } => Some(RunOp::OpenNull),
        RunStage::Redirecting { pid, file } => Some(RunOp::RedirectInput { from: file }),
        RunStage::Closing { pid, file } => Some(RunOp::Close { file }),
        RunStage::Waiting { pid } => Some(RunOp::Wait { pid }),
        RunStage::Over => None,
    }
}

/// The stage that follows a stage whose operation returned `value`.
pub open spec fn next_stage(stage: RunStage, value: i32) -> RunStage {
    match stage {
        RunStage::Forking => if value < 0 {
            RunStage::Over
        } else if value == 0 {
            RunStage::Guest
        } else {
            RunStage::Opening { pid: value }
        },
        RunStage::Guest => RunStage::Unstarted,
        RunStage::Unstarted => RunStage::Unstarted,
        RunStage::Opening { pid } => if value >= 0 {
            RunStage::Redirecting { pid, file: value }
        } else {
            RunStage::Waiting { pid }
        },
        RunStage::Redirecting { pid, file } => RunStage::Closing { pid, file },
        RunStage::Closing { pid, file } => RunStage::Waiting { pid },
        RunStage::Waiting { pid } => RunStage::Over,
        RunStage::Over => RunStage::Over,
    }
}

/// The end of the run when the operation of a stage returned `value`, left the error `cause` and gave
/// the wait status `status`, if that is the end.
pub open spec fn verdict_in(stage: RunStage, value: i32, cause: Seq<char>, status: i32) -> Option<
    Result<u8, Seq<char>>,
> {
    match stage {
        RunStage::Forking => if value < 0 {
            Some(Err(error::within("fork"@, cause)))
        } else {
            None
        },
        RunStage::Waiting { pid } => if value < 0 {
            Some(Err(error::within("waitpid"@, cause)))
        } else {
            Some(exit_of(status))
        },
        _ => None,
    }
}

/// The run of the guest in a process of its own.
pub struct VmRun {
    pub stage: RunStage,
    pub verdict: Option<Result<u8, Error>>,
}

/// The model of the end of a run.
pub open spec fn verdict_model(v: Option<Result<u8, Error>>) -> Option<Result<u8, Seq<char>>> {
    match v {
        None => None,
        Some(Ok(code)) => Some(Ok(code)),
        Some(Err(e)) => Some(Err(e@)),
    }
}

impl VmRun {
    /// Whether the end of the run is known exactly where it is over.
    pub open spec fn wf(&self) -> bool {
        self.verdict is Some <==> self.stage is Over
    }

    /// A run that is about to begin.
    pub fn fork_and_run_vm() -> (r: VmRun)
        ensures
            r.wf(),
            r.stage is Forking,
    {
        VmRun { stage: RunStage::Forking, verdict: None }
    }

    /// The operation to carry out now.  There is none once the run is over.
    pub fn current(&self) -> (op: Option<RunOp>)
        ensures
            op == op_of(self.stage),
    {
        match self.stage {
            RunStage::Forking => Some(RunOp::Fork),
            RunStage::Guest => Some(RunOp::BecomeGuest),
            RunStage::Unstarted => Some(RunOp::Exit { code: SETUP_FAILED }),
            RunStage::Opening { pid } => Some(RunOp::OpenNull),
            RunStage::Redirecting { pid, file } => Some(RunOp::RedirectInput { from: file }),
            RunStage::Closing { pid, file } => Some(RunOp::Close { file }),
            RunStage::Waiting { pid } => Some(RunOp::Wait { pid }),
            RunStage::Over => None,
        }
    }

    /// Takes note of what the current operation returned.  `status` is the wait status that
    /// `waitpid` gave.
    pub fn answered(&mut self, returned: Returned, status: i32)
        requires
            old(self).wf(),
            !(old(self).stage is Over),
        ensures
            final(self).wf(),
            final(self).stage == next_stage(old(self).stage, returned.value),
            verdict_model(final(self).verdict) == verdict_in(
                old(self).stage,
                returned.value,
                returned.error@,
                status,
            ),
    {
        let value: i32 = returned.value;
        match self.stage {
            RunStage::Forking => {
                if value < 0 {
                    self.verdict = Some(Err(Error::of("fork", returned.error.as_str())));
                    self.stage = RunStage::Over;
                } else if value == 0 {
                    self.stage = RunStage::Guest;
                } else {
                    self.stage = RunStage::Opening { pid: value };
                }
            },
            RunStage::Guest => {
                self.stage = RunStage::Unstarted;
            },
            RunStage::Unstarted => {},
            RunStage::Opening { pid } => {
                self.stage = if value >= 0 {
                    RunStage::Redirecting { pid, file: value }
                } else {
                    RunStage::Waiting { pid }
                };
            },
            RunStage::Redirecting { pid, file } => {
                self.stage = RunStage::Closing { pid, file };
            },
            RunStage::Closing { pid, file } => {
                self.stage = RunStage::Waiting { pid };
            },
            RunStage::Waiting { pid } => {
                self.verdict = Some(
                    if value < 0 {
                        Err(Error::of("waitpid", returned.error.as_str()))
                    } else {
                        exit_code(status)
                    },
                );
                self.stage = RunStage::Over;
            },
            RunStage::Over => {},
        }
    }

    /// The guest's exit code, or why it has none.
    pub fn finish(self) -> (r: Result<u8, Error>)
        requires
            self.wf(),
            self.stage is Over,
        ensures
            self.verdict == Some(r),
    {
        self.verdict.unwrap()
    }
}

/// A guest that exits with a code hands it on, and one that a signal ends is told apart from it: its
/// code is above 128.
pub proof fn law_exit_codes_are_handed_on(code: u8, signal: u8)
    requires
        0 < signal < 127,
    ensures
        exit_of((code as i32) << 8) == Ok::<u8, Seq<char>>(code),
        exit_of(signal as i32) == Ok::<u8, Seq<char>>((128 + signal) as u8),
{
    let exited = (code as i32) << 8;
    assert(exited & 0x7f == 0 && ((exited >> 8) & 0xff) as u8 == code) by (bit_vector)
        requires
            exited == (code as i32) << 8,
    ;
    let killed = signal as i32;
    assert(killed & 0x7f == killed) by (bit_vector)
        requires
            0 < killed < 127,
    ;
}

/// Whatever becomes of the standard input, the process that forked the guest off waits for that guest,
/// and closes what it opened before.
pub proof fn law_parent_waits_for_the_guest(pid: i32, opened: i32, redirected: i32, closed: i32)
    requires
        pid > 0,
    ensures
        ({
            let forked = next_stage(RunStage::Forking, pid);
            let after = next_stage(forked, opened);
            &&& op_of(forked) == Some(RunOp::OpenNull)
            &&& opened < 0 ==> op_of(after) == Some(RunOp::Wait { pid })
            &&& opened >= 0 ==> {
                &&& op_of(after) == Some(RunOp::RedirectInput { from: opened })
                &&& op_of(next_stage(after, redirected)) == Some(RunOp::Close { file: opened })
                &&& op_of(next_stage(next_stage(after, redirected), closed)) == Some(
                    RunOp::Wait { pid },
                )
            }
        }),
{
}

/// The guest's process never goes on with the launch: once the guest could not be started, whatever its
/// setup came to, the process exits with a code that the process which waits for it hands on.
pub proof fn law_unstarted_guests_exit(set_up: i32, exited: i32)
    ensures
        op_of(next_stage(RunStage::Forking, 0)) == Some(RunOp::BecomeGuest),
        op_of(next_stage(RunStage::Guest, set_up)) == Some(RunOp::Exit { code: SETUP_FAILED }),
        next_stage(RunStage::Unstarted, exited) == RunStage::Unstarted,
        exit_of((SETUP_FAILED << 8) as i32) == Ok::<u8, Seq<char>>(127),
{
    assert(127i32 << 8 == 32512i32) by (bit_vector);
    assert(32512i32 & 0x7f == 0 && ((32512i32 >> 8) & 0xff) as u8 == 127u8) by (bit_vector);
}

/// The exit code of a guest is told from its wait status alone: the code that it exited with, in the second
/// byte, where the first byte names no signal; 128 more than the signal where it names one, whether or not
/// memory was dumped; and none where the guest was only stopped.
pub proof fn law_wait_statuses_are_told_apart(code: u8, signal: u8, dumped: bool)
    requires
        signal <= 127,
    ensures
        ({
            let flag: i32 = if dumped {
                128
            } else {
                0
            };
            let status = ((code as i32) << 8) | flag | (signal as i32);
            &&& signal == 0 ==> exit_of(status) == Ok::<u8, Seq<char>>(code)
            &&& 0 < signal < 127 ==> exit_of(status) == Ok::<u8, Seq<char>>((128 + signal) as u8)
            &&& signal == 127 ==> exit_of(status) is Err
            &&& signal_in(status) == (if 0 < signal < 127 {
                Some(signal as i32)
            } else {
                None
            })
        }),
{
    let flag: i32 = if dumped {
        128
    } else {
        0
    };
    let status = ((code as i32) << 8) | flag | (signal as i32);
    assert(status & 0x7f == signal as i32 && ((status >> 8) & 0xff) as u8 == code) by (bit_vector)
        requires
            status == ((code as i32) << 8) | flag | (signal as i32),
            flag == 0 || flag == 128,
            signal <= 127,
    ;
}

/// A guest that cannot be forked off, or waited for, has no exit code: the error ends in the system's text.
pub proof fn law_failed_processes_are_told(pid: i32, value: i32, cause: Seq<char>, status: i32)
    ensures
        value < 0 ==> (verdict_in(RunStage::Forking, value, cause, status) matches Some(Err(e))
            && e.len() > cause.len() && e.skip(e.len() - cause.len()) == cause),
        value >= 0 ==> verdict_in(RunStage::Forking, value, cause, status) is None,
        value < 0 ==> (verdict_in(RunStage::Waiting { pid }, value, cause, status) matches Some(
            Err(e),
        ) && e.len() > cause.len() && e.skip(e.len() - cause.len()) == cause),
        value >= 0 ==> verdict_in(RunStage::Waiting { pid }, value, cause, status) == Some(
            exit_of(status),
        ),
        forall|stage: RunStage|
            !(stage is Forking) && !(stage is Waiting) ==> #[trigger] verdict_in(
                stage,
                value,
                cause,
                status,
            ) is None,
{
    error::law_causes_are_told_whole("fork"@, cause);
    error::law_causes_are_told_whole("waitpid"@, cause);
}

/// A wait status that stands for no exit code is told, in decimal.
pub proof fn law_unknown_statuses_are_told(status: i32)
    ensures
        exit_of(status) matches Err(e) ==> e.take(30) == "VM exited with unknown status "@ && e.skip(
            30,
        ) == text::decimal_int(status as int),
{
    reveal_strlit("VM exited with unknown status ");
    if let Err(e) = exit_of(status) {
        assert(e.take(30) =~= "VM exited with unknown status "@);
        assert(e.skip(30) =~= text::decimal_int(status as int));
    }
}

} // verus!
