//! Detaching from the terminal: the launch goes on in a daemon, and the user's shell gets its prompt
//! back.

use crate::error;
use crate::error::Error;
use crate::launch_id::LaunchId;
use crate::path;
use crate::path::HostPath;
use crate::state;
use crate::vm_process::Returned;
use vstd::prelude::*;
use vstd::string::StringExecFns;

verus! {

/// A file that a standard stream of the daemon is redirected to.
#[derive(Clone, Copy, PartialEq, Eq, Structural, Debug)]
pub enum Target {
    /// `/dev/null`.
    Null,
    /// The log of the launch.
    Log,
}

/// An operation that detaching asks of the host.
pub enum DetachOp<P, S> {
    /// Creating a directory, and those above it that are missing.
    MakeDirs(P),
    /// Telling the user.
    Announce(S),
    /// `fork`.
    Fork,
    /// Ending the process at once, without cleaning up: the daemon does that.
    Exit { code: i32 },
    /// `setsid`.
    NewSession,
    /// Opening the log for writing, as an empty file with these permissions.
    OpenLog { log: P, mode: u32 },
    /// Opening `/dev/null` for reading and writing.
    OpenNull,
    /// `dup2`.
    Redirect { stream: i32, to: Target },
}

impl View for DetachOp<HostPath, String> {
    type V = DetachOp<Seq<u8>, Seq<char>>;

    open spec fn view(&self) -> DetachOp<Seq<u8>, Seq<char>> {
        match self {
            DetachOp::MakeDirs(p) => DetachOp::MakeDirs(p@),
            DetachOp::Announce(s) => DetachOp::Announce(s@),
            DetachOp::Fork => DetachOp::Fork,
            DetachOp::Exit { code } => DetachOp::Exit { code: *code },
            DetachOp::NewSession => DetachOp::NewSession,
            DetachOp::OpenLog { log, mode } => DetachOp::OpenLog { log: log@, mode: *mode },
            DetachOp::OpenNull => DetachOp::OpenNull,
            DetachOp::Redirect { stream, to } => DetachOp::Redirect { stream: *stream, to: *to },
        }
    }
}

/// How far detaching has come.
#[derive(Clone, Copy, PartialEq, Eq, Structural, Debug)]
pub enum DetachStage {
    MakingDir,
    Announcing,
    FirstFork,
    /// This is the process that the user started, which ends.
    Starter,
    Leading,
    SecondFork,
    /// This is the leader of the new session, which ends.
    Leader,
    OpeningLog,
    OpeningNull,
    RedirectingInput,
    RedirectingOutput,
    RedirectingErrors,
    /// This is the daemon.
    Daemon,
    Failed,
}

/// The permissions of a log: its owner may read and write it.
pub const LOG_MODE: u32 = 0o600;

/// What the user is told.
pub open spec fn announcement(log: Seq<u8>) -> Seq<char> {
    "nixvm: detached, log: "@ + path::shown(log)
}

/// The operation of a stage, where it has one.
pub open spec fn op_of(stage: DetachStage, dir: Seq<u8>, log: Seq<u8>) -> Option<
    DetachOp<Seq<u8>, Seq<char>>,
> {
    match stage {
        DetachStage::MakingDir => Some(DetachOp::MakeDirs(dir)),
        DetachStage::Announcing => Some(DetachOp::Announce(announcement(log))),
        DetachStage::FirstFork => Some(DetachOp::Fork),
        DetachStage::Starter => Some(DetachOp::Exit { code: 0 }),
        DetachStage::Leading => Some(DetachOp::NewSession),
        DetachStage::SecondFork => Some(DetachOp::Fork),
        DetachStage::Leader => Some(DetachOp::Exit { code: 0 }),
        DetachStage::OpeningLog => Some(DetachOp::OpenLog { log, mode: LOG_MODE }),
        DetachStage::OpeningNull => Some(DetachOp::OpenNull),
        DetachStage::RedirectingInput => Some(DetachOp::Redirect { stream: 0, to: Target::Null }),
        DetachStage::RedirectingOutput => Some(DetachOp::Redirect { stream: 1, to: Target::Log }),
        DetachStage::RedirectingErrors => Some(DetachOp::Redirect { stream: 2, to: Target::Log }),
        DetachStage::Daemon => None,
        DetachStage::Failed => None,
    }
}

/// The stage that follows a stage whose operation returned `value`, which is negative where the
/// operation failed.
pub open spec fn next_stage(stage: DetachStage, value: i32) -> DetachStage {
    match stage {
        DetachStage::Announcing => DetachStage::FirstFork,
        DetachStage::Starter => DetachStage::Starter,
        DetachStage::Leader => DetachStage::Leader,
        DetachStage::Daemon => DetachStage::Daemon,
        DetachStage::Failed => DetachStage::Failed,
        _ => if value < 0 {
            DetachStage::Failed
        } else {
            match stage {
                DetachStage::MakingDir => DetachStage::Announcing,
                DetachStage::FirstFork => if value > 0 {
                    DetachStage::Starter
                } else {
                    DetachStage::Leading
                },
                DetachStage::Leading => DetachStage::SecondFork,
                DetachStage::SecondFork => if value > 0 {
                    DetachStage::Leader
                } else {
                    DetachStage::OpeningLog
                },
                DetachStage::OpeningLog => DetachStage::OpeningNull,
                DetachStage::OpeningNull => DetachStage::RedirectingInput,
                DetachStage::RedirectingInput => DetachStage::RedirectingOutput,
                DetachStage::RedirectingOutput => DetachStage::RedirectingErrors,
                _ => DetachStage::Daemon,
            }
        },
    }
}

/// What the operation of a stage is called in errors.
pub open spec fn what_in(stage: DetachStage, dir: Seq<u8>, log: Seq<u8>) -> Seq<char> {
    match stage {
        DetachStage::MakingDir => "mkdir -p "@ + path::shown(dir),
        DetachStage::FirstFork => "first fork"@,
        DetachStage::Leading => "setsid"@,
        DetachStage::SecondFork => "second fork"@,
        DetachStage::OpeningLog => "open "@ + path::shown(log),
        DetachStage::OpeningNull => "open /dev/null"@,
        DetachStage::RedirectingInput => "dup2 stdin"@,
        DetachStage::RedirectingOutput => "dup2 stdout"@,
        DetachStage::RedirectingErrors => "dup2 stderr"@,
        _ => Seq::empty(),
    }
}

/// Whether the operation of a stage ends the process.
pub open spec fn ends_process(stage: DetachStage) -> bool {
    stage is Starter || stage is Leader
}

/// Whether nothing is left to do.
pub open spec fn is_over(stage: DetachStage) -> bool {
    stage is Daemon || stage is Failed
}

/// Detaching from the terminal.
pub struct Detach {
    pub stage: DetachStage,
    pub dir: HostPath,
    pub log: HostPath,
    pub error: Option<Error>,
}

impl Detach {
    /// Whether an error is known exactly where detaching failed.
    pub open spec fn wf(&self) -> bool {
        self.error is Some <==> self.stage is Failed
    }

    /// Detaching the launch `id`, whose log stands in the directory `state` of the state.
    pub fn detach_into_daemon(state: &HostPath, id: LaunchId) -> (d: Detach)
        ensures
            d.wf(),
            d.stage is MakingDir,
            d.dir@ == state::logs_of(state@),
            d.log@ == state::log_of(state@, id),
    {
        Detach {
            stage: DetachStage::MakingDir,
            dir: state::log_dir(state),
            log: state::log_path_for(state, id),
            error: None,
        }
    }

    /// The operation to carry out now.  There is none once the process is the daemon, or detaching
    /// failed.
    pub fn current(&self) -> (op: Option<DetachOp<HostPath, String>>)
        ensures
            match op_of(self.stage, self.dir@, self.log@) {
                Some(model) => op matches Some(o) && o@ == model,
                None => op is None,
            },
    {
        match self.stage {
            DetachStage::MakingDir => Some(DetachOp::MakeDirs(self.dir.clone())),
            DetachStage::Announcing => Some(
                DetachOp::Announce(
                    "nixvm: detached, log: ".to_owned().concat(self.log.show().as_str()),
                ),
            ),
            DetachStage::FirstFork => Some(DetachOp::Fork),
            DetachStage::Starter => Some(DetachOp::Exit { code: 0 }),
            DetachStage::Leading => Some(DetachOp::NewSession),
            DetachStage::SecondFork => Some(DetachOp::Fork),
            DetachStage::Leader => Some(DetachOp::Exit { code: 0 }),
            DetachStage::OpeningLog => Some(
                DetachOp::OpenLog { log: self.log.clone(), mode: LOG_MODE },
            ),
            DetachStage::OpeningNull => Some(DetachOp::OpenNull),
            DetachStage::RedirectingInput => Some(
                DetachOp::Redirect { stream: 0, to: Target::Null },
            ),
            DetachStage::RedirectingOutput => Some(
                DetachOp::Redirect { stream: 1, to: Target::Log },
            ),
            DetachStage::RedirectingErrors => Some(
                DetachOp::Redirect { stream: 2, to: Target::Log },
            ),
            DetachStage::Daemon => None,
            DetachStage::Failed => None,
        }
    }

    fn what(&self) -> (s: String)
        ensures
            s@ == what_in(self.stage, self.dir@, self.log@),
    {
        match self.stage {
            DetachStage::MakingDir => "mkdir -p ".to_owned().concat(self.dir.show().as_str()),
            DetachStage::FirstFork => "first fork".to_owned(),
            DetachStage::Leading => "setsid".to_owned(),
            DetachStage::SecondFork => "second fork".to_owned(),
            DetachStage::OpeningLog => "open ".to_owned().concat(self.log.show().as_str()),
            DetachStage::OpeningNull => "open /dev/null".to_owned(),
            DetachStage::RedirectingInput => "dup2 stdin".to_owned(),
            DetachStage::RedirectingOutput => "dup2 stdout".to_owned(),
            DetachStage::RedirectingErrors => "dup2 stderr".to_owned(),
            _ => {
                let s = String::new();
                assert(s@ =~= Seq::<char>::empty());
                s
            },
        }
    }

    /// Takes note of what the current operation returned: a negative value where it failed.
    pub fn answered(&mut self, returned: Returned)
        requires
            old(self).wf(),
            !is_over(old(self).stage),
        ensures
            final(self).wf(),
            final(self).dir == old(self).dir,
            final(self).log == old(self).log,
            final(self).stage == next_stage(old(self).stage, returned.value),
            final(self).stage is Failed ==> (final(self).error matches Some(e) && e@
                == error::within(
                what_in(old(self).stage, old(self).dir@, old(self).log@),
                returned.error@,
            )),
    {
        let value: i32 = returned.value;
        let next = match self.stage {
            DetachStage::Announcing => DetachStage::FirstFork,
            DetachStage::Starter => DetachStage::Starter,
            DetachStage::Leader => DetachStage::Leader,
            _ => if value < 0 {
                DetachStage::Failed
            } else {
                match self.stage {
                    DetachStage::MakingDir => DetachStage::Announcing,
                    DetachStage::FirstFork => if value > 0 {
                        DetachStage::Starter
                    } else {
                        DetachStage::Leading
                    },
                    DetachStage::Leading => DetachStage::SecondFork,
                    DetachStage::SecondFork => if value > 0 {
                        DetachStage::Leader
                    } else {
                        DetachStage::OpeningLog
                    },
                    DetachStage::OpeningLog => DetachStage::OpeningNull,
                    DetachStage::OpeningNull => DetachStage::RedirectingInput,
                    DetachStage::RedirectingInput => DetachStage::RedirectingOutput,
                    DetachStage::RedirectingOutput => DetachStage::RedirectingErrors,
                    _ => DetachStage::Daemon,
                }
            },
        };
        if let DetachStage::Failed = next {
            let what = self.what();
            self.error = Some(Error::of(what.as_str(), returned.error.as_str()));
        }
        self.stage = next;
    }

    /// Whether the process is the daemon now, or why it is not.
    pub fn finish(self) -> (r: Result<(), Error>)
        requires
            self.wf(),
            is_over(self.stage),
        ensures
            r is Ok <==> self.stage is Daemon,
            r matches Err(e) ==> self.error == Some(e),
    {
        match self.error {
            Some(e) => Err(e),
            None => Ok(()),
        }
    }
}

/// The stage after operations that returned these values.
pub open spec fn stage_after(values: Seq<i32>) -> DetachStage
    decreases values.len(),
{
    if values.len() == 0 {
        DetachStage::MakingDir
    } else {
        next_stage(stage_after(values.drop_last()), values.last())
    }
}

proof fn lemma_stage_after(values: Seq<i32>)
    ensures
        match stage_after(values) {
            DetachStage::MakingDir => values.len() == 0,
            DetachStage::Announcing => values.len() == 1,
            DetachStage::FirstFork => values.len() == 2,
            DetachStage::Starter => values.len() >= 3 && values[2] > 0,
            DetachStage::Leading => values.len() == 3 && values[2] == 0,
            DetachStage::SecondFork => values.len() == 4 && values[2] == 0 && values[3] >= 0,
            DetachStage::Leader => values.len() >= 5 && values[2] == 0 && values[3] >= 0
                && values[4] > 0,
            DetachStage::Failed => true,
            _ => values.len() >= 5 && values[2] == 0 && values[3] >= 0 && values[4] == 0,
        },
        match stage_after(values) {
            DetachStage::OpeningLog => values.len() == 5,
            DetachStage::OpeningNull => values.len() == 6,
            DetachStage::RedirectingInput => values.len() == 7,
            DetachStage::RedirectingOutput => values.len() == 8,
            DetachStage::RedirectingErrors => values.len() == 9,
            DetachStage::Daemon => values.len() >= 10 && forall|i: int|
                5 <= i < 10 ==> values[i] >= 0,
            _ => true,
        },
        stage_after(values) is OpeningNull || stage_after(values) is RedirectingInput
            || stage_after(values) is RedirectingOutput || stage_after(values) is RedirectingErrors
            ==> forall|i: int| 5 <= i < values.len() ==> values[i] >= 0,
    decreases values.len(),
{
    if values.len() > 0 {
        let front = values.drop_last();
        lemma_stage_after(front);
        assert(forall|i: int| 0 <= i < front.len() ==> #[trigger] values[i] == front[i]);
    }
}

/// The daemon comes from a fork, a new session and a second fork: it leads no session, so that it can
/// never get hold of a terminal again.  Its standard streams have all been redirected.
pub proof fn law_daemon_leads_no_session(values: Seq<i32>)
    requires
        stage_after(values) is Daemon,
    ensures
        values.len() >= 10,
        values[2] == 0,
        values[3] >= 0,
        values[4] == 0,
        forall|i: int| 5 <= i < 10 ==> values[i] >= 0,
{
    lemma_stage_after(values);
}

/// Of the two processes that a fork leaves, one goes on and the other ends at once: the process that
/// the user started ends after the first fork, and the leader of the session after the second.
pub proof fn law_forks_leave_one_process(values: Seq<i32>, pid: i32, dir: Seq<u8>, log: Seq<u8>)
    requires
        op_of(stage_after(values), dir, log) == Some(DetachOp::<Seq<u8>, Seq<char>>::Fork),
        pid > 0,
    ensures
        ends_process(stage_after(values.push(pid))),
        !ends_process(stage_after(values.push(0))) && !is_over(stage_after(values.push(0))),
{
    assert(values.push(pid).drop_last() =~= values);
    assert(values.push(0).drop_last() =~= values);
}

/// Whether operations have returned what leads on towards the daemon: none has failed, telling the user
/// aside, and each fork was left in the new process.
pub open spec fn leads_on(values: Seq<i32>) -> bool {
    forall|i: int|
        0 <= i < values.len() ==> i == 1 || (#[trigger] values[i] >= 0 && (i == 2 || i == 4
            ==> values[i] == 0))
}

/// On the way to the daemon, the directory of the log is made, the user is told of the log, the process
/// forks, the new one leads a session and forks again, and the newest opens the log for its owner only and
/// the null device, and redirects its standard input to the null device and its standard output and errors
/// to the log: in this order, whatever else the operations return.
pub proof fn law_daemons_are_made_step_by_step(values: Seq<i32>, dir: Seq<u8>, log: Seq<u8>)
    requires
        values.len() <= 10,
        leads_on(values),
    ensures
        op_of(stage_after(values), dir, log) == (if values.len() == 0 {
            Some(DetachOp::<Seq<u8>, Seq<char>>::MakeDirs(dir))
        } else if values.len() == 1 {
            Some(DetachOp::Announce("nixvm: detached, log: "@ + path::shown(log)))
        } else if values.len() == 2 || values.len() == 4 {
            Some(DetachOp::Fork)
        } else if values.len() == 3 {
            Some(DetachOp::NewSession)
        } else if values.len() == 5 {
            Some(DetachOp::OpenLog { log, mode: 0o600 })
        } else if values.len() == 6 {
            Some(DetachOp::OpenNull)
        } else if values.len() == 7 {
            Some(DetachOp::Redirect { stream: 0, to: Target::Null })
        } else if values.len() == 8 {
            Some(DetachOp::Redirect { stream: 1, to: Target::Log })
        } else if values.len() == 9 {
            Some(DetachOp::Redirect { stream: 2, to: Target::Log })
        } else {
            None
        }),
        values.len() == 10 ==> stage_after(values) is Daemon,
{
    lemma_leading(values);
}

proof fn lemma_leading(values: Seq<i32>)
    requires
        values.len() <= 10,
        leads_on(values),
    ensures
        stage_after(values) == (if values.len() == 0 {
            DetachStage::MakingDir
        } else if values.len() == 1 {
            DetachStage::Announcing
        } else if values.len() == 2 {
            DetachStage::FirstFork
        } else if values.len() == 3 {
            DetachStage::Leading
        } else if values.len() == 4 {
            DetachStage::SecondFork
        } else if values.len() == 5 {
            DetachStage::OpeningLog
        } else if values.len() == 6 {
            DetachStage::OpeningNull
        } else if values.len() == 7 {
            DetachStage::RedirectingInput
        } else if values.len() == 8 {
            DetachStage::RedirectingOutput
        } else if values.len() == 9 {
            DetachStage::RedirectingErrors
        } else {
            DetachStage::Daemon
        }),
    decreases values.len(),
{
    if values.len() > 0 {
        let front = values.drop_last();
        assert forall|i: int| 0 <= i < front.len() implies i == 1 || (#[trigger] front[i] >= 0 && (i
            == 2 || i == 4 ==> front[i] == 0)) by {
            assert(values[i] == front[i]);
        }
        lemma_leading(front);
        assert(values.last() == values[values.len() - 1]);
    }
}

/// An operation on the way to the daemon that fails ends the way in an error; telling the user is no
/// operation that can fail.
pub proof fn law_failed_detaching_ends(values: Seq<i32>, value: i32)
    requires
        values.len() < 10,
        leads_on(values),
        value < 0,
    ensures
        values.len() != 1 ==> stage_after(values.push(value)) is Failed,
        values.len() == 1 ==> stage_after(values.push(value)) == stage_after(values.push(0)),
{
    lemma_leading(values);
    assert(values.push(value).drop_last() =~= values);
    assert(values.push(0).drop_last() =~= values);
}

/// A process that has forked off the next one ends at once, with success.
pub proof fn law_forking_processes_end(values: Seq<i32>, pid: i32, dir: Seq<u8>, log: Seq<u8>)
    requires
        leads_on(values),
        values.len() == 2 || values.len() == 4,
        pid > 0,
    ensures
        op_of(stage_after(values.push(pid)), dir, log) == Some(
            DetachOp::<Seq<u8>, Seq<char>>::Exit { code: 0 },
        ),
{
    lemma_leading(values);
    assert(values.push(pid).drop_last() =~= values);
}

/// What is said of a failure to make the directory of the log, or to open the log, names it in full; and no
/// two failures on the way to the daemon are told in the same words.
pub proof fn law_failed_detaching_is_told(dir: Seq<u8>, log: Seq<u8>)
    ensures
        what_in(DetachStage::MakingDir, dir, log).take(9) == "mkdir -p "@,
        what_in(DetachStage::MakingDir, dir, log).skip(9) == path::shown(dir),
        what_in(DetachStage::OpeningLog, dir, log).take(5) == "open "@,
        what_in(DetachStage::OpeningLog, dir, log).skip(5) == path::shown(log),
        what_in(DetachStage::FirstFork, dir, log) != what_in(DetachStage::SecondFork, dir, log),
        what_in(DetachStage::RedirectingInput, dir, log) != what_in(
            DetachStage::RedirectingOutput,
            dir,
            log,
        ),
        what_in(DetachStage::RedirectingOutput, dir, log) != what_in(
            DetachStage::RedirectingErrors,
            dir,
            log,
        ),
        what_in(DetachStage::RedirectingInput, dir, log) != what_in(
            DetachStage::RedirectingErrors,
            dir,
            log,
        ),
{
    reveal_strlit("mkdir -p ");
    reveal_strlit("open ");
    reveal_strlit("first fork");
    reveal_strlit("second fork");
    reveal_strlit("dup2 stdin");
    reveal_strlit("dup2 stdout");
    reveal_strlit("dup2 stderr");
    let made = what_in(DetachStage::MakingDir, dir, log);
    let opened = what_in(DetachStage::OpeningLog, dir, log);
    assert(made.take(9) =~= "mkdir -p "@);
    assert(made.skip(9) =~= path::shown(dir));
    assert(opened.take(5) =~= "open "@);
    assert(opened.skip(5) =~= path::shown(log));
    assert("first fork"@.len() != "second fork"@.len());
    assert("dup2 stdin"@.len() != "dup2 stdout"@.len());
    assert("dup2 stdin"@.len() != "dup2 stderr"@.len());
    assert("dup2 stdout"@[8] != "dup2 stderr"@[8]);
}

} // verus!
