//! Laws on models: the model of a value holds all of the value, so that what is stated of models is stated
//! of what the library hands out and takes in.

use crate::boot::BootInputs;
use crate::course::{ActionModel, Event};
use crate::daemon::DetachOp;
use crate::error::Error;
use crate::gc_root::GcRoot;
use crate::host;
use crate::host::FileOp;
use crate::krun;
use crate::krun::KrunOp;
use crate::launch_id::LaunchId;
use crate::nix;
use crate::nix::{Call, Check, Op};
use crate::overlay;
use crate::overlay::Overlay;
use crate::path::HostPath;
use crate::plan::{OnFailure, Plan, Step};
use crate::realise::{Realised, Reply};
use crate::session;
use crate::session::Action;
use crate::vmnet::{NetEvent, StartParams};
use vstd::prelude::*;

verus! {

/// The model of a path, an error or an identity is what it consists of.
pub proof fn law_plain_values_are_told_whole(p: HostPath, e: Error, id: LaunchId)
    ensures
        p@ == p.bytes@,
        e@ == e.text@,
        id@ == id.bytes@,
{
}

/// The model of what a launch holds names every part of it.
pub proof fn law_holdings_are_told_whole(
    boot: BootInputs,
    overlay: Overlay,
    root: GcRoot,
    system: Realised,
)
    ensures
        boot@.kernel == boot.kernel.bytes@,
        boot@.initrd == boot.initrd.bytes@,
        boot@.cmdline == boot.cmdline@,
        overlay@.path == overlay.path.bytes@,
        overlay@.mode == overlay.mode,
        root@.dir == root.dir.bytes@,
        root@.ephemeral == root.ephemeral,
        system@.image_file == system.image_file@,
        system@.toplevel == system.toplevel@,
        system@.closure_info == system.closure_info@,
{
}

/// The model of an operation on files is the same operation, on the same files and with the same contents.
pub proof fn law_file_operations_are_told_whole(op: FileOp<HostPath, String>)
    ensures
        match op {
            FileOp::MakeDirs(p) => op@ matches FileOp::MakeDirs(q) && q == p.bytes@,
            FileOp::RemoveFile(p) => op@ matches FileOp::RemoveFile(q) && q == p.bytes@,
            FileOp::CopyFile { from, to } => op@ matches FileOp::CopyFile { from: f, to: t } && f
                == from.bytes@ && t == to.bytes@,
            FileOp::Inspect(p) => op@ matches FileOp::Inspect(q) && q == p.bytes@,
            FileOp::SetMode { of, mode } => op@ matches FileOp::SetMode { of: o, mode: m } && o
                == of.bytes@ && m == mode,
            FileOp::WriteText { to, text } => op@ matches FileOp::WriteText { to: t, text: x } && t
                == to.bytes@ && x == text@,
            FileOp::AddRoot { closure_info, link } => op@ matches FileOp::AddRoot {
                closure_info: c,
                link: l,
            } && c == closure_info.bytes@ && l == link.bytes@,
        },
{
}

/// The model of a plan has the same steps in the same order, each with what its failure means, and is as
/// far as the plan.
pub proof fn law_plans_are_told_whole<T: View>(p: Plan<T>, k: int)
    ensures
        p@.steps.len() == p.steps@.len(),
        p@.next == p.next,
        p@.end is Some <==> p.ending is Some,
        p.ending matches Some(e) ==> p@.end == Some(e.text@),
        0 <= k < p.steps@.len() ==> {
            let step = p.steps@[k];
            &&& p@.steps[k].0 == step.op@
            &&& match step.on_failure {
                OnFailure::Ignore => p@.steps[k].1 is Ignore,
                OnFailure::Fail => p@.steps[k].1 is Fail,
                OnFailure::FailIn(what) => p@.steps[k].1 == OnFailure::FailIn(what@),
            }
        },
{
}

/// Lists of steps have the models of their steps, in their order.
pub proof fn law_steps_are_told_in_order(
    files: Seq<Step<FileOp<HostPath, String>>>,
    calls: Seq<Step<KrunOp<String>>>,
    script: Seq<Call<String>>,
    k: int,
)
    ensures
        host::models(files).len() == files.len(),
        krun::models(calls).len() == calls.len(),
        nix::script(script).len() == script.len(),
        0 <= k < files.len() ==> host::models(files)[k].0 == files[k].op@,
        0 <= k < calls.len() ==> krun::models(calls)[k].0 == calls[k].op@,
        0 <= k < script.len() ==> nix::script(script)[k].op == script[k].op@ && nix::script(
            script,
        )[k].check == script[k].check@ && nix::script(script)[k].gives == script[k].gives,
{
}

/// The model of a call into libkrun is the same call with the same arguments.
pub proof fn law_calls_into_libkrun_are_told_whole(op: KrunOp<String>)
    ensures
        krun::is_same_call(op@, op@),
        match op {
            KrunOp::SetLogLevel { level } => op@ matches KrunOp::SetLogLevel { level: l } && l
                == level,
            KrunOp::CreateContext => op@ is CreateContext,
            KrunOp::SetVmConfig { cpus, memory_mib } => op@ matches KrunOp::SetVmConfig {
                cpus: c,
                memory_mib: m,
            } && c == cpus && m == memory_mib,
            KrunOp::SetKernel { kernel, initrd, cmdline } => op@ matches KrunOp::SetKernel {
                kernel: k,
                initrd: i,
                cmdline: c,
            } && k == kernel@ && i == initrd@ && c == cmdline@,
            KrunOp::SetRootDisk { disk } => op@ matches KrunOp::SetRootDisk { disk: d } && d
                == disk@,
            KrunOp::ShareDirectory { tag, dir, shm_size, read_only } => op@ matches KrunOp::ShareDirectory {
                tag: t,
                dir: d,
                shm_size: s,
                read_only: r,
            } && t == tag@ && d == dir@ && s == shm_size && r == read_only,
            KrunOp::AddNetwork { socket, mac, features, flags } => op@ matches KrunOp::AddNetwork {
                socket: s,
                mac: m,
                features: f,
                flags: g,
            } && s == socket && m == mac && f == features && g == flags,
            KrunOp::DisableVsock => op@ is DisableVsock,
            KrunOp::StartEnter => op@ is StartEnter,
        },
{
}

/// The model of an operation of detaching is the same operation with the same arguments.
pub proof fn law_detaching_operations_are_told_whole(op: DetachOp<HostPath, String>)
    ensures
        match op {
            DetachOp::MakeDirs(p) => op@ matches DetachOp::MakeDirs(q) && q == p.bytes@,
            DetachOp::Announce(s) => op@ matches DetachOp::Announce(t) && t == s@,
            DetachOp::Fork => op@ is Fork,
            DetachOp::Exit { code } => op@ matches DetachOp::Exit { code: c } && c == code,
            DetachOp::NewSession => op@ is NewSession,
            DetachOp::OpenLog { log, mode } => op@ matches DetachOp::OpenLog { log: l, mode: m }
                && l == log.bytes@ && m == mode,
            DetachOp::OpenNull => op@ is OpenNull,
            DetachOp::Redirect { stream, to } => op@ matches DetachOp::Redirect {
                stream: s,
                to: t,
            } && s == stream && t == to,
        },
{
}

/// The model of a call into the Nix library is the same call with the same arguments.
pub proof fn law_calls_into_nix_are_told_whole(op: Op<String>)
    ensures
        match op {
            Op::CreateContext => op@ is CreateContext,
            Op::InitUtil => op@ is InitUtil,
            Op::Apply { name, value } => op@ matches Op::Apply { name: n, value: v } && n == name@
                && v == value@,
            Op::InitStore => op@ is InitStore,
            Op::InitExpr => op@ is InitExpr,
            Op::OpenStore { uri } => op@ matches Op::OpenStore { uri: u } && u == uri@,
            Op::NewFlakeSettings => op@ is NewFlakeSettings,
            Op::NewFetchSettings => op@ is NewFetchSettings,
            Op::NewBuilder => op@ is NewBuilder,
            Op::LoadBuilder => op@ is LoadBuilder,
            Op::AddFlakeSettings => op@ is AddFlakeSettings,
            Op::BuildState => op@ is BuildState,
            Op::NewParseFlags => op@ is NewParseFlags,
            Op::WorkingDirectory => op@ is WorkingDirectory,
            Op::SetBaseDirectory { dir } => op@ matches Op::SetBaseDirectory { dir: d } && d
                == dir@,
            Op::ParseReference { uri, into } => op@ matches Op::ParseReference { uri: u, into: i }
                && u == uri@ && i == into,
            Op::NewLockFlags => op@ is NewLockFlags,
            Op::LockVirtually => op@ is LockVirtually,
            Op::AddOverride { input, reference } => op@ matches Op::AddOverride {
                input: i,
                reference: r,
            } && i == input@ && r == reference,
            Op::LockFlake => op@ is LockFlake,
            Op::OutputAttrs => op@ is OutputAttrs,
            Op::Force { of } => op@ matches Op::Force { of: o } && o == of,
            Op::GetAttr { of, name, into } => op@ matches Op::GetAttr { of: o, name: n, into: i }
                && o == of && n == name@ && i == into,
            Op::Retain { of, into } => op@ matches Op::Retain { of: o, into: i } && o == of && i
                == into,
            Op::ReadString { of } => op@ matches Op::ReadString { of: o } && o == of,
            Op::ParseStorePath { path } => op@ matches Op::ParseStorePath { path: p } && p == path@,
            Op::RealisePath => op@ is RealisePath,
            Op::Free { handle } => op@ matches Op::Free { handle: h } && h == handle,
            Op::Refuse { text } => op@ matches Op::Refuse { text: t } && t == text@,
        },
{
}

/// The model of how a call can fail has the same texts.
pub proof fn law_checks_are_told_whole(check: Check<String>)
    ensures
        match check {
            Check::Never => check@ is Never,
            Check::Null { null } => check@ matches Check::Null { null: n } && n == null@,
            Check::Status { what } => check@ matches Check::Status { what: w } && w == what@,
            Check::StatusOrNull { what, null } => check@ matches Check::StatusOrNull {
                what: w,
                null: n,
            } && w == what@ && n == null@,
            Check::Tolerated { what } => check@ matches Check::Tolerated { what: w } && w == what@,
            Check::Directory => check@ is Directory,
            Check::Text { what } => check@ matches Check::Text { what: w } && w == what@,
            Check::Reference { what, null, fragment } => check@ matches Check::Reference {
                what: w,
                null: n,
                fragment: f,
            } && w == what@ && n == null@ && f == fragment@,
        },
{
}

/// The model of a reply of the Nix library has everything that the reply has.
pub proof fn law_replies_of_nix_are_told_whole(reply: Reply)
    ensures
        reply@.rc == reply.rc,
        reply@.status.code == reply.status.code,
        reply@.status.message is Some <==> reply.status.message is Some,
        reply.status.message matches Some(m) ==> reply@.status.message == Some(m@),
        reply@.null == reply.null,
        reply@.text == reply.text@,
        reply@.host_error is Some <==> reply.host_error is Some,
        reply.host_error matches Some(e) ==> reply@.host_error == Some(e@),
{
}

/// The model of what came of an operation of the network has everything that is known of it.
pub proof fn law_events_of_the_network_are_told_whole(event: NetEvent<String>)
    ensures
        match event {
            NetEvent::Done => event@ is Done,
            NetEvent::Null => event@ is Null,
            NetEvent::Failed(cause) => event@ matches NetEvent::Failed(c) && c == cause@,
            NetEvent::Status(status) => event@ matches NetEvent::Status(s) && s == status,
            NetEvent::Started(params) => event@ matches NetEvent::Started(p) && p == params,
        },
{
}

/// The model of what a launch asks for is the same action on the same files.
pub proof fn law_actions_are_told_whole(action: Action<'_>)
    ensures
        match action {
            Action::Realise => action@ is Realise,
            Action::Inspect(p) => action@ matches ActionModel::Inspect(q) && q == p.bytes@,
            Action::ReadText(p) => action@ matches ActionModel::ReadText(q) && q == p.bytes@,
            Action::Probe(p) => action@ matches ActionModel::Probe(q) && q == p.bytes@,
            Action::ReadBoot(files) => action@ matches ActionModel::ReadBoot {
                kernel,
                initrd,
                params,
            } && kernel == files.kernel.bytes@ && initrd == files.initrd.bytes@ && params
                == files.params.bytes@,
            Action::Perform(op) => action@ matches ActionModel::Perform(q) && q == op@,
            Action::Hash(p) => action@ matches ActionModel::Hash(q) && q == p.bytes@,
            Action::Detach => action@ is Detach,
            Action::StartNet => action@ is StartNet,
            Action::EnterTty => action@ is EnterTty,
            Action::RunGuest => action@ is RunGuest,
            Action::StopNet => action@ is StopNet,
            Action::RestoreTty => action@ is RestoreTty,
            Action::RemoveFile(p) => action@ matches ActionModel::RemoveFile(q) && q == p.bytes@,
            Action::RemoveTree(p) => action@ matches ActionModel::RemoveTree(q) && q == p.bytes@,
            Action::Finish => action@ is Finish,
        },
{
}

/// A launch is told what was read of the files that its system is booted from, and of the terminal.
pub proof fn law_boot_readings_are_told_whole(
    kernel: Result<HostPath, String>,
    initrd: Result<HostPath, String>,
    params: Result<String, String>,
    term: Option<String>,
)
    ensures
        session::boot_event(kernel, initrd, params, term) matches Event::BootRead {
            kernel: k,
            initrd: i,
            params: p,
            term: t,
        } && {
            &&& k is Ok <==> kernel is Ok
            &&& kernel matches Ok(v) ==> k->Ok_0 == v.bytes@
            &&& kernel matches Err(e) ==> k->Err_0 == e@
            &&& i is Ok <==> initrd is Ok
            &&& initrd matches Ok(v) ==> i->Ok_0 == v.bytes@
            &&& initrd matches Err(e) ==> i->Err_0 == e@
            &&& p is Ok <==> params is Ok
            &&& params matches Ok(v) ==> p->Ok_0 == v@
            &&& params matches Err(e) ==> p->Err_0 == e@
            &&& t is Some <==> term is Some
            &&& term matches Some(v) ==> t->0 == v@
        },
{
}

/// A launch is told whether something failed, and of what came of it: the very code, parameters, permissions
/// or cause.
pub proof fn law_outcomes_are_told_whole(
    done: Result<(), Error>,
    exit: Result<u8, Error>,
    net: Result<StartParams, Error>,
    system: Result<Realised, Error>,
    found: Option<Result<u32, String>>,
)
    ensures
        session::failure_of(done) is Some <==> done is Err,
        done matches Err(e) ==> session::failure_of(done) == Some(e.text@),
        match exit {
            Ok(code) => session::exit_outcome(exit) == Ok::<u8, Seq<char>>(code),
            Err(e) => session::exit_outcome(exit) == Err::<u8, Seq<char>>(e.text@),
        },
        match net {
            Ok(params) => session::net_outcome(net) == Ok::<StartParams, Seq<char>>(params),
            Err(e) => session::net_outcome(net) == Err::<StartParams, Seq<char>>(e.text@),
        },
        session::outcome(system) is Ok <==> system is Ok,
        system matches Ok(s) ==> session::outcome(system)->Ok_0 == s@,
        system matches Err(e) ==> session::outcome(system)->Err_0 == e.text@,
        match found {
            None => overlay::found_model(found) is None,
            Some(Ok(mode)) => overlay::found_model(found) == Some(Ok::<u32, Seq<char>>(mode)),
            Some(Err(cause)) => overlay::found_model(found) == Some(
                Err::<u32, Seq<char>>(cause@),
            ),
        },
{
}

} // verus!
