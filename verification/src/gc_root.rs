//! Roots that keep the system of a running guest from being collected as garbage.

use crate::error;
use crate::error::Error;
use crate::host;
use crate::host::{FileOp, FilePlan};
use crate::launch_id::LaunchId;
use crate::path;
use crate::path::HostPath;
use crate::plan::{OnFailure, Step};
use crate::state;
use vstd::prelude::*;
use vstd::string::StringExecFns;

verus! {

/// The steps that keep `closure_info` by a link in the directory `dir`.
pub open spec fn root_steps(closure_info: Seq<char>, dir: Seq<u8>) -> Seq<host::FileStep> {
    seq![
        (FileOp::MakeDirs(dir), OnFailure::FailIn("mkdir -p "@ + path::shown(dir))),
        (
            FileOp::AddRoot {
                closure_info: path::utf8(closure_info),
                link: path::join(dir, path::utf8("closure-info"@)),
            },
            OnFailure::Fail,
        ),
    ]
}

/// The plan that keeps `closure_info`, and with it the whole system, by a link in the directory `dir`.
pub fn add_gc_root(closure_info: &str, dir: &HostPath) -> (p: FilePlan)
    ensures
        host::begins(p, root_steps(closure_info@, dir@)),
{
    let mut steps = Vec::new();
    let what = "mkdir -p ".to_owned().concat(dir.show().as_str());
    host::push(&mut steps, Step::within(FileOp::MakeDirs(dir.clone()), what));
    let link = dir.join("closure-info");
    let closure_info_path = HostPath::from_text(closure_info);
    host::push(
        &mut steps,
        Step::strict(FileOp::AddRoot { closure_info: closure_info_path, link }),
    );
    assert(host::models(steps@) =~= root_steps(closure_info@, dir@));
    host::plan_of(steps)
}

/// The arguments with which `nix-store` keeps `closure_info` as long as `link` points to it.
pub fn add_root_args(closure_info: &HostPath, link: &HostPath) -> (args: Vec<HostPath>)
    ensures
        args@.map_values(|a: HostPath| a@) == seq![
            path::utf8("--realise"@),
            closure_info@,
            path::utf8("--add-root"@),
            link@,
            path::utf8("--indirect"@),
        ],
{
    let mut args: Vec<HostPath> = Vec::new();
    args.push(HostPath::from_text("--realise"));
    args.push(closure_info.clone());
    args.push(HostPath::from_text("--add-root"));
    args.push(link.clone());
    args.push(HostPath::from_text("--indirect"));
    assert(args@.map_values(|a: HostPath| a@) =~= seq![
        path::utf8("--realise"@),
        closure_info@,
        path::utf8("--add-root"@),
        link@,
        path::utf8("--indirect"@),
    ]);
    args
}

/// How `nix-store` ended.
pub struct ExitReport {
    pub success: bool,
    /// The status, as it is shown to the user.
    pub shown: String,
}

/// Why a run of `nix-store` did not keep anything, if it did not.
pub open spec fn add_root_failure(run: Result<ExitReport, String>) -> Option<Seq<char>> {
    match run {
        Err(cause) => Some(error::within("spawn nix-store --add-root"@, cause@)),
        Ok(report) => if report.success {
            None
        } else {
            Some("nix-store --add-root exited with "@ + report.shown@)
        },
    }
}

/// What a run of `nix-store` means for the plan that asked for it.
pub fn add_root_outcome(run: Result<ExitReport, String>) -> (r: Result<(), String>)
    ensures
        match add_root_failure(run) {
            None => r is Ok,
            Some(text) => r matches Err(e) && e@ == text,
        },
{
    match run {
        Err(cause) => Err(Error::of("spawn nix-store --add-root", cause.as_str()).text),
        Ok(report) => if report.success {
            Ok(())
        } else {
            Err("nix-store --add-root exited with ".to_owned().concat(report.shown.as_str()))
        },
    }
}

/// A directory with a link that keeps a system.
pub struct GcRoot {
    pub dir: HostPath,
    /// Whether the directory goes with the launch.
    pub ephemeral: bool,
}

/// The model of a directory with a link that keeps a system.
pub struct RootModel {
    pub dir: Seq<u8>,
    pub ephemeral: bool,
}

impl View for GcRoot {
    type V = RootModel;

    open spec fn view(&self) -> RootModel {
        RootModel { dir: self.dir@, ephemeral: self.ephemeral }
    }
}

impl GcRoot {
    /// The root of a launch, and the plan that makes it.
    pub fn ephemeral(state: &HostPath, closure_info: &str, id: LaunchId) -> (r: (GcRoot, FilePlan))
        ensures
            r.0.ephemeral,
            r.0.dir@ == state::transient_root_of(state@, id),
            host::begins(r.1, root_steps(closure_info@, r.0.dir@)),
    {
        let dir = state::transient_root_dir(state, id);
        let plan = add_gc_root(closure_info, &dir);
        (GcRoot { dir, ephemeral: true }, plan)
    }

    /// The root of a saved image whose absolute path hashes to `hash`, and the plan that makes it.
    pub fn persistent(state: &HostPath, closure_info: &str, hash: u64) -> (r: (GcRoot, FilePlan))
        ensures
            !r.0.ephemeral,
            r.0.dir@ == state::persistent_root_of(state@, hash),
            host::begins(r.1, root_steps(closure_info@, r.0.dir@)),
    {
        let dir = state::persistent_root_dir(state, hash);
        let plan = add_gc_root(closure_info, &dir);
        (GcRoot { dir, ephemeral: false }, plan)
    }

    /// The directory to remove once the guest is gone, if the root goes with the launch.
    pub fn removal(&self) -> (r: Option<&HostPath>)
        ensures
            r is Some <==> self.ephemeral,
            r matches Some(p) ==> *p == self.dir,
    {
        if self.ephemeral {
            Some(&self.dir)
        } else {
            None
        }
    }
}

/// A system is kept by a link in the directory that was named, which is made before; what the link keeps is
/// the registration of the system's closure; and neither may fail.
pub proof fn law_systems_are_kept_by_a_link(closure_info: Seq<char>, dir: Seq<u8>, k: int)
    requires
        0 <= k < root_steps(closure_info, dir).len(),
    ensures
        ({
            let steps = root_steps(closure_info, dir);
            &&& steps.len() == 2
            &&& steps[0].0 == FileOp::<Seq<u8>, Seq<char>>::MakeDirs(dir)
            &&& steps[1].0 matches FileOp::AddRoot { closure_info: kept, link } && kept
                == path::utf8(closure_info) && link.take(dir.len() as int) == dir && link.skip(
                link.len() - path::utf8("closure-info"@).len(),
            ) == path::utf8("closure-info"@)
            &&& !(steps[k].1 is Ignore)
        }),
{
    reveal_strlit("closure-info");
    path::lemma_no_leading_slash("closure-info"@);
    path::law_names_are_looked_up_in_directories(dir, path::utf8("closure-info"@));
}

/// A run of `nix-store` kept the system exactly if it could be started and succeeded; else the error ends in
/// what is known of the failure.
pub proof fn law_runs_of_nix_store_are_judged(run: Result<ExitReport, String>)
    ensures
        add_root_failure(run) is None <==> (run matches Ok(report) && report.success),
        add_root_failure(run) matches Some(e) ==> {
            let cause = match run {
                Ok(report) => report.shown@,
                Err(cause) => cause@,
            };
            e.len() > cause.len() && e.skip(e.len() - cause.len()) == cause
        },
{
    match run {
        Err(cause) => {
            error::law_causes_are_told_whole("spawn nix-store --add-root"@, cause@);
        },
        Ok(report) => {
            reveal_strlit("nix-store --add-root exited with ");
            let e = "nix-store --add-root exited with "@ + report.shown@;
            assert(e.skip(e.len() - report.shown@.len()) =~= report.shown@);
        },
    }
}

} // verus!
