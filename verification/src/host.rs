//! Operations on the files of the host.

use crate::path::HostPath;
use crate::plan::{OnFailure, Plan, Step};
use vstd::prelude::*;

verus! {

/// An operation on the files of the host.
pub enum FileOp<P, S> {
    /// Creating a directory, and those above it that are missing.
    MakeDirs(P),
    /// Removing a file.
    RemoveFile(P),
    /// Copying a file.
    CopyFile { from: P, to: P },
    /// Looking at the metadata of a file.
    Inspect(P),
    /// Setting the permissions of a file.
    SetMode { of: P, mode: u32 },
    /// Making a text the contents of a file.
    WriteText { to: P, text: S },
    /// Having `nix-store` keep `closure_info` as long as `link` points to it.
    AddRoot { closure_info: P, link: P },
}

impl View for FileOp<HostPath, String> {
    type V = FileOp<Seq<u8>, Seq<char>>;

    open spec fn view(&self) -> FileOp<Seq<u8>, Seq<char>> {
        match self {
            FileOp::MakeDirs(p) => FileOp::MakeDirs(p@),
            FileOp::RemoveFile(p) => FileOp::RemoveFile(p@),
            FileOp::CopyFile { from, to } => FileOp::CopyFile { from: from@, to: to@ },
            FileOp::Inspect(p) => FileOp::Inspect(p@),
            FileOp::SetMode { of, mode } => FileOp::SetMode { of: of@, mode: *mode },
            FileOp::WriteText { to, text } => FileOp::WriteText { to: to@, text: text@ },
            FileOp::AddRoot { closure_info, link } => FileOp::AddRoot {
                closure_info: closure_info@,
                link: link@,
            },
        }
    }
}

/// A plan of operations on files.
pub type FilePlan = Plan<FileOp<HostPath, String>>;

/// The model of a step of such a plan.
pub type FileStep = (FileOp<Seq<u8>, Seq<char>>, OnFailure<Seq<char>>);

/// Adds an operation at the end of a list.
pub fn push(steps: &mut Vec<Step<FileOp<HostPath, String>>>, step: Step<FileOp<HostPath, String>>)
    ensures
        models(final(steps)@) == models(old(steps)@).push(step@),
{
    let ghost before = steps@;
    steps.push(step);
    assert(models(steps@) =~= models(before).push(step@));
}

/// The models of the steps of a plan.
pub open spec fn models(steps: Seq<Step<FileOp<HostPath, String>>>) -> Seq<FileStep> {
    steps.map_values(|s: Step<FileOp<HostPath, String>>| s@)
}

/// Whether a plan is about to begin with these steps, and ends in no error of its own.
pub open spec fn begins(plan: FilePlan, steps: Seq<FileStep>) -> bool {
    &&& plan.model() == steps
    &&& plan.steps@.len() == steps.len()
    &&& plan.next == 0
    &&& plan.end() is None
}

/// The plan of these steps.
pub fn plan_of(steps: Vec<Step<FileOp<HostPath, String>>>) -> (p: FilePlan)
    ensures
        begins(p, models(steps@)),
{
    let p = Plan::new(steps, None);
    assert(p.model() =~= models(steps@));
    p
}

} // verus!
