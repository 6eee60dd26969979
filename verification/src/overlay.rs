//! The image that the guest writes to.

use crate::error::Error;
use crate::host;
use crate::host::{FileOp, FilePlan};
use crate::launch_id::LaunchId;
use crate::path;
use crate::path::HostPath;
use crate::plan::{OnFailure, Step};
use crate::sidecar;
use crate::state;
use vstd::prelude::*;
use vstd::string::StringExecFns;

verus! {

/// What becomes of an image.
#[derive(Clone, Copy, PartialEq, Eq, Structural, Debug)]
pub enum OverlayMode {
    /// A copy for one launch, which goes with it.
    Ephemeral,
    /// A copy at a path of the user's choice, which stays.
    Persistent,
    /// A file of the user, which stays.
    Loaded,
}

/// The image that the guest writes to.
pub struct Overlay {
    pub path: HostPath,
    pub mode: OverlayMode,
}

/// The model of the image that the guest writes to.
pub struct OverlayModel {
    pub path: Seq<u8>,
    pub mode: OverlayMode,
}

impl View for Overlay {
    type V = OverlayModel;

    open spec fn view(&self) -> OverlayModel {
        OverlayModel { path: self.path@, mode: self.mode }
    }
}

/// The permissions of a copy: its owner may read and write it.
pub const COPY_MODE: u32 = 0o600;

/// The permission to write a file that its owner has.
pub const OWNER_WRITE: u32 = 0o200;

/// The steps that make a writable copy.
pub open spec fn copy_steps(base: Seq<char>, dest: Seq<u8>) -> Seq<host::FileStep> {
    seq![
        (
            FileOp::CopyFile { from: path::utf8(base), to: dest },
            OnFailure::FailIn("copy "@ + base + " \u{2192} "@ + path::shown(dest)),
        ),
        (FileOp::Inspect(dest), OnFailure::Fail),
        (FileOp::SetMode { of: dest, mode: COPY_MODE }, OnFailure::Fail),
    ]
}

/// Adds the steps that make a writable copy of `base`, which may be read-only, at `dest`.
pub fn copy_writable(
    steps: &mut Vec<Step<FileOp<HostPath, String>>>,
    base: &str,
    dest: &HostPath,
)
    ensures
        host::models(final(steps)@) == host::models(old(steps)@) + copy_steps(base@, dest@),
{
    let what = "copy ".to_owned().concat(base).concat(" \u{2192} ").concat(dest.show().as_str());
    let from = HostPath::from_text(base);
    host::push(steps, Step::within(FileOp::CopyFile { from, to: dest.clone() }, what));
    host::push(steps, Step::strict(FileOp::Inspect(dest.clone())));
    host::push(steps, Step::strict(FileOp::SetMode { of: dest.clone(), mode: COPY_MODE }));
    assert(host::models(steps@) =~= host::models(old(steps)@) + copy_steps(base@, dest@));
}

/// The steps that clear away an image and its sidecar.
pub open spec fn clearing_steps(dest: Seq<u8>) -> Seq<host::FileStep> {
    seq![
        (
            FileOp::RemoveFile(dest),
            OnFailure::FailIn("remove existing "@ + path::shown(dest)),
        ),
        (FileOp::RemoveFile(sidecar::sidecar_of(dest)), OnFailure::Ignore),
    ]
}

/// Why no copy may be saved at `dest`.
pub open spec fn occupied_text(dest: Seq<u8>) -> Seq<char> {
    path::shown(dest) + " already exists; pass `nixvm load "@ + path::shown(dest)
        + "` to resume it, or `--force` to overwrite"@
}

/// Why an image cannot be loaded from `at`, if it cannot.  `found` is what was found there: nothing, or
/// a file with its permissions, which may be unknown.
pub open spec fn load_failure(at: Seq<u8>, found: Option<Result<u32, Seq<char>>>) -> Option<
    Seq<char>,
> {
    match found {
        None => Some(path::shown(at) + " does not exist"@),
        Some(Err(cause)) => Some(cause),
        Some(Ok(mode)) => if mode & OWNER_WRITE == 0 {
            Some(
                path::shown(at)
                    + " is not writable; chmod u+w it or copy it elsewhere first"@,
            )
        } else {
            None
        },
    }
}

/// The model of what was found at a path.
pub open spec fn found_model(found: Option<Result<u32, String>>) -> Option<Result<u32, Seq<char>>> {
    match found {
        None => None,
        Some(Ok(mode)) => Some(Ok(mode)),
        Some(Err(cause)) => Some(Err(cause@)),
    }
}

impl Overlay {
    /// A copy of `base` for one launch, and the plan that makes it.
    pub fn ephemeral(temp: &HostPath, base: &str, id: LaunchId) -> (r: (Overlay, FilePlan))
        ensures
            r.0.mode is Ephemeral,
            r.0.path@ == state::image_of(temp@, id),
            host::begins(r.1, copy_steps(base@, r.0.path@)),
    {
        let path = state::image_path_for(temp, id);
        let mut steps = Vec::new();
        copy_writable(&mut steps, base, &path);
        assert(host::models(steps@) =~= copy_steps(base@, path@));
        (Overlay { path, mode: OverlayMode::Ephemeral }, host::plan_of(steps))
    }

    /// A copy of `base` at `dest` that stays, and the plan that makes it.  Where `dest` is occupied
    /// already, what is there is replaced if `force` says so, together with its sidecar.
    pub fn persistent(base: &str, dest: HostPath, force: bool, occupied: bool) -> (r: Result<
        (Overlay, FilePlan),
        Error,
    >)
        ensures
            r is Ok <==> (!occupied || force),
            r matches Ok(made) ==> {
                &&& made.0.mode is Persistent
                &&& made.0.path@ == dest@
                &&& host::begins(
                    made.1,
                    (if occupied {
                        clearing_steps(dest@)
                    } else {
                        Seq::empty()
                    }) + copy_steps(base@, dest@),
                )
            },
            r matches Err(e) ==> e@ == occupied_text(dest@),
    {
        let mut steps = Vec::new();
        let ghost expected = (if occupied {
            clearing_steps(dest@)
        } else {
            Seq::empty()
        }) + copy_steps(base@, dest@);
        if occupied {
            let shown = dest.show();
            if !force {
                return Err(
                    Error::new(
                        dest.show().concat(" already exists; pass `nixvm load ").concat(
                            shown.as_str(),
                        ).concat("` to resume it, or `--force` to overwrite"),
                    ),
                );
            }
            let what = "remove existing ".to_owned().concat(shown.as_str());
            host::push(&mut steps, Step::within(FileOp::RemoveFile(dest.clone()), what));
            host::push(
                &mut steps,
                Step::lenient(FileOp::RemoveFile(sidecar::sidecar_path(&dest))),
            );
            assert(host::models(steps@) =~= clearing_steps(dest@));
        }
        copy_writable(&mut steps, base, &dest);
        assert(host::models(steps@) =~= expected);
        Ok((Overlay { path: dest, mode: OverlayMode::Persistent }, host::plan_of(steps)))
    }

    /// The image at `path`, if it can be written to.  `found` is what was found there: nothing, or a
    /// file with its permissions, which may be unknown.
    pub fn load(path: HostPath, found: Option<Result<u32, String>>) -> (r: Result<Overlay, Error>)
        ensures
            r is Ok <==> load_failure(path@, found_model(found)) is None,
            r matches Ok(o) ==> o.mode is Loaded && o.path@ == path@,
            r matches Err(e) ==> load_failure(path@, found_model(found)) == Some(e@),
    {
        match found {
            None => Err(Error::new(path.show().concat(" does not exist"))),
            Some(Err(cause)) => Err(Error::new(cause)),
            Some(Ok(mode)) => if mode & OWNER_WRITE == 0 {
                Err(
                    Error::new(
                        path.show().concat(
                            " is not writable; chmod u+w it or copy it elsewhere first",
                        ),
                    ),
                )
            } else {
                Ok(Overlay { path, mode: OverlayMode::Loaded })
            },
        }
    }

    /// The file to remove once the guest is gone, if the image goes with the launch.
    pub fn removal(&self) -> (r: Option<&HostPath>)
        ensures
            r is Some <==> self.mode is Ephemeral,
            r matches Some(p) ==> *p == self.path,
    {
        match self.mode {
            OverlayMode::Ephemeral => Some(&self.path),
            _ => None,
        }
    }
}

/// An image that was copied for the user can be loaded again, whatever else its mode says beside the
/// permissions.
pub proof fn law_copies_can_be_loaded(at: Seq<u8>, mode: u32)
    requires
        mode & 0o777 == COPY_MODE,
    ensures
        load_failure(at, Some(Ok(mode))) is None,
{
    assert(mode & 0o200 != 0) by (bit_vector)
        requires
            mode & 0o777 == 0o600,
    ;
}

/// An image can be loaded exactly if it is there and its owner may write to it, whatever else its
/// permissions say.
pub proof fn law_writable_images_can_be_loaded(at: Seq<u8>, found: Option<Result<u32, Seq<char>>>)
    ensures
        load_failure(at, found) is None <==> (found matches Some(Ok(mode)) && mode & 0o200 == 0o200),
        found matches Some(Err(cause)) ==> load_failure(at, found) == Some(cause),
{
    if let Some(Ok(mode)) = found {
        assert(mode & 0o200 == 0 || mode & 0o200 == 0o200) by (bit_vector);
    }
}

/// A copy is made from the image that was named to the place that was named, and nowhere else; its owner,
/// and nobody else, may read and write it then; and no step of this may fail.
pub proof fn law_copies_are_made_where_they_belong(base: Seq<char>, dest: Seq<u8>, k: int)
    requires
        0 <= k < copy_steps(base, dest).len(),
    ensures
        ({
            let steps = copy_steps(base, dest);
            &&& steps[0].0 == (FileOp::<Seq<u8>, Seq<char>>::CopyFile {
                from: path::utf8(base),
                to: dest,
            })
            &&& steps.last().0 == (FileOp::<Seq<u8>, Seq<char>>::SetMode { of: dest, mode: 0o600 })
            &&& !(steps[k].1 is Ignore)
            &&& steps[k].0 matches FileOp::SetMode { of, mode } ==> of == dest && mode == 0o600
            &&& steps[k].0 matches FileOp::CopyFile { from, to } ==> from == path::utf8(base) && to
                == dest
            &&& steps[k].0 is CopyFile || steps[k].0 is Inspect || steps[k].0 is SetMode
        }),
{
}

/// What is cleared away is the image and its sidecar, and nothing else; that there is no sidecar does not
/// matter, that the image cannot be removed does.
pub proof fn law_images_are_cleared_with_their_sidecars(dest: Seq<u8>, k: int)
    requires
        0 <= k < clearing_steps(dest).len(),
    ensures
        ({
            let steps = clearing_steps(dest);
            &&& steps[0].0 == FileOp::<Seq<u8>, Seq<char>>::RemoveFile(dest)
            &&& steps.last().0 == FileOp::<Seq<u8>, Seq<char>>::RemoveFile(sidecar::sidecar_of(dest))
            &&& steps[k].0 matches FileOp::RemoveFile(p) && (p == dest || p == sidecar::sidecar_of(
                dest,
            ))
            &&& steps[k].1 is Ignore <==> steps[k].0 == FileOp::<Seq<u8>, Seq<char>>::RemoveFile(
                sidecar::sidecar_of(dest),
            )
        }),
{
    sidecar::law_sidecars_stand_next_to_images(dest);
}

/// What is said of an image that cannot be saved or loaded names its path in full.
pub proof fn law_images_are_named_in_full(at: Seq<u8>, found: Option<Result<u32, Seq<char>>>)
    ensures
        ({
            let p = path::shown(at);
            let n = p.len() as int;
            let e = occupied_text(at);
            &&& e.len() == 2 * n + 75
            &&& e.take(n) == p
            &&& e.subrange(n + 34, 2 * n + 34) == p
            &&& load_failure(at, found) is Some && (found is None || found->0 is Ok) ==> {
                let f = load_failure(at, found)->0;
                f.len() > n && f.take(n) == p
            }
        }),
{
    let p = path::shown(at);
    let n = p.len() as int;
    reveal_strlit(" already exists; pass `nixvm load ");
    reveal_strlit("` to resume it, or `--force` to overwrite");
    reveal_strlit(" does not exist");
    reveal_strlit(" is not writable; chmod u+w it or copy it elsewhere first");
    let e = occupied_text(at);
    assert(e.take(n) =~= p);
    assert(e.subrange(n + 34, 2 * n + 34) =~= p);
    if let Some(f) = load_failure(at, found) {
        if found is None || found->0 is Ok {
            assert(f.take(n) =~= p);
        }
    }
}

} // verus!
