//! The calls into the Nix library that realise a flake output.
//!
//! The calls form a script.  Each call names the objects of the Nix library that it takes and gives,
//! and the errors that it may end in.

use crate::error;
use crate::path;
use crate::text;
use vstd::prelude::*;
use vstd::string::StringExecFns;

verus! {

/// An object of the Nix library that has to be freed.
#[derive(Clone, Copy, PartialEq, Eq, Structural, Debug)]
pub enum Handle {
    /// The error context, which every call takes.
    Context,
    Store,
    FlakeSettings,
    FetchSettings,
    Builder,
    State,
    ParseFlags,
    /// The reference to the flake to build.
    FlakeRef,
    LockFlags,
    /// The reference that replaces the input of the override at this place.
    Override(usize),
    Locked,
    /// The outputs of the flake.
    Outputs,
    /// The attribute at this depth of the path that is being walked.
    Attr(usize),
    StorePath,
}

/// A call.
pub enum Op<S> {
    /// `nix_c_context_create`.
    CreateContext,
    /// `nix_libutil_init`.
    InitUtil,
    /// `nix_setting_set`.
    Apply { name: S, value: S },
    /// `nix_libstore_init`.
    InitStore,
    /// `nix_libexpr_init`.
    InitExpr,
    /// `nix_store_open`.
    OpenStore { uri: S },
    /// `nix_flake_settings_new`.
    NewFlakeSettings,
    /// `nixvm_fetchers_settings_new`.
    NewFetchSettings,
    /// `nix_eval_state_builder_new`.
    NewBuilder,
    /// `nix_eval_state_builder_load`.
    LoadBuilder,
    /// `nix_flake_settings_add_to_eval_state_builder`.
    AddFlakeSettings,
    /// `nix_eval_state_build`.
    BuildState,
    /// `nix_flake_reference_parse_flags_new`.
    NewParseFlags,
    /// The working directory of the process.
    WorkingDirectory,
    /// `nix_flake_reference_parse_flags_set_base_directory`.
    SetBaseDirectory { dir: S },
    /// `nix_flake_reference_and_fragment_from_string`.
    ParseReference { uri: S, into: Handle },
    /// `nix_flake_lock_flags_new`.
    NewLockFlags,
    /// `nix_flake_lock_flags_set_mode_virtual`.
    LockVirtually,
    /// `nix_flake_lock_flags_add_input_override`.
    AddOverride { input: S, reference: Handle },
    /// `nix_flake_lock`.
    LockFlake,
    /// `nix_locked_flake_get_output_attrs`.
    OutputAttrs,
    /// `nix_value_force`.
    Force { of: Handle },
    /// `nix_get_attr_byname`.
    GetAttr { of: Handle, name: S, into: Handle },
    /// `nix_value_incref`, which makes a second handle of a value.
    Retain { of: Handle, into: Handle },
    /// `nix_get_string`.
    ReadString { of: Handle },
    /// `nix_store_parse_path`.
    ParseStorePath { path: S },
    /// `nix_store_realise`.
    RealisePath,
    /// The function that frees such an object.
    Free { handle: Handle },
    /// No call: the script ends here in an error.
    Refuse { text: S },
}

/// How a call is held to have failed, and the error of it.
pub enum Check<S> {
    /// It cannot fail.
    Never,
    /// It gave nothing, which is the error `null`.
    Null { null: S },
    /// The library reported an error, which happened in `what`.
    Status { what: S },
    /// The library reported an error, or else the call gave nothing.
    StatusOrNull { what: S, null: S },
    /// The library reported an error, which is worth a warning that starts with `what`.
    Tolerated { what: S },
    /// The working directory is unknown or no text.
    Directory,
    /// The call said that it failed and the library reported an error, or else the text that it gave
    /// is not UTF-8.
    Text { what: S },
    /// The library reported an error, or else the call gave nothing, or else the text that it gave is
    /// not UTF-8, which happened in `fragment`.
    Reference { what: S, null: S, fragment: S },
}

/// A call of the script.
pub struct Call<S> {
    pub op: Op<S>,
    pub check: Check<S>,
    /// The object that the call gives where it does not fail.
    pub gives: Option<Handle>,
}

impl View for Op<String> {
    type V = Op<Seq<char>>;

    open spec fn view(&self) -> Op<Seq<char>> {
        match self {
            Op::CreateContext => Op::CreateContext,
            Op::InitUtil => Op::InitUtil,
            Op::Apply { name, value } => Op::Apply { name: name@, value: value@ },
            Op::InitStore => Op::InitStore,
            Op::InitExpr => Op::InitExpr,
            Op::OpenStore { uri } => Op::OpenStore { uri: uri@ },
            Op::NewFlakeSettings => Op::NewFlakeSettings,
            Op::NewFetchSettings => Op::NewFetchSettings,
            Op::NewBuilder => Op::NewBuilder,
            Op::LoadBuilder => Op::LoadBuilder,
            Op::AddFlakeSettings => Op::AddFlakeSettings,
            Op::BuildState => Op::BuildState,
            Op::NewParseFlags => Op::NewParseFlags,
            Op::WorkingDirectory => Op::WorkingDirectory,
            Op::SetBaseDirectory { dir } => Op::SetBaseDirectory { dir: dir@ },
            Op::ParseReference { uri, into } => Op::ParseReference { uri: uri@, into: *into },
            Op::NewLockFlags => Op::NewLockFlags,
            Op::LockVirtually => Op::LockVirtually,
            Op::AddOverride { input, reference } => Op::AddOverride {
                input: input@,
                reference: *reference,
            },
            Op::LockFlake => Op::LockFlake,
            Op::OutputAttrs => Op::OutputAttrs,
            Op::Force { of } => Op::Force { of: *of },
            Op::GetAttr { of, name, into } => Op::GetAttr { of: *of, name: name@, into: *into },
            Op::Retain { of, into } => Op::Retain { of: *of, into: *into },
            Op::ReadString { of } => Op::ReadString { of: *of },
            Op::ParseStorePath { path } => Op::ParseStorePath { path: path@ },
            Op::RealisePath => Op::RealisePath,
            Op::Free { handle } => Op::Free { handle: *handle },
            Op::Refuse { text } => Op::Refuse { text: text@ },
        }
    }
}

impl View for Check<String> {
    type V = Check<Seq<char>>;

    open spec fn view(&self) -> Check<Seq<char>> {
        match self {
            Check::Never => Check::Never,
            Check::Null { null } => Check::Null { null: null@ },
            Check::Status { what } => Check::Status { what: what@ },
            Check::StatusOrNull { what, null } => Check::StatusOrNull { what: what@, null: null@ },
            Check::Tolerated { what } => Check::Tolerated { what: what@ },
            Check::Directory => Check::Directory,
            Check::Text { what } => Check::Text { what: what@ },
            Check::Reference { what, null, fragment } => Check::Reference {
                what: what@,
                null: null@,
                fragment: fragment@,
            },
        }
    }
}

impl View for Call<String> {
    type V = Call<Seq<char>>;

    open spec fn view(&self) -> Call<Seq<char>> {
        Call { op: self.op@, check: self.check@, gives: self.gives }
    }
}

/// The models of the calls of a script.
pub open spec fn script(calls: Seq<Call<String>>) -> Seq<Call<Seq<char>>> {
    calls.map_values(|c: Call<String>| c@)
}

/// What is asked of the Nix library.
pub struct Request {
    /// The reference to the flake, as the user wrote it.
    pub flake_ref: String,
    /// The inputs to override, with the references that replace them.
    pub overrides: Vec<(String, String)>,
    /// The settings to apply, with their values.
    pub settings: Vec<(String, String)>,
    /// How long a fetched archive stays fresh, in seconds.
    pub tarball_ttl: Option<u32>,
}

/// The model of a request.
pub struct RequestModel {
    pub flake_ref: Seq<char>,
    pub overrides: Seq<(Seq<char>, Seq<char>)>,
    pub settings: Seq<(Seq<char>, Seq<char>)>,
    pub tarball_ttl: Option<u32>,
}

/// The models of pairs of texts.
pub open spec fn pairs(v: Seq<(String, String)>) -> Seq<(Seq<char>, Seq<char>)> {
    v.map_values(|p: (String, String)| (p.0@, p.1@))
}

impl View for Request {
    type V = RequestModel;

    open spec fn view(&self) -> RequestModel {
        RequestModel {
            flake_ref: self.flake_ref@,
            overrides: pairs(self.overrides@),
            settings: pairs(self.settings@),
            tarball_ttl: self.tarball_ttl,
        }
    }
}

// ---------------------------------------------------------------------------------------------
// The script, in four parts.  Each part but the first needs texts that the parts before it gave.

/// A call that only the reported status can fail.
pub open spec fn plain(op: Op<Seq<char>>, what: Seq<char>) -> Call<Seq<char>> {
    Call { op, check: Check::Status { what }, gives: None }
}

/// A call of the function `name`, which gives an object.
pub open spec fn giving(
    op: Op<Seq<char>>,
    what: Seq<char>,
    name: Seq<char>,
    handle: Handle,
) -> Call<Seq<char>> {
    Call {
        op,
        check: Check::StatusOrNull { what, null: name + " returned NULL"@ },
        gives: Some(handle),
    }
}

/// A call that frees an object.
pub open spec fn freeing(handle: Handle) -> Call<Seq<char>> {
    Call { op: Op::Free { handle }, check: Check::Never, gives: None }
}

/// The end of the script in an error.
pub open spec fn refusing(text: Seq<char>) -> Call<Seq<char>> {
    Call { op: Op::Refuse { text }, check: Check::Never, gives: None }
}

/// The call for a setting that the user asked for.  An unknown setting is worth a warning only.
pub open spec fn setting_call(setting: (Seq<char>, Seq<char>)) -> Call<Seq<char>> {
    let (name, value) = setting;
    if path::has_zero(name) {
        refusing(
            error::within(
                "--option name `"@ + name + "` contains a NUL byte"@,
                path::zero_byte_text(name),
            ),
        )
    } else if path::has_zero(value) {
        refusing(
            error::within(
                "--option value for `"@ + name + "` contains a NUL byte"@,
                path::zero_byte_text(value),
            ),
        )
    } else {
        Call {
            op: Op::Apply { name, value },
            check: Check::Tolerated {
                what: "ignoring `--option "@ + name + " "@ + value + "`"@,
            },
            gives: None,
        }
    }
}

/// The calls for the settings that the user asked for.
pub open spec fn settings_part(settings: Seq<(Seq<char>, Seq<char>)>) -> Seq<Call<Seq<char>>> {
    settings.map_values(|s: (Seq<char>, Seq<char>)| setting_call(s))
}

/// The call that sets how long a fetched archive stays fresh.
pub open spec fn ttl_part(ttl: Option<u32>) -> Seq<Call<Seq<char>>> {
    match ttl {
        None => Seq::empty(),
        Some(seconds) => seq![
            plain(
                Op::Apply { name: "tarball-ttl"@, value: text::decimal(seconds as nat) },
                "apply --tarball-ttl"@,
            ),
        ],
    }
}

/// The calls that start the library.
pub open spec fn starting_part() -> Seq<Call<Seq<char>>> {
    seq![
        Call {
            op: Op::CreateContext,
            check: Check::Null { null: "nix_c_context_create returned NULL"@ },
            gives: Some(Handle::Context),
        },
        plain(Op::InitUtil, "nix_libutil_init"@),
        plain(
            Op::Apply { name: "experimental-features"@, value: "nix-command flakes"@ },
            "enable experimental flakes feature"@,
        ),
    ]
}

/// The calls that open the store and make an evaluator.
pub open spec fn opening_part() -> Seq<Call<Seq<char>>> {
    seq![
        plain(Op::InitStore, "nix_libstore_init"@),
        plain(Op::InitExpr, "nix_libexpr_init"@),
        giving(
            Op::OpenStore { uri: "daemon"@ },
            "nix_store_open(daemon)"@,
            "nix_store_open"@,
            Handle::Store,
        ),
        giving(
            Op::NewFlakeSettings,
            "nix_flake_settings_new"@,
            "nix_flake_settings_new"@,
            Handle::FlakeSettings,
        ),
        giving(
            Op::NewFetchSettings,
            "nixvm_fetchers_settings_new"@,
            "nixvm_fetchers_settings_new"@,
            Handle::FetchSettings,
        ),
        giving(
            Op::NewBuilder,
            "nix_eval_state_builder_new"@,
            "nix_eval_state_builder_new"@,
            Handle::Builder,
        ),
        plain(Op::LoadBuilder, "nix_eval_state_builder_load"@),
        plain(Op::AddFlakeSettings, "nix_flake_settings_add_to_eval_state_builder"@),
        giving(
            Op::BuildState,
            "nix_eval_state_build"@,
            "nix_eval_state_build"@,
            Handle::State,
        ),
        giving(
            Op::NewParseFlags,
            "nix_flake_reference_parse_flags_new"@,
            "nix_flake_reference_parse_flags_new"@,
            Handle::ParseFlags,
        ),
        Call { op: Op::WorkingDirectory, check: Check::Directory, gives: None },
    ]
}

/// The first part: up to the working directory.
pub open spec fn first_part(request: RequestModel) -> Seq<Call<Seq<char>>> {
    starting_part() + settings_part(request.settings) + ttl_part(request.tarball_ttl)
        + opening_part()
}

/// The call that parses a flake reference in the given circumstance.
pub open spec fn reference_call(
    circumstance: Seq<char>,
    uri: Seq<char>,
    into: Handle,
) -> Call<Seq<char>> {
    if path::has_zero(uri) {
        refusing(
            error::within(
                circumstance,
                error::within("flake URI contains a NUL byte"@, path::zero_byte_text(uri)),
            ),
        )
    } else {
        Call {
            op: Op::ParseReference { uri, into },
            check: Check::Reference {
                what: error::within(
                    circumstance,
                    "nix_flake_reference_and_fragment_from_string("@ + uri + ")"@,
                ),
                null: error::within(
                    circumstance,
                    "nix_flake_reference_and_fragment_from_string returned NULL for `"@ + uri
                        + "`"@,
                ),
                fragment: error::within(circumstance, "flake fragment not UTF-8"@),
            },
            gives: Some(into),
        }
    }
}

/// The second part, with the working directory: up to the flake's reference.
pub open spec fn second_part(request: RequestModel, dir: Seq<char>) -> Seq<Call<Seq<char>>> {
    seq![
        plain(Op::SetBaseDirectory { dir }, "set base directory on parse flags"@),
        reference_call(
            "parse flake ref `"@ + request.flake_ref + "`"@,
            request.flake_ref,
            Handle::FlakeRef,
        ),
    ]
}

/// An override as it is shown to the user.
pub open spec fn override_text(over: (Seq<char>, Seq<char>)) -> Seq<char> {
    "override `"@ + over.0 + " "@ + over.1 + "`"@
}

/// The calls for the overrides.
pub open spec fn overrides_part(overrides: Seq<(Seq<char>, Seq<char>)>) -> Seq<Call<Seq<char>>>
    decreases overrides.len(),
{
    if overrides.len() == 0 {
        Seq::empty()
    } else {
        let at = (overrides.len() - 1) as usize;
        let over = overrides.last();
        overrides_part(overrides.drop_last()).push(
            reference_call("parse "@ + override_text(over), over.1, Handle::Override(at)),
        ).push(
            plain(
                Op::AddOverride { input: over.0, reference: Handle::Override(at) },
                "add "@ + override_text(over),
            ),
        )
    }
}

/// The calls that lock the flake and get at its outputs.
pub open spec fn locking_part() -> Seq<Call<Seq<char>>> {
    seq![
        giving(Op::LockFlake, "nix_flake_lock"@, "nix_flake_lock"@, Handle::Locked),
        giving(
            Op::OutputAttrs,
            "nix_locked_flake_get_output_attrs"@,
            "nix_locked_flake_get_output_attrs"@,
            Handle::Outputs,
        ),
        plain(Op::Force { of: Handle::Outputs }, "force outputs"@),
    ]
}

/// The segments of a dotted path.
pub open spec fn segments(path: Seq<char>) -> Seq<Seq<char>> {
    text::split(path, '.').filter(|s: Seq<char>| s.len() > 0)
}

/// Where the walk along a path is, as it is shown to the user.
pub open spec fn walking(segment: Seq<char>, path: Seq<char>) -> Seq<char> {
    segment + "` while walking `"@ + path + "`"@
}

/// The depth of the first attribute below a value.
pub open spec fn depth_below(root: Handle) -> nat {
    match root {
        Handle::Attr(depth) => (depth + 1) as nat,
        _ => 0,
    }
}

/// The calls that go down the segments of a path, below the value `root`.  Of the values on the way
/// only the last one that was reached is kept; `root` stays.
pub open spec fn descent(root: Handle, path: Seq<char>, segments: Seq<Seq<char>>) -> Seq<
    Call<Seq<char>>,
>
    decreases segments.len(),
{
    if segments.len() == 0 {
        Seq::empty()
    } else {
        let front = segments.drop_last();
        let segment = segments.last();
        let from = if front.len() == 0 {
            root
        } else {
            walked_to(root, front)
        };
        let into = walked_to(root, segments);
        let reached = descent(root, path, front).push(
            Call {
                op: Op::GetAttr { of: from, name: segment, into },
                check: Check::StatusOrNull {
                    what: "get `"@ + walking(segment, path),
                    null: "attribute `"@ + segment + "` missing while walking `"@ + path + "`"@,
                },
                gives: Some(into),
            },
        ).push(plain(Op::Force { of: into }, "force `"@ + walking(segment, path)));
        if front.len() == 0 {
            reached
        } else {
            reached.push(freeing(from))
        }
    }
}

/// The value that the walk along a path ends at.
pub open spec fn walked_to(root: Handle, segments: Seq<Seq<char>>) -> Handle {
    if segments.len() == 0 {
        Handle::Attr(depth_below(root) as usize)
    } else {
        Handle::Attr((depth_below(root) + segments.len() - 1) as usize)
    }
}

/// The calls that walk a dotted path below the value `root`.  An empty path leads to that value itself.
pub open spec fn walk(root: Handle, path: Seq<char>) -> Seq<Call<Seq<char>>> {
    if segments(path).len() == 0 {
        seq![
            Call {
                op: Op::Retain { of: root, into: walked_to(root, segments(path)) },
                check: Check::Status { what: "retain value while walking `"@ + path + "`"@ },
                gives: Some(walked_to(root, segments(path))),
            },
        ]
    } else {
        descent(root, path, segments(path))
    }
}

/// The calls that read the text at the end of a dotted path below the outputs.
pub open spec fn read_part(path: Seq<char>) -> Seq<Call<Seq<char>>> {
    let value = walked_to(Handle::Outputs, segments(path));
    walk(Handle::Outputs, path).push(
        Call {
            op: Op::ReadString { of: value },
            check: Check::Text { what: "read string at `"@ + path + "`"@ },
            gives: None,
        },
    ).push(freeing(value))
}

/// The attribute path of the configuration that the fragment of the flake's reference names, as
/// `nixos-rebuild` reads it.  Without a fragment that is the default configuration.
pub open spec fn attr_path(fragment: Seq<char>) -> Seq<char> {
    "nixosConfigurations."@ + (if fragment.len() == 0 {
        "default"@
    } else {
        fragment
    })
}

/// The calls that read what the launch needs of the configuration.
pub open spec fn reading_part(attr: Seq<char>) -> Seq<Call<Seq<char>>> {
    read_part(attr + ".config.system.build.image.drvPath"@) + read_part(
        attr + ".config.system.build.image.outPath"@,
    ) + read_part(attr + ".config.image.fileName"@) + read_part(
        attr + ".config.system.build.toplevel.outPath"@,
    ) + read_part(attr + ".config.system.build.closureInfo.drvPath"@) + read_part(
        attr + ".config.system.build.closureInfo.outPath"@,
    )
}

/// The calls that make the lock flags.
pub open spec fn flags_part() -> Seq<Call<Seq<char>>> {
    seq![
        giving(
            Op::NewLockFlags,
            "nix_flake_lock_flags_new"@,
            "nix_flake_lock_flags_new"@,
            Handle::LockFlags,
        ),
        plain(Op::LockVirtually, "nix_flake_lock_flags_set_mode_virtual"@),
    ]
}

/// The third part, with the fragment of the flake's reference: up to the last text that is read.
pub open spec fn third_part(request: RequestModel, fragment: Seq<char>) -> Seq<Call<Seq<char>>> {
    flags_part() + overrides_part(request.overrides) + locking_part() + reading_part(
        attr_path(fragment),
    )
}

/// The calls that realise a derivation in the given circumstance.
pub open spec fn realise_part(circumstance: Seq<char>, drv: Seq<char>) -> Seq<Call<Seq<char>>> {
    seq![
        Call {
            op: Op::ParseStorePath { path: drv },
            check: Check::StatusOrNull {
                what: error::within(circumstance, "nix_store_parse_path"@),
                null: error::within(
                    circumstance,
                    "nix_store_parse_path returned NULL for "@ + drv,
                ),
            },
            gives: Some(Handle::StorePath),
        },
        plain(Op::RealisePath, error::within(circumstance, "nix_store_realise"@)),
        freeing(Handle::StorePath),
    ]
}

/// The fourth part, with the derivations of the image and of the closure's registration.
pub open spec fn fourth_part(image: Seq<char>, closure: Seq<char>) -> Seq<Call<Seq<char>>> {
    realise_part("realise image drv"@, image) + realise_part("realise closureInfo drv"@, closure)
}

/// As much of the script as is known once the texts have been read.  These are, in order: the working
/// directory; the fragment of the flake's reference; the image's derivation, output and file name;
/// the output of the system; and the derivation and output of the closure's registration.
#[verifier::opaque]
pub open spec fn script_so_far(request: RequestModel, read: Seq<Seq<char>>) -> Seq<
    Call<Seq<char>>,
> {
    first_part(request) + (if read.len() >= 1 {
        second_part(request, read[0])
    } else {
        Seq::empty()
    }) + (if read.len() >= 2 {
        third_part(request, read[1])
    } else {
        Seq::empty()
    }) + (if read.len() >= 8 {
        fourth_part(read[2], read[6])
    } else {
        Seq::empty()
    })
}

// ---------------------------------------------------------------------------------------------
// Making the script.

fn push(calls: &mut Vec<Call<String>>, call: Call<String>)
    ensures
        script(final(calls)@) == script(old(calls)@).push(call@),
{
    let ghost before = calls@;
    calls.push(call);
    assert(script(calls@) =~= script(before).push(call@));
}

fn plain_call(op: Op<String>, what: &str) -> (c: Call<String>)
    ensures
        c@ == plain(op@, what@),
{
    Call { op, check: Check::Status { what: what.to_owned() }, gives: None }
}

fn giving_call(op: Op<String>, what: &str, name: &str, handle: Handle) -> (c: Call<String>)
    ensures
        c@ == giving(op@, what@, name@, handle),
{
    Call {
        op,
        check: Check::StatusOrNull {
            what: what.to_owned(),
            null: name.to_owned().concat(" returned NULL"),
        },
        gives: Some(handle),
    }
}

fn freeing_call(handle: Handle) -> (c: Call<String>)
    ensures
        c@ == freeing(handle),
{
    Call { op: Op::Free { handle }, check: Check::Never, gives: None }
}

fn refusing_call(text: String) -> (c: Call<String>)
    ensures
        c@ == refusing(text@),
{
    Call { op: Op::Refuse { text }, check: Check::Never, gives: None }
}

fn within_text(what: &str, cause: &str) -> (s: String)
    ensures
        s@ == error::within(what@, cause@),
{
    what.to_owned().concat(": ").concat(cause)
}

fn make_setting_call(name: &String, value: &String) -> (c: Call<String>)
    ensures
        c@ == setting_call((name@, value@)),
{
    if let Some(at) = path::zero_position(name.as_str()) {
        let what = "--option name `".to_owned().concat(name.as_str()).concat(
            "` contains a NUL byte",
        );
        return refusing_call(within_text(what.as_str(), path::zero_byte_message(at).as_str()));
    }
    if let Some(at) = path::zero_position(value.as_str()) {
        let what = "--option value for `".to_owned().concat(name.as_str()).concat(
            "` contains a NUL byte",
        );
        return refusing_call(within_text(what.as_str(), path::zero_byte_message(at).as_str()));
    }
    Call {
        op: Op::Apply { name: name.clone(), value: value.clone() },
        check: Check::Tolerated {
            what: "ignoring `--option ".to_owned().concat(name.as_str()).concat(" ").concat(
                value.as_str(),
            ).concat("`"),
        },
        gives: None,
    }
}

fn make_reference_call(circumstance: &str, uri: &String, into: Handle) -> (c: Call<String>)
    ensures
        c@ == reference_call(circumstance@, uri@, into),
{
    if let Some(at) = path::zero_position(uri.as_str()) {
        let cause = within_text("flake URI contains a NUL byte", path::zero_byte_message(at).as_str());
        return refusing_call(within_text(circumstance, cause.as_str()));
    }
    let what = "nix_flake_reference_and_fragment_from_string(".to_owned().concat(
        uri.as_str(),
    ).concat(")");
    let null = "nix_flake_reference_and_fragment_from_string returned NULL for `".to_owned().concat(
        uri.as_str(),
    ).concat("`");
    Call {
        op: Op::ParseReference { uri: uri.clone(), into },
        check: Check::Reference {
            what: within_text(circumstance, what.as_str()),
            null: within_text(circumstance, null.as_str()),
            fragment: within_text(circumstance, "flake fragment not UTF-8"),
        },
        gives: Some(into),
    }
}

/// Makes the first part of the script.
pub fn make_first_part(request: &Request) -> (calls: Vec<Call<String>>)
    ensures
        script(calls@) == first_part(request@),
{
    let mut calls: Vec<Call<String>> = Vec::new();
    assert(script(calls@) =~= Seq::empty());
    push(
        &mut calls,
        Call {
            op: Op::CreateContext,
            check: Check::Null { null: "nix_c_context_create returned NULL".to_owned() },
            gives: Some(Handle::Context),
        },
    );
    push(&mut calls, plain_call(Op::InitUtil, "nix_libutil_init"));
    push(
        &mut calls,
        plain_call(
            Op::Apply {
                name: "experimental-features".to_owned(),
                value: "nix-command flakes".to_owned(),
            },
            "enable experimental flakes feature",
        ),
    );
    let ghost start = script(calls@);
    assert(start == starting_part());
    let settings = &request.settings;
    let n: usize = settings.len();
    let mut i: usize = 0;
    assert(start + settings_part(request@.settings).take(0) =~= start);
    while i < n
        invariant
            i <= n == settings@.len(),
            request@.settings == pairs(settings@),
            script(calls@) == start + settings_part(request@.settings).take(i as int),
        decreases n - i,
    {
        let (name, value) = &settings[i];
        push(&mut calls, make_setting_call(name, value));
        assert(request@.settings[i as int] == (settings@[i as int].0@, settings@[i as int].1@));
        i = i + 1;
        assert(script(calls@) =~= start + settings_part(request@.settings).take(i as int));
    }
    assert(settings_part(request@.settings).take(n as int) =~= settings_part(request@.settings));
    let ghost configured = script(calls@);
    if let Some(seconds) = request.tarball_ttl {
        push(
            &mut calls,
            plain_call(
                Op::Apply {
                    name: "tarball-ttl".to_owned(),
                    value: text::decimal_text(seconds as u64),
                },
                "apply --tarball-ttl",
            ),
        );
    }
    assert(script(calls@) =~= configured + ttl_part(request@.tarball_ttl));
    let ghost timed = script(calls@);
    push(&mut calls, plain_call(Op::InitStore, "nix_libstore_init"));
    push(&mut calls, plain_call(Op::InitExpr, "nix_libexpr_init"));
    push(
        &mut calls,
        giving_call(
            Op::OpenStore { uri: "daemon".to_owned() },
            "nix_store_open(daemon)",
            "nix_store_open",
            Handle::Store,
        ),
    );
    push(
        &mut calls,
        giving_call(
            Op::NewFlakeSettings,
            "nix_flake_settings_new",
            "nix_flake_settings_new",
            Handle::FlakeSettings,
        ),
    );
    push(
        &mut calls,
        giving_call(
            Op::NewFetchSettings,
            "nixvm_fetchers_settings_new",
            "nixvm_fetchers_settings_new",
            Handle::FetchSettings,
        ),
    );
    push(
        &mut calls,
        giving_call(
            Op::NewBuilder,
            "nix_eval_state_builder_new",
            "nix_eval_state_builder_new",
            Handle::Builder,
        ),
    );
    push(&mut calls, plain_call(Op::LoadBuilder, "nix_eval_state_builder_load"));
    push(
        &mut calls,
        plain_call(Op::AddFlakeSettings, "nix_flake_settings_add_to_eval_state_builder"),
    );
    push(
        &mut calls,
        giving_call(
            Op::BuildState,
            "nix_eval_state_build",
            "nix_eval_state_build",
            Handle::State,
        ),
    );
    push(
        &mut calls,
        giving_call(
            Op::NewParseFlags,
            "nix_flake_reference_parse_flags_new",
            "nix_flake_reference_parse_flags_new",
            Handle::ParseFlags,
        ),
    );
    push(&mut calls, Call { op: Op::WorkingDirectory, check: Check::Directory, gives: None });
    assert(script(calls@) =~= timed + opening_part());
    calls
}

/// Adds the second part of the script.
pub fn add_second_part(calls: &mut Vec<Call<String>>, request: &Request, dir: &String)
    ensures
        script(final(calls)@) == script(old(calls)@) + second_part(request@, dir@),
{
    let ghost before = script(calls@);
    push(
        calls,
        plain_call(
            Op::SetBaseDirectory { dir: dir.clone() },
            "set base directory on parse flags",
        ),
    );
    let circumstance = "parse flake ref `".to_owned().concat(request.flake_ref.as_str()).concat(
        "`",
    );
    push(
        calls,
        make_reference_call(circumstance.as_str(), &request.flake_ref, Handle::FlakeRef),
    );
    assert(script(calls@) =~= before + second_part(request@, dir@));
}

fn override_message(key: &String, uri: &String) -> (s: String)
    ensures
        s@ == override_text((key@, uri@)),
{
    "override `".to_owned().concat(key.as_str()).concat(" ").concat(uri.as_str()).concat("`")
}

fn add_overrides_part(calls: &mut Vec<Call<String>>, overrides: &Vec<(String, String)>)
    ensures
        script(final(calls)@) == script(old(calls)@) + overrides_part(pairs(overrides@)),
{
    let ghost start = script(calls@);
    let ghost model = pairs(overrides@);
    let n: usize = overrides.len();
    let mut i: usize = 0;
    assert(start + overrides_part(model.take(0)) =~= start);
    while i < n
        invariant
            i <= n == overrides@.len(),
            model == pairs(overrides@),
            script(calls@) == start + overrides_part(model.take(i as int)),
        decreases n - i,
    {
        let (key, uri) = &overrides[i];
        let shown = override_message(key, uri);
        push(
            calls,
            make_reference_call(
                "parse ".to_owned().concat(shown.as_str()).as_str(),
                uri,
                Handle::Override(i),
            ),
        );
        push(
            calls,
            plain_call(
                Op::AddOverride { input: key.clone(), reference: Handle::Override(i) },
                "add ".to_owned().concat(shown.as_str()).as_str(),
            ),
        );
        proof {
            assert(model[i as int] == (key@, uri@));
            assert(model.take(i + 1).drop_last() =~= model.take(i as int));
            assert(model.take(i + 1).last() == (key@, uri@));
        }
        i = i + 1;
        assert(script(calls@) =~= start + overrides_part(model.take(i as int)));
    }
    assert(model.take(n as int) =~= model);
}

fn segments_of(path: &str) -> (v: Vec<String>)
    ensures
        text::texts(v@) == segments(path@),
{
    let parts = text::split_text(path, '.');
    let ghost model = text::split(path@, '.');
    let ghost keep = |s: Seq<char>| s.len() > 0;
    let n: usize = parts.len();
    let mut v: Vec<String> = Vec::new();
    let mut i: usize = 0;
    proof {
        reveal(Seq::filter);
        assert(model.take(0).filter(keep) =~= Seq::empty());
        assert(text::texts(v@) =~= Seq::empty());
        assert(text::texts(parts@).len() == parts@.len());
    }
    while i < n
        invariant
            i <= n == parts@.len() == model.len(),
            text::texts(parts@) == model,
            keep == (|s: Seq<char>| s.len() > 0),
            text::texts(v@) == model.take(i as int).filter(keep),
        decreases n - i,
    {
        let ghost before = v@;
        proof {
            reveal(Seq::filter);
            assert(text::texts(parts@)[i as int] == parts@[i as int]@);
            assert(model.take(i + 1).drop_last() =~= model.take(i as int));
            assert(model.take(i + 1).last() == model[i as int]);
        }
        if !parts[i].as_str().is_empty() {
            v.push(parts[i].clone());
            assert(text::texts(v@) =~= text::texts(before).push(model[i as int]));
        }
        i = i + 1;
    }
    assert(model.take(n as int) =~= model);
    v
}

fn walking_message(start: &str, segment: &String, path: &str) -> (s: String)
    ensures
        s@ == start@ + walking(segment@, path@),
{
    let shown = segment.clone().concat("` while walking `").concat(path).concat("`");
    start.to_owned().concat(shown.as_str())
}

/// Adds the calls that walk a dotted path below the value `root`, and tells where the walk ends.
pub fn walk_attrs(calls: &mut Vec<Call<String>>, root: Handle, path: &str) -> (end: Handle)
    requires
        root matches Handle::Attr(depth) ==> depth + 1 + segments(path@).len() <= usize::MAX,
    ensures
        script(final(calls)@) == script(old(calls)@) + walk(root, path@),
        end == walked_to(root, segments(path@)),
{
    let ghost start = script(calls@);
    let parts = segments_of(path);
    let ghost model = segments(path@);
    let n: usize = parts.len();
    assert(text::texts(parts@).len() == n);
    let base: usize = match root {
        Handle::Attr(depth) => depth + 1,
        _ => 0,
    };
    if n == 0 {
        let what = "retain value while walking `".to_owned().concat(path).concat("`");
        push(
            calls,
            Call {
                op: Op::Retain { of: root, into: Handle::Attr(base) },
                check: Check::Status { what },
                gives: Some(Handle::Attr(base)),
            },
        );
        assert(script(calls@) =~= start + walk(root, path@));
        return Handle::Attr(base);
    }
    let mut i: usize = 0;
    assert(start + descent(root, path@, model.take(0)) =~= start);
    while i < n
        invariant
            i <= n == parts@.len(),
            base == depth_below(root),
            base + n <= usize::MAX,
            text::texts(parts@) == model,
            script(calls@) == start + descent(root, path@, model.take(i as int)),
        decreases n - i,
    {
        let segment = &parts[i];
        let from = if i == 0 {
            root
        } else {
            Handle::Attr(base + (i - 1))
        };
        let into = Handle::Attr(base + i);
        let null = "attribute `".to_owned().concat(segment.as_str()).concat(
            "` missing while walking `",
        ).concat(path).concat("`");
        push(
            calls,
            Call {
                op: Op::GetAttr { of: from, name: segment.clone(), into },
                check: Check::StatusOrNull { what: walking_message("get `", segment, path), null },
                gives: Some(into),
            },
        );
        push(
            calls,
            plain_call(
                Op::Force { of: into },
                walking_message("force `", segment, path).as_str(),
            ),
        );
        if i > 0 {
            push(calls, freeing_call(from));
        }
        proof {
            assert(text::texts(parts@)[i as int] == segment@);
            assert(model.take(i + 1).drop_last() =~= model.take(i as int));
            assert(model.take(i + 1).last() == segment@);
        }
        i = i + 1;
        assert(script(calls@) =~= start + descent(root, path@, model.take(i as int)));
    }
    assert(model.take(n as int) =~= model);
    Handle::Attr(base + (n - 1))
}

/// Adds the calls that read the text at the end of a dotted path below the outputs.
pub fn read_path_string(calls: &mut Vec<Call<String>>, path: &str)
    ensures
        script(final(calls)@) == script(old(calls)@) + read_part(path@),
{
    let ghost start = script(calls@);
    let value = walk_attrs(calls, Handle::Outputs, path);
    let what = "read string at `".to_owned().concat(path).concat("`");
    push(calls, Call { op: Op::ReadString { of: value }, check: Check::Text { what }, gives: None });
    push(calls, freeing_call(value));
    assert(script(calls@) =~= start + read_part(path@));
}

fn configuration_path(fragment: &String) -> (s: String)
    ensures
        s@ == attr_path(fragment@),
{
    let name = if fragment.as_str().is_empty() {
        "default".to_owned()
    } else {
        fragment.clone()
    };
    "nixosConfigurations.".to_owned().concat(name.as_str())
}

/// Adds the third part of the script.
pub fn add_third_part(calls: &mut Vec<Call<String>>, request: &Request, fragment: &String)
    ensures
        script(final(calls)@) == script(old(calls)@) + third_part(request@, fragment@),
{
    let ghost start = script(calls@);
    push(
        calls,
        giving_call(
            Op::NewLockFlags,
            "nix_flake_lock_flags_new",
            "nix_flake_lock_flags_new",
            Handle::LockFlags,
        ),
    );
    push(calls, plain_call(Op::LockVirtually, "nix_flake_lock_flags_set_mode_virtual"));
    assert(script(calls@) =~= start + flags_part());
    add_overrides_part(calls, &request.overrides);
    let ghost overridden = script(calls@);
    push(
        calls,
        giving_call(Op::LockFlake, "nix_flake_lock", "nix_flake_lock", Handle::Locked),
    );
    push(
        calls,
        giving_call(
            Op::OutputAttrs,
            "nix_locked_flake_get_output_attrs",
            "nix_locked_flake_get_output_attrs",
            Handle::Outputs,
        ),
    );
    push(calls, plain_call(Op::Force { of: Handle::Outputs }, "force outputs"));
    assert(script(calls@) =~= overridden + locking_part());
    let attr = configuration_path(fragment);
    let ghost locked = script(calls@);
    read_path_string(
        calls,
        attr.clone().concat(".config.system.build.image.drvPath").as_str(),
    );
    read_path_string(
        calls,
        attr.clone().concat(".config.system.build.image.outPath").as_str(),
    );
    read_path_string(calls, attr.clone().concat(".config.image.fileName").as_str());
    read_path_string(
        calls,
        attr.clone().concat(".config.system.build.toplevel.outPath").as_str(),
    );
    read_path_string(
        calls,
        attr.clone().concat(".config.system.build.closureInfo.drvPath").as_str(),
    );
    read_path_string(
        calls,
        attr.clone().concat(".config.system.build.closureInfo.outPath").as_str(),
    );
    assert(script(calls@) =~= locked + reading_part(attr@));
    assert(script(calls@) =~= start + third_part(request@, fragment@));
}

/// Adds the calls that realise a derivation.
pub fn realise_drv(calls: &mut Vec<Call<String>>, circumstance: &str, drv: &String)
    ensures
        script(final(calls)@) == script(old(calls)@) + realise_part(circumstance@, drv@),
{
    let ghost start = script(calls@);
    let null = "nix_store_parse_path returned NULL for ".to_owned().concat(drv.as_str());
    push(
        calls,
        Call {
            op: Op::ParseStorePath { path: drv.clone() },
            check: Check::StatusOrNull {
                what: within_text(circumstance, "nix_store_parse_path"),
                null: within_text(circumstance, null.as_str()),
            },
            gives: Some(Handle::StorePath),
        },
    );
    push(
        calls,
        plain_call(Op::RealisePath, within_text(circumstance, "nix_store_realise").as_str()),
    );
    push(calls, freeing_call(Handle::StorePath));
    assert(script(calls@) =~= start + realise_part(circumstance@, drv@));
}

/// Adds the fourth part of the script.
pub fn add_fourth_part(calls: &mut Vec<Call<String>>, image: &String, closure: &String)
    ensures
        script(final(calls)@) == script(old(calls)@) + fourth_part(image@, closure@),
{
    let ghost start = script(calls@);
    realise_drv(calls, "realise image drv", image);
    realise_drv(calls, "realise closureInfo drv", closure);
    assert(script(calls@) =~= start + fourth_part(image@, closure@));
}

// ---------------------------------------------------------------------------------------------
// What holds of the script.

/// Every setting is applied before the libraries that read the settings are started.
pub proof fn law_settings_come_first(request: RequestModel, i: int, j: int)
    requires
        0 <= i < first_part(request).len(),
        0 <= j < first_part(request).len(),
        first_part(request)[i].op is Apply,
        first_part(request)[j].op is InitStore || first_part(request)[j].op is InitExpr,
    ensures
        i < j,
{
    let front = starting_part() + settings_part(request.settings) + ttl_part(request.tarball_ttl);
    let n = starting_part().len() as int;
    let m = n + settings_part(request.settings).len();
    assert(first_part(request) =~= front + opening_part());
    if j < front.len() {
        if j >= n && j < m {
            assert(front[j] == setting_call(request.settings[j - n]));
        }
        assert(false);
    }
    if i >= front.len() {
        assert(first_part(request)[i] == opening_part()[i - front.len()]);
    }
}

/// Every setting that the user asked for and that can be handed to the library is applied, in its
/// order, behind the one that switches flakes on.
pub proof fn law_settings_are_applied_in_order(request: RequestModel, i: int)
    requires
        0 <= i < request.settings.len(),
        !path::has_zero(request.settings[i].0),
        !path::has_zero(request.settings[i].1),
    ensures
        3 + i < first_part(request).len(),
        first_part(request)[3 + i].op == (Op::Apply {
            name: request.settings[i].0,
            value: request.settings[i].1,
        }),
{
    assert(first_part(request)[3 + i] == setting_call(request.settings[i]));
}

/// The flake is locked in memory only: that is asked for before the flake is locked.
pub proof fn law_lock_is_virtual(request: RequestModel, fragment: Seq<char>, k: int)
    requires
        0 <= k < third_part(request, fragment).len(),
        third_part(request, fragment)[k].op is LockFlake,
    ensures
        exists|j: int| 0 <= j < k && third_part(request, fragment)[j].op is LockVirtually,
{
    assert(third_part(request, fragment)[0] == flags_part()[0]);
    assert(third_part(request, fragment)[1] == flags_part()[1]);
    assert(third_part(request, fragment)[1].op is LockVirtually);
}

} // verus!
