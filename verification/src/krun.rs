//! The calls into libkrun that configure the virtual machine and hand the process over to it.

use crate::boot::{BootInputs, BootModel};
use crate::error;
use crate::error::Error;
use crate::path;
use crate::path::HostPath;
use crate::plan;
use crate::plan::{OnFailure, Plan, Step};
use crate::text;
use vstd::prelude::*;
use vstd::string::StringExecFns;

verus! {

/// A call into libkrun.
pub enum KrunOp<S> {
    /// `krun_set_log_level`.
    SetLogLevel { level: u32 },
    /// `krun_create_ctx`.
    CreateContext,
    /// `krun_set_vm_config`.
    SetVmConfig { cpus: u8, memory_mib: u32 },
    /// `krun_set_kernel`, for an image that is not compressed.
    SetKernel { kernel: S, initrd: S, cmdline: S },
    /// `krun_set_root_disk`.
    SetRootDisk { disk: S },
    /// `krun_add_virtiofs3`.
    ShareDirectory { tag: S, dir: S, shm_size: u64, read_only: bool },
    /// `krun_add_net_unixgram`.
    AddNetwork { socket: i32, mac: [u8; 6], features: u32, flags: u32 },
    /// `krun_disable_implicit_vsock`.
    DisableVsock,
    /// `krun_start_enter`.
    StartEnter,
}

impl View for KrunOp<String> {
    type V = KrunOp<Seq<char>>;

    open spec fn view(&self) -> KrunOp<Seq<char>> {
        match self {
            KrunOp::SetLogLevel { level } => KrunOp::SetLogLevel { level: *level },
            KrunOp::CreateContext => KrunOp::CreateContext,
            KrunOp::SetVmConfig { cpus, memory_mib } => KrunOp::SetVmConfig {
                cpus: *cpus,
                memory_mib: *memory_mib,
            },
            KrunOp::SetKernel { kernel, initrd, cmdline } => KrunOp::SetKernel {
                kernel: kernel@,
                initrd: initrd@,
                cmdline: cmdline@,
            },
            KrunOp::SetRootDisk { disk } => KrunOp::SetRootDisk { disk: disk@ },
            KrunOp::ShareDirectory { tag, dir, shm_size, read_only } => KrunOp::ShareDirectory {
                tag: tag@,
                dir: dir@,
                shm_size: *shm_size,
                read_only: *read_only,
            },
            KrunOp::AddNetwork { socket, mac, features, flags } => KrunOp::AddNetwork {
                socket: *socket,
                mac: *mac,
                features: *features,
                flags: *flags,
            },
            KrunOp::DisableVsock => KrunOp::DisableVsock,
            KrunOp::StartEnter => KrunOp::StartEnter,
        }
    }
}

/// What the guest gets from the host, besides what it is booted with.
#[derive(Clone, Copy)]
pub struct GuestConfig {
    pub cpus: u8,
    pub memory_mib: u32,
    /// The end of the pair of sockets that leads to the network.
    pub socket: i32,
    pub mac: [u8; 6],
}

/// The model of a step of the configuration.
pub type KrunStep = (KrunOp<Seq<char>>, OnFailure<Seq<char>>);

/// A step whose failure ends the configuration.
pub open spec fn strict(op: KrunOp<Seq<char>>) -> KrunStep {
    (op, OnFailure::Fail)
}

/// The steps before the kernel is named.
pub open spec fn opening_steps(config: GuestConfig) -> Seq<KrunStep> {
    seq![
        (KrunOp::SetLogLevel { level: 0 }, OnFailure::Ignore),
        strict(KrunOp::CreateContext),
        strict(KrunOp::SetVmConfig { cpus: config.cpus, memory_mib: config.memory_mib }),
    ]
}

/// The step that names the kernel.
pub open spec fn kernel_step(boot: BootModel) -> KrunStep {
    strict(
        KrunOp::SetKernel {
            kernel: vstd::utf8::decode_utf8(boot.kernel),
            initrd: vstd::utf8::decode_utf8(boot.initrd),
            cmdline: boot.cmdline,
        },
    )
}

/// The steps from the root disk on.
pub open spec fn closing_steps(disk: Seq<u8>, config: GuestConfig) -> Seq<KrunStep> {
    seq![
        strict(KrunOp::SetRootDisk { disk: vstd::utf8::decode_utf8(disk) }),
        strict(
            KrunOp::ShareDirectory {
                tag: "nixstore"@,
                dir: "/nix/store"@,
                shm_size: 0,
                read_only: true,
            },
        ),
        strict(
            KrunOp::AddNetwork {
                socket: config.socket,
                mac: config.mac,
                features: 0,
                flags: 0,
            },
        ),
        strict(KrunOp::DisableVsock),
        strict(KrunOp::StartEnter),
    ]
}

/// Why the kernel cannot be named, if it cannot.
pub open spec fn kernel_refusal(boot: BootModel) -> Option<Seq<char>> {
    if !vstd::utf8::valid_utf8(boot.kernel) {
        Some("kernel path not UTF-8"@)
    } else if !vstd::utf8::valid_utf8(boot.initrd) {
        Some("initrd path not UTF-8"@)
    } else if path::has_zero(boot.cmdline) {
        Some(error::within("cmdline contains NUL byte"@, path::zero_byte_text(boot.cmdline)))
    } else {
        None
    }
}

/// The steps of the configuration, up to the point where it is found that it cannot go on.
pub open spec fn krun_steps(boot: BootModel, disk: Seq<u8>, config: GuestConfig) -> Seq<KrunStep> {
    if kernel_refusal(boot) is Some {
        opening_steps(config)
    } else if !vstd::utf8::valid_utf8(disk) {
        opening_steps(config).push(kernel_step(boot))
    } else {
        opening_steps(config).push(kernel_step(boot)) + closing_steps(disk, config)
    }
}

/// Why the configuration cannot go on after its steps, if it cannot.
pub open spec fn krun_ending(boot: BootModel, disk: Seq<u8>) -> Option<Seq<char>> {
    if kernel_refusal(boot) is Some {
        kernel_refusal(boot)
    } else if !vstd::utf8::valid_utf8(disk) {
        Some("overlay path not UTF-8"@)
    } else {
        None
    }
}

/// A plan of calls into libkrun.
pub type KrunPlan = Plan<KrunOp<String>>;

/// The models of the steps of a plan.
pub open spec fn models(steps: Seq<Step<KrunOp<String>>>) -> Seq<KrunStep> {
    steps.map_values(|s: Step<KrunOp<String>>| s@)
}

fn push(steps: &mut Vec<Step<KrunOp<String>>>, step: Step<KrunOp<String>>)
    ensures
        models(final(steps)@) == models(old(steps)@).push(step@),
{
    let ghost before = steps@;
    steps.push(step);
    assert(models(steps@) =~= models(before).push(step@));
}

fn kernel_op(boot: &BootInputs) -> (r: Result<KrunOp<String>, Error>)
    ensures
        r is Ok <==> kernel_refusal(boot@) is None,
        r matches Ok(op) ==> op@ == kernel_step(boot@).0,
        r matches Err(e) ==> kernel_refusal(boot@) == Some(e@),
{
    let kernel = match boot.kernel.to_text() {
        Some(s) => s,
        None => {
            return Err(Error::new("kernel path not UTF-8".to_owned()));
        },
    };
    let initrd = match boot.initrd.to_text() {
        Some(s) => s,
        None => {
            return Err(Error::new("initrd path not UTF-8".to_owned()));
        },
    };
    if let Some(at) = path::zero_position(boot.cmdline.as_str()) {
        return Err(
            Error::of("cmdline contains NUL byte", path::zero_byte_message(at).as_str()),
        );
    }
    Ok(KrunOp::SetKernel { kernel, initrd, cmdline: boot.cmdline.clone() })
}

fn push_closing(steps: &mut Vec<Step<KrunOp<String>>>, disk: String, config: GuestConfig)
    ensures
        forall|bytes: Seq<u8>|
            disk@ == vstd::utf8::decode_utf8(bytes) ==> models(final(steps)@) == models(
                old(steps)@,
            ) + #[trigger] closing_steps(bytes, config),
{
    push(steps, Step::strict(KrunOp::SetRootDisk { disk }));
    push(
        steps,
        Step::strict(
            KrunOp::ShareDirectory {
                tag: "nixstore".to_owned(),
                dir: "/nix/store".to_owned(),
                shm_size: 0,
                read_only: true,
            },
        ),
    );
    push(
        steps,
        Step::strict(
            KrunOp::AddNetwork {
                socket: config.socket,
                mac: config.mac,
                features: 0,
                flags: 0,
            },
        ),
    );
    push(steps, Step::strict(KrunOp::DisableVsock));
    push(steps, Step::strict(KrunOp::StartEnter));
    assert forall|bytes: Seq<u8>|
        disk@ == vstd::utf8::decode_utf8(bytes) implies models(steps@) == models(old(steps)@)
        + #[trigger] closing_steps(bytes, config) by {
        assert(models(steps@) =~= models(old(steps)@) + closing_steps(bytes, config));
    }
}

/// The plan that configures the virtual machine and hands the process over to it.  Where a path or the
/// command line cannot be handed to libkrun, the plan ends in an error once it comes to it.
pub fn configure_and_start_vm(disk: &HostPath, boot: &BootInputs, config: GuestConfig) -> (p:
    KrunPlan)
    requires
        !disk@.contains(0u8),
        !boot.kernel@.contains(0u8),
        !boot.initrd@.contains(0u8),
    ensures
        p.model() == krun_steps(boot@, disk@, config),
        p.end() == krun_ending(boot@, disk@),
        p.next == 0,
{
    let mut steps = Vec::new();
    push(&mut steps, Step::lenient(KrunOp::SetLogLevel { level: 0 }));
    push(&mut steps, Step::strict(KrunOp::CreateContext));
    push(
        &mut steps,
        Step::strict(
            KrunOp::SetVmConfig { cpus: config.cpus, memory_mib: config.memory_mib },
        ),
    );
    assert(models(steps@) =~= opening_steps(config));
    let op = match kernel_op(boot) {
        Ok(op) => op,
        Err(e) => {
            let p = Plan::new(steps, Some(e));
            assert(p.model() =~= models(steps@));
            return p;
        },
    };
    push(&mut steps, Step::strict(op));
    assert(models(steps@) =~= opening_steps(config).push(kernel_step(boot@)));
    match disk.to_text() {
        None => {
            let p = Plan::new(steps, Some(Error::new("overlay path not UTF-8".to_owned())));
            assert(p.model() =~= models(steps@));
            p
        },
        Some(text) => {
            push_closing(&mut steps, text, config);
            assert(models(steps@) == opening_steps(config).push(kernel_step(boot@))
                + closing_steps(disk@, config));
            let p = Plan::new(steps, None);
            assert(p.model() =~= models(steps@));
            p
        },
    }
}

/// What libkrun's functions are called in errors.
pub open spec fn name_of(op: KrunOp<Seq<char>>) -> Seq<char> {
    match op {
        KrunOp::SetLogLevel { level } => "krun_set_log_level"@,
        KrunOp::CreateContext => "krun_create_ctx"@,
        KrunOp::SetVmConfig { cpus, memory_mib } => "krun_set_vm_config"@,
        KrunOp::SetKernel { kernel, initrd, cmdline } => "krun_set_kernel"@,
        KrunOp::SetRootDisk { disk } => "krun_set_root_disk"@,
        KrunOp::ShareDirectory { tag, dir, shm_size, read_only } =>
            "krun_add_virtiofs3(nixstore)"@,
        KrunOp::AddNetwork { socket, mac, features, flags } => "krun_add_net_unixgram"@,
        KrunOp::DisableVsock => "krun_disable_implicit_vsock"@,
        KrunOp::StartEnter => "krun_start_enter"@,
    }
}

fn op_name(op: &KrunOp<String>) -> (s: &'static str)
    ensures
        s@ == name_of(op@),
{
    match op {
        KrunOp::SetLogLevel { level } => "krun_set_log_level",
        KrunOp::CreateContext => "krun_create_ctx",
        KrunOp::SetVmConfig { cpus, memory_mib } => "krun_set_vm_config",
        KrunOp::SetKernel { kernel, initrd, cmdline } => "krun_set_kernel",
        KrunOp::SetRootDisk { disk } => "krun_set_root_disk",
        KrunOp::ShareDirectory { tag, dir, shm_size, read_only } => "krun_add_virtiofs3(nixstore)",
        KrunOp::AddNetwork { socket, mac, features, flags } => "krun_add_net_unixgram",
        KrunOp::DisableVsock => "krun_disable_implicit_vsock",
        KrunOp::StartEnter => "krun_start_enter",
    }
}

/// The error of the call `what`, which returned `rc`, for which the system has the text `system`.
pub open spec fn krun_failure(what: Seq<char>, rc: i32, system: Seq<char>) -> Seq<char> {
    what + " failed: "@ + text::decimal_int(rc as int) + " ("@ + system + ")"@
}

/// `std::io::Error::from_raw_os_error` and its `Display`: the system's text for an error code.  It
/// depends on the platform and on the locale, and nothing is stated of it.
#[verifier::external_body]
fn os_error_text(code: i32) -> (s: String) {
    std::io::Error::from_raw_os_error(code).to_string()
}

/// The code of the system's error that a call of libkrun returned: libkrun returns it negated.
pub open spec fn error_code_of(rc: i32) -> i32 {
    if rc == i32::MIN {
        rc
    } else {
        (-rc) as i32
    }
}

/// The code of the system's error that a call of libkrun returned.
pub fn error_code(rc: i32) -> (code: i32)
    ensures
        code == error_code_of(rc),
{
    if rc == i32::MIN {
        rc
    } else {
        -rc
    }
}

/// Fails unless the call `what` returned zero; `system` is the system's text for its error code.
pub fn krun_check_with(rc: i32, what: &str, system: &str) -> (r: Result<(), Error>)
    ensures
        r is Ok <==> rc == 0,
        r matches Err(e) ==> e@ == krun_failure(what@, rc, system@),
{
    if rc == 0 {
        Ok(())
    } else {
        Err(
            Error::new(
                what.to_owned().concat(" failed: ").concat(
                    text::decimal_int_text(rc).as_str(),
                ).concat(" (").concat(system).concat(")"),
            ),
        )
    }
}

/// Fails unless the call `what` returned zero.  The error names the call, what it returned and the
/// system's text for that.
pub fn krun_check(rc: i32, what: &str) -> (r: Result<(), Error>)
    ensures
        r is Ok <==> rc == 0,
        r matches Err(e) ==> exists|system: Seq<char>| e@ == krun_failure(what@, rc, system),
{
    if rc == 0 {
        Ok(())
    } else {
        let system = os_error_text(error_code(rc));
        let r = krun_check_with(rc, what, system.as_str());
        assert(r matches Err(e) ==> e@ == krun_failure(what@, rc, system@));
        r
    }
}

/// Why a call that returned `rc` failed, if it did; `system` is the system's text for its error code.
pub open spec fn call_failure(op: KrunOp<Seq<char>>, rc: i32, system: Seq<char>) -> Option<
    Seq<char>,
> {
    match op {
        KrunOp::CreateContext => if rc < 0 {
            Some(error::within("krun_create_ctx"@, text::decimal_int(rc as int)))
        } else {
            None
        },
        _ => if rc == 0 {
            None
        } else {
            Some(krun_failure(name_of(op), rc, system))
        },
    }
}

/// What the result of a call means for the plan that asked for it.
pub fn call_outcome(op: &KrunOp<String>, rc: i32) -> (r: Result<(), String>)
    ensures
        exists|system: Seq<char>|
            plan::failure_of(r) == #[trigger] call_failure(op@, rc, system),
{
    let ghost witness = Seq::<char>::empty();
    match op {
        KrunOp::CreateContext => {
            let r = if rc < 0 {
                Err(
                    Error::of("krun_create_ctx", text::decimal_int_text(rc).as_str()).text,
                )
            } else {
                Ok(())
            };
            assert(plan::failure_of(r) == call_failure(op@, rc, witness));
            r
        },
        _ => {
            let name = op_name(op);
            match krun_check(rc, name) {
                Ok(()) => {
                    let r: Result<(), String> = Ok(());
                    assert(plan::failure_of(r) == call_failure(op@, rc, witness));
                    r
                },
                Err(e) => {
                    let ghost system = choose|system: Seq<char>|
                        e@ == krun_failure(name@, rc, system);
                    let r: Result<(), String> = Err(e.text);
                    assert(plan::failure_of(r) == call_failure(op@, rc, system));
                    r
                },
            }
        },
    }
}

/// The guest is started only where nothing speaks against handing over its kernel and its disk, after
/// everything else, and only where every call from the first that can fail on succeeded.
pub proof fn law_guest_starts_only_when_configured(
    boot: BootModel,
    disk: Seq<u8>,
    config: GuestConfig,
    failures: Seq<Option<Seq<char>>>,
    k: int,
)
    requires
        failures.len() == krun_steps(boot, disk, config).len(),
        0 <= k < failures.len(),
        krun_steps(boot, disk, config)[k].0 is StartEnter,
        plan::comes_to(krun_steps(boot, disk, config), failures, k as nat),
    ensures
        krun_ending(boot, disk) is None,
        k == failures.len() - 1,
        forall|j: int| 1 <= j < k ==> failures[j] is None,
{
    let steps = krun_steps(boot, disk, config);
    plan::law_plan_runs_up_to_the_first_failure(steps, failures, k as nat);
    assert forall|j: int| 1 <= j < k implies failures[j] is None by {
        assert(steps[j].1 is Fail);
    }
}

/// What the guest is handed of the host's files, besides its disk, is the store of Nix, and it can only
/// read it.
pub proof fn law_store_is_shared_read_only(
    boot: BootModel,
    disk: Seq<u8>,
    config: GuestConfig,
    k: int,
)
    requires
        0 <= k < krun_steps(boot, disk, config).len(),
    ensures
        krun_steps(boot, disk, config)[k].0 matches KrunOp::ShareDirectory {
            tag,
            dir,
            shm_size,
            read_only,
        } ==> dir == "/nix/store"@ && tag == "nixstore"@ && read_only,
{
}

/// The guest is configured as was asked for, and with nothing else: with so many processors and so much
/// memory; with the kernel, the initial ramdisk and the command line that it is to be booted with; with the
/// disk that it is to write to; and with one network, on the socket that was given and with the hardware
/// address that was given.  Each of these is configured once, and by a call whose failure counts.
pub proof fn law_guests_are_configured_as_asked(
    boot: BootModel,
    disk: Seq<u8>,
    config: GuestConfig,
    k: int,
)
    requires
        0 <= k < krun_steps(boot, disk, config).len(),
    ensures
        ({
            let steps = krun_steps(boot, disk, config);
            let op = steps[k].0;
            &&& op matches KrunOp::SetVmConfig { cpus, memory_mib } ==> cpus == config.cpus
                && memory_mib == config.memory_mib
            &&& op matches KrunOp::SetKernel { kernel, initrd, cmdline } ==> path::utf8(kernel)
                == boot.kernel && path::utf8(initrd) == boot.initrd && cmdline == boot.cmdline
            &&& op matches KrunOp::SetRootDisk { disk: named } ==> path::utf8(named) == disk
            &&& op matches KrunOp::AddNetwork { socket, mac, features, flags } ==> socket
                == config.socket && mac == config.mac && features == 0 && flags == 0
            &&& !(op is SetLogLevel) ==> steps[k].1 is Fail
            &&& op is SetLogLevel ==> k == 0
            &&& forall|j: int|
                0 <= j < steps.len() && j != k ==> !is_same_call(op, #[trigger] steps[j].0)
        }),
{
    if vstd::utf8::valid_utf8(boot.kernel) {
        vstd::utf8::decode_utf8_encode_utf8(boot.kernel);
    }
    if vstd::utf8::valid_utf8(boot.initrd) {
        vstd::utf8::decode_utf8_encode_utf8(boot.initrd);
    }
    if vstd::utf8::valid_utf8(disk) {
        vstd::utf8::decode_utf8_encode_utf8(disk);
    }
}

/// Whether two operations call the same function.
pub open spec fn is_same_call(a: KrunOp<Seq<char>>, b: KrunOp<Seq<char>>) -> bool {
    match a {
        KrunOp::SetLogLevel { level } => b is SetLogLevel,
        KrunOp::CreateContext => b is CreateContext,
        KrunOp::SetVmConfig { cpus, memory_mib } => b is SetVmConfig,
        KrunOp::SetKernel { kernel, initrd, cmdline } => b is SetKernel,
        KrunOp::SetRootDisk { disk } => b is SetRootDisk,
        KrunOp::ShareDirectory { tag, dir, shm_size, read_only } => b is ShareDirectory,
        KrunOp::AddNetwork { socket, mac, features, flags } => b is AddNetwork,
        KrunOp::DisableVsock => b is DisableVsock,
        KrunOp::StartEnter => b is StartEnter,
    }
}

/// A guest whose kernel, initial ramdisk and disk have paths that are text, and whose command line holds no
/// zero byte, is configured to the end: every call is made, the context comes before everything that is
/// configured in it, and the guest is started last.  Every other guest is not started.
pub proof fn law_guests_that_can_be_configured_are(
    boot: BootModel,
    disk: Seq<u8>,
    config: GuestConfig,
)
    ensures
        ({
            let steps = krun_steps(boot, disk, config);
            let n = steps.len() as int;
            let can = vstd::utf8::valid_utf8(boot.kernel) && vstd::utf8::valid_utf8(boot.initrd)
                && vstd::utf8::valid_utf8(disk) && !path::utf8(boot.cmdline).contains(0u8);
            &&& krun_ending(boot, disk) is None <==> can
            &&& can ==> {
                &&& n == 9
                &&& steps[0].0 == KrunOp::<Seq<char>>::SetLogLevel { level: 0 }
                &&& steps[1].0 is CreateContext
                &&& steps[2].0 is SetVmConfig
                &&& steps[3].0 is SetKernel
                &&& steps[4].0 is SetRootDisk
                &&& steps[5].0 is ShareDirectory
                &&& steps[6].0 is AddNetwork
                &&& steps[7].0 is DisableVsock
                &&& steps[8].0 is StartEnter
            }
            &&& !can ==> forall|k: int| 0 <= k < n ==> !((#[trigger] steps[k]).0 is StartEnter)
        }),
{
}

/// A call of libkrun failed exactly if it returned something other than zero; making the context, which
/// returns its number, only if that is negative.  The error starts with the function's name and tells what
/// was returned.
pub proof fn law_failed_calls_are_told(op: KrunOp<Seq<char>>, rc: i32, system: Seq<char>)
    ensures
        call_failure(op, rc, system) is Some <==> (if op is CreateContext {
            rc < 0
        } else {
            rc != 0
        }),
        call_failure(op, rc, system) matches Some(e) ==> {
            let name = name_of(op);
            let told = text::decimal_int(rc as int);
            let at = name.len() as int + (if op is CreateContext {
                2int
            } else {
                9int
            });
            &&& e.take(name.len() as int) == name
            &&& e.subrange(at, at + told.len()) == told
            &&& !(op is CreateContext) ==> e.subrange(
                at + told.len() + 2,
                at + told.len() + 2 + system.len(),
            ) == system
        },
{
    let name = name_of(op);
    let told = text::decimal_int(rc as int);
    if let Some(e) = call_failure(op, rc, system) {
        reveal_strlit(" failed: ");
        reveal_strlit(" (");
        assert(e.take(name.len() as int) =~= name) by {
            error::law_causes_are_told_whole(name, told);
        }
        if op is CreateContext {
            error::law_causes_are_told_whole(name, told);
            let at = name.len() as int + 2;
            assert(e.subrange(at, at + told.len()) =~= e.skip(at));
        } else {
            let at = name.len() as int + 9;
            assert(e.subrange(at, at + told.len()) =~= told);
            assert(e.subrange(at + told.len() + 2, at + told.len() + 2 + system.len()) =~= system);
        }
    }
}

/// The system's code for the error of a call is what the call returned with its sign turned.
pub proof fn law_codes_are_turned(rc: i32)
    requires
        rc != i32::MIN,
    ensures
        error_code_of(rc) + rc == 0,
{
}

} // verus!
