use nixvm::boot::BootInputs;
use nixvm::error::Error;
use nixvm::guard::scopeguard;
use nixvm::krun::{
    call_outcome, configure_and_start_vm, error_code, krun_check, krun_check_with, GuestConfig, KrunOp,
    KrunPlan,
};
use nixvm::path::HostPath;
use nixvm::vm_process::{
    exit_code, setup_report, signal_of, Returned, RunOp, RunStage, VmRun, SETUP_FAILED,
};

fn config() -> GuestConfig {
    GuestConfig { cpus: 2, memory_mib: 2048, socket: 7, mac: [1, 2, 3, 4, 5, 6] }
}

fn boot(kernel: &[u8], initrd: &[u8], cmdline: &str) -> BootInputs {
    BootInputs {
        kernel: HostPath { bytes: kernel.to_vec() },
        initrd: HostPath { bytes: initrd.to_vec() },
        cmdline: cmdline.to_string(),
    }
}

fn op_text(op: &KrunOp<String>) -> String {
    match op {
        KrunOp::SetLogLevel { level } => format!("log {}", level),
        KrunOp::CreateContext => "context".to_string(),
        KrunOp::SetVmConfig { cpus, memory_mib } => format!("config {} {}", cpus, memory_mib),
        KrunOp::SetKernel { kernel, initrd, cmdline } => {
            format!("kernel {} {} {}", kernel, initrd, cmdline)
        }
        KrunOp::SetRootDisk { disk } => format!("disk {}", disk),
        KrunOp::ShareDirectory { tag, dir, shm_size, read_only } => {
            format!("share {} {} {} {}", tag, dir, shm_size, read_only)
        }
        KrunOp::AddNetwork { socket, mac, features, flags } => {
            format!("net {} {:?} {} {}", socket, mac, features, flags)
        }
        KrunOp::DisableVsock => "vsock".to_string(),
        KrunOp::StartEnter => "start".to_string(),
    }
}

fn carry_out(mut plan: KrunPlan) -> (Vec<String>, Result<(), String>) {
    let mut ops = Vec::new();
    loop {
        let outcome = match plan.current() {
            Some(op) => {
                ops.push(op_text(op));
                call_outcome(op, 0)
            }
            None => return (ops, plan.finish().map_err(|e| e.text)),
        };
        plan.report(outcome).unwrap();
    }
}

#[test]
fn a_guest_that_is_configured() {
    let plan = configure_and_start_vm(
        &HostPath::from_text("/d"),
        &boot(b"/k", b"/i", "init=/t/init"),
        config(),
    );
    let (ops, end) = carry_out(plan);
    assert_eq!(
        ops,
        vec![
            "log 0",
            "context",
            "config 2 2048",
            "kernel /k /i init=/t/init",
            "disk /d",
            "share nixstore /nix/store 0 true",
            "net 7 [1, 2, 3, 4, 5, 6] 0 0",
            "vsock",
            "start",
        ]
    );
    assert_eq!(end, Ok(()));
}

#[test]
fn a_guest_that_cannot_be_configured() {
    let disk = HostPath::from_text("/d");
    let end = |b: &BootInputs, d: &HostPath| carry_out(configure_and_start_vm(d, b, config()));
    let (ops, e) = end(&boot(b"/\xff", b"/\xff", "\0"), &disk);
    assert_eq!(ops, vec!["log 0", "context", "config 2 2048"]);
    assert_eq!(e, Err("kernel path not UTF-8".to_string()));
    let (_, e) = end(&boot(b"/k", b"/\xff", "\0"), &disk);
    assert_eq!(e, Err("initrd path not UTF-8".to_string()));
    let (_, e) = end(&boot(b"/k", b"/i", "ab\0"), &disk);
    assert_eq!(
        e,
        Err("cmdline contains NUL byte: nul byte found in provided data at position: 2"
            .to_string())
    );
    let (ops, e) = end(&boot(b"/k", b"/i", "c"), &HostPath { bytes: vec![0xff] });
    assert_eq!(ops.len(), 4);
    assert_eq!(e, Err("overlay path not UTF-8".to_string()));
}

#[test]
fn calls_that_fail() {
    assert!(krun_check(0, "krun_set_kernel").is_ok());
    assert_eq!(
        krun_check_with(-22, "krun_set_kernel", "Invalid argument").unwrap_err().text,
        "krun_set_kernel failed: -22 (Invalid argument)"
    );
    let e = krun_check(-22, "krun_set_kernel").unwrap_err();
    assert_eq!(
        e.text,
        format!(
            "krun_set_kernel failed: -22 ({})",
            std::io::Error::from_raw_os_error(22)
        )
    );
}

#[test]
fn codes_are_returned_negated() {
    assert_eq!(error_code(-22), 22);
    assert_eq!(error_code(5), -5);
    assert_eq!(error_code(i32::MIN), i32::MIN);
}

#[test]
fn results_of_calls() {
    let op = KrunOp::<String>::CreateContext;
    assert_eq!(call_outcome(&op, 3), Ok(()));
    assert_eq!(call_outcome(&op, -12), Err("krun_create_ctx: -12".to_string()));
    let op = KrunOp::<String>::DisableVsock;
    assert_eq!(call_outcome(&op, 0), Ok(()));
    let shown = std::io::Error::from_raw_os_error(2).to_string();
    assert_eq!(
        call_outcome(&op, -2),
        Err(format!("krun_disable_implicit_vsock failed: -2 ({})", shown))
    );
    let share = KrunOp::ShareDirectory {
        tag: "nixstore".to_string(),
        dir: "/nix/store".to_string(),
        shm_size: 0,
        read_only: true,
    };
    assert!(call_outcome(&share, 1).unwrap_err().starts_with("krun_add_virtiofs3(nixstore) failed: 1 ("));
}

#[test]
fn a_failed_call_ends_the_configuration() {
    let mut plan = configure_and_start_vm(
        &HostPath::from_text("/d"),
        &boot(b"/k", b"/i", "c"),
        config(),
    );
    let log = call_outcome(plan.current().unwrap(), -1);
    assert!(plan.report(log).is_ok());
    let e = plan.report(call_outcome(&KrunOp::CreateContext, -1)).unwrap_err();
    assert_eq!(e.text, "krun_create_ctx: -1");
}

#[test]
fn exit_codes() {
    assert_eq!(exit_code(0).unwrap(), 0);
    assert_eq!(exit_code(3 << 8).unwrap(), 3);
    assert_eq!(exit_code(255 << 8).unwrap(), 255);
    assert_eq!(exit_code(9).unwrap(), 137);
    assert_eq!(exit_code(11 | 0x80).unwrap(), 139);
    assert_eq!(exit_code(126).unwrap(), 254);
    assert_eq!(
        exit_code(0x137f).unwrap_err().text,
        "VM exited with unknown status 4991"
    );
    assert_eq!(
        exit_code(-1).unwrap_err().text,
        "VM exited with unknown status -1"
    );
    assert_eq!(signal_of(9), Some(9));
    assert_eq!(signal_of(256), None);
    assert_eq!(signal_of(0x7f), None);
}

#[test]
fn wait_statuses_agree_with_libc() {
    for status in [0, 1, 2, 126, 127, 128, 129, 255, 256, 0x137f, 0xff00, -1, i32::MIN, i32::MAX] {
        assert_eq!(signal_of(status).is_some(), libc::WIFSIGNALED(status));
        let expected = if libc::WIFEXITED(status) {
            Some(libc::WEXITSTATUS(status) as u8)
        } else if libc::WIFSIGNALED(status) {
            Some(128 + libc::WTERMSIG(status) as u8)
        } else {
            None
        };
        assert_eq!(exit_code(status).ok(), expected);
    }
}

fn returned(value: i32) -> Returned {
    Returned { value, error: "cause".to_string() }
}

#[test]
fn a_guest_that_runs() {
    let mut run = VmRun::fork_and_run_vm();
    assert_eq!(run.current(), Some(RunOp::Fork));
    run.answered(returned(42), 0);
    assert_eq!(run.current(), Some(RunOp::OpenNull));
    run.answered(returned(5), 0);
    assert_eq!(run.current(), Some(RunOp::RedirectInput { from: 5 }));
    run.answered(returned(-1), 0);
    assert_eq!(run.current(), Some(RunOp::Close { file: 5 }));
    run.answered(returned(0), 0);
    assert_eq!(run.current(), Some(RunOp::Wait { pid: 42 }));
    run.answered(returned(42), 3 << 8);
    assert_eq!(run.current(), None);
    assert_eq!(run.finish().unwrap(), 3);
}

#[test]
fn a_guest_without_a_null_device() {
    let mut run = VmRun::fork_and_run_vm();
    run.answered(returned(42), 0);
    run.answered(returned(-1), 0);
    assert_eq!(run.current(), Some(RunOp::Wait { pid: 42 }));
    run.answered(returned(-1), 0);
    assert_eq!(run.finish().unwrap_err().text, "waitpid: cause");
}

#[test]
fn a_guest_that_cannot_be_forked_off() {
    let mut run = VmRun::fork_and_run_vm();
    run.answered(returned(-1), 0);
    assert_eq!(run.finish().unwrap_err().text, "fork: cause");
}

#[test]
fn the_process_of_the_guest() {
    let mut run = VmRun::fork_and_run_vm();
    run.answered(returned(0), 0);
    assert_eq!(run.stage, RunStage::Guest);
    assert_eq!(run.current(), Some(RunOp::BecomeGuest));
    run.answered(returned(0), 0);
    assert_eq!(run.stage, RunStage::Unstarted);
    assert_eq!(run.current(), Some(RunOp::Exit { code: 127 }));
    assert_eq!(SETUP_FAILED, 127);
    assert_eq!(exit_code(127 << 8).unwrap(), 127);
    let e = Error::of("krun_create_ctx", "-1");
    assert_eq!(
        setup_report(&e),
        "nixvm: child VM setup failed: krun_create_ctx: -1"
    );
}

#[test]
fn a_guard_runs_once() {
    let count = std::cell::Cell::new(0);
    let mut guard = scopeguard(|| count.set(count.get() + 1));
    assert_eq!(count.get(), 0);
    guard.close();
    guard.close();
    assert_eq!(count.get(), 1);
}
