use nixvm::daemon::{Detach, DetachOp, DetachStage, Target};
use nixvm::launch_id::LaunchId;
use nixvm::path::HostPath;
use nixvm::vm_process::Returned;

const LOG: &str = "/s/logs/22222222-2222-2222-2222-222222222222.log";

fn detach() -> Detach {
    Detach::detach_into_daemon(&HostPath::from_text("/s"), LaunchId { bytes: [0x22; 16] })
}

fn op_text(op: &DetachOp<HostPath, String>) -> String {
    match op {
        DetachOp::MakeDirs(p) => format!("mkdir {}", p.show()),
        DetachOp::Announce(s) => format!("say {}", s),
        DetachOp::Fork => "fork".to_string(),
        DetachOp::Exit { code } => format!("exit {}", code),
        DetachOp::NewSession => "setsid".to_string(),
        DetachOp::OpenLog { log, mode } => format!("open {} {:o}", log.show(), mode),
        DetachOp::OpenNull => "open null".to_string(),
        DetachOp::Redirect { stream, to } => format!("dup2 {} {}", stream, match to {
            Target::Null => "null",
            Target::Log => "log",
        }),
    }
}

fn go(values: &[i32]) -> (Vec<String>, Detach) {
    let mut d = detach();
    let mut ops = Vec::new();
    for value in values {
        ops.push(op_text(&d.current().unwrap()));
        d.answered(Returned { value: *value, error: "cause".to_string() });
    }
    (ops, d)
}

#[test]
fn the_way_to_the_daemon() {
    let (ops, d) = go(&[0, 0, 0, 5, 0, 3, 4, 0, 1, 2]);
    assert_eq!(
        ops,
        vec![
            "mkdir /s/logs".to_string(),
            format!("say nixvm: detached, log: {}", LOG),
            "fork".to_string(),
            "setsid".to_string(),
            "fork".to_string(),
            format!("open {} 600", LOG),
            "open null".to_string(),
            "dup2 0 null".to_string(),
            "dup2 1 log".to_string(),
            "dup2 2 log".to_string(),
        ]
    );
    assert_eq!(d.stage, DetachStage::Daemon);
    assert!(d.current().is_none());
    assert!(d.finish().is_ok());
}

#[test]
fn the_processes_that_end() {
    let (_, d) = go(&[0, 0, 77]);
    assert_eq!(d.stage, DetachStage::Starter);
    assert_eq!(op_text(&d.current().unwrap()), "exit 0");
    let (_, d) = go(&[0, 0, 0, 1, 77]);
    assert_eq!(d.stage, DetachStage::Leader);
    assert_eq!(op_text(&d.current().unwrap()), "exit 0");
}

#[test]
fn how_detaching_fails() {
    let error = |values: &[i32]| go(values).1.finish().unwrap_err().text;
    assert_eq!(error(&[-1]), "mkdir -p /s/logs: cause");
    assert_eq!(error(&[0, 0, -1]), "first fork: cause");
    assert_eq!(error(&[0, 0, 0, -1]), "setsid: cause");
    assert_eq!(error(&[0, 0, 0, 1, -1]), "second fork: cause");
    assert_eq!(error(&[0, 0, 0, 1, 0, -1]), format!("open {}: cause", LOG));
    assert_eq!(error(&[0, 0, 0, 1, 0, 3, -1]), "open /dev/null: cause");
    assert_eq!(error(&[0, 0, 0, 1, 0, 3, 4, -1]), "dup2 stdin: cause");
    assert_eq!(error(&[0, 0, 0, 1, 0, 3, 4, 0, -1]), "dup2 stdout: cause");
    assert_eq!(error(&[0, 0, 0, 1, 0, 3, 4, 0, 1, -1]), "dup2 stderr: cause");
}
