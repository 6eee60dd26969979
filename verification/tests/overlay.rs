use nixvm::gc_root::{add_gc_root, add_root_args, add_root_outcome, ExitReport, GcRoot};
use nixvm::host::{FileOp, FilePlan};
use nixvm::launch_id::LaunchId;
use nixvm::overlay::{Overlay, OverlayMode};
use nixvm::path::HostPath;

const ID: LaunchId = LaunchId { bytes: [0x11; 16] };

fn op_text(op: &FileOp<HostPath, String>) -> String {
    match op {
        FileOp::MakeDirs(p) => format!("mkdir {}", p.show()),
        FileOp::RemoveFile(p) => format!("remove {}", p.show()),
        FileOp::CopyFile { from, to } => format!("copy {} {}", from.show(), to.show()),
        FileOp::Inspect(p) => format!("inspect {}", p.show()),
        FileOp::SetMode { of, mode } => format!("chmod {:o} {}", mode, of.show()),
        FileOp::WriteText { to, text } => format!("write {} {:?}", to.show(), text),
        FileOp::AddRoot { closure_info, link } => {
            format!("root {} {}", closure_info.show(), link.show())
        }
    }
}

fn ops(mut plan: FilePlan) -> Vec<String> {
    let mut all = Vec::new();
    while let Some(op) = plan.current() {
        all.push(op_text(op));
        plan.report(Ok(())).unwrap();
    }
    plan.finish().unwrap();
    all
}

fn failure_at(mut plan: FilePlan, at: usize) -> Option<String> {
    for _ in 0..at {
        plan.report(Ok(())).unwrap();
    }
    plan.report(Err("cause".to_string())).err().map(|e| e.text)
}

#[test]
fn a_launch_copies_the_image() {
    let temp = HostPath::from_text("/tmp");
    let (o, plan) = Overlay::ephemeral(&temp, "/nix/store/i/disk.raw", ID);
    let at = "/tmp/nixvm-11111111-1111-1111-1111-111111111111.img";
    assert_eq!(o.path.show(), at);
    assert_eq!(o.mode, OverlayMode::Ephemeral);
    assert_eq!(o.removal().unwrap().show(), at);
    assert_eq!(
        ops(plan),
        vec![
            format!("copy /nix/store/i/disk.raw {}", at),
            format!("inspect {}", at),
            format!("chmod 600 {}", at),
        ]
    );
}

#[test]
fn how_copying_fails() {
    let copy = || Overlay::persistent("/b", HostPath::from_text("/d"), false, false).unwrap().1;
    assert_eq!(
        failure_at(copy(), 0),
        Some("copy /b \u{2192} /d: cause".to_string())
    );
    assert_eq!(failure_at(copy(), 1), Some("cause".to_string()));
    assert_eq!(failure_at(copy(), 2), Some("cause".to_string()));
}

#[test]
fn a_saved_image_stays() {
    let (o, plan) = Overlay::persistent("/b", HostPath::from_text("/d"), false, false).unwrap();
    assert_eq!(o.mode, OverlayMode::Persistent);
    assert!(o.removal().is_none());
    assert_eq!(ops(plan), vec!["copy /b /d", "inspect /d", "chmod 600 /d"]);
}

#[test]
fn what_is_there_is_not_overwritten() {
    let e = Overlay::persistent("/b", HostPath::from_text("/d"), false, true)
        .err()
        .unwrap();
    assert_eq!(
        e.text,
        "/d already exists; pass `nixvm load /d` to resume it, or `--force` to overwrite"
    );
}

#[test]
fn what_is_there_is_overwritten_by_force() {
    let force = || Overlay::persistent("/b", HostPath::from_text("/d"), true, true).unwrap().1;
    assert_eq!(
        ops(force()),
        vec![
            "remove /d",
            "remove /d.nixvm",
            "copy /b /d",
            "inspect /d",
            "chmod 600 /d"
        ]
    );
    assert_eq!(
        failure_at(force(), 0),
        Some("remove existing /d: cause".to_string())
    );
    assert_eq!(failure_at(force(), 1), None);
    let fresh = Overlay::persistent("/b", HostPath::from_text("/d"), true, false).unwrap().1;
    assert_eq!(ops(fresh), vec!["copy /b /d", "inspect /d", "chmod 600 /d"]);
}

#[test]
fn loading_an_image() {
    let load = |found| Overlay::load(HostPath::from_text("/d"), found).map_err(|e| e.text);
    let o = load(Some(Ok(0o100600))).unwrap();
    assert_eq!(o.mode, OverlayMode::Loaded);
    assert_eq!(o.path.show(), "/d");
    assert!(o.removal().is_none());
    assert!(load(Some(Ok(0o200))).is_ok());
    assert_eq!(load(None).err(), Some("/d does not exist".to_string()));
    assert_eq!(
        load(Some(Ok(0o100477))).err(),
        Some("/d is not writable; chmod u+w it or copy it elsewhere first".to_string())
    );
    assert_eq!(
        load(Some(Err("permission denied".to_string()))).err(),
        Some("permission denied".to_string())
    );
}

#[test]
fn a_root_of_a_launch() {
    let state = HostPath::from_text("/s");
    let (root, plan) = GcRoot::ephemeral(&state, "/nix/store/c", ID);
    let dir = "/s/transient/11111111-1111-1111-1111-111111111111";
    assert!(root.ephemeral);
    assert_eq!(root.removal().unwrap().show(), dir);
    assert_eq!(
        ops(plan),
        vec![
            format!("mkdir {}", dir),
            format!("root /nix/store/c {}/closure-info", dir)
        ]
    );
}

#[test]
fn a_root_of_a_saved_image() {
    let state = HostPath::from_text("/s");
    let (root, plan) = GcRoot::persistent(&state, "/nix/store/c", 255);
    assert!(!root.ephemeral);
    assert!(root.removal().is_none());
    assert_eq!(root.dir.show(), "/s/roots/00000000000000ff");
    assert_eq!(
        ops(plan),
        vec![
            "mkdir /s/roots/00000000000000ff",
            "root /nix/store/c /s/roots/00000000000000ff/closure-info"
        ]
    );
}

#[test]
fn how_keeping_a_system_fails() {
    let dir = HostPath::from_text("/r");
    assert_eq!(
        failure_at(add_gc_root("/c", &dir), 0),
        Some("mkdir -p /r: cause".to_string())
    );
    assert_eq!(failure_at(add_gc_root("/c", &dir), 1), Some("cause".to_string()));
    assert_eq!(
        add_root_outcome(Err("not found".to_string())),
        Err("spawn nix-store --add-root: not found".to_string())
    );
    let report = |success| ExitReport { success, shown: "exit status: 1".to_string() };
    assert_eq!(
        add_root_outcome(Ok(report(false))),
        Err("nix-store --add-root exited with exit status: 1".to_string())
    );
    assert_eq!(add_root_outcome(Ok(report(true))), Ok(()));
}

#[test]
fn how_nix_store_is_asked_to_keep_a_system() {
    let args = add_root_args(&HostPath::from_text("/c"), &HostPath::from_text("/r/closure-info"));
    let shown: Vec<String> = args.iter().map(|a| a.show()).collect();
    assert_eq!(
        shown,
        vec!["--realise", "/c", "--add-root", "/r/closure-info", "--indirect"]
    );
}
