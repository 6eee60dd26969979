use nixvm::args::{LoadArgs, RunArgs};
use nixvm::control::Stage;
use nixvm::error::Error;
use nixvm::host::FileOp;
use nixvm::launch_id::LaunchId;
use nixvm::overlay::OverlayMode;
use nixvm::path::HostPath;
use nixvm::realise::Realised;
use nixvm::session::{exit_status, load, load_in, run, run_in, Action, Session};
use nixvm::vmnet::StartParams;

const ID: LaunchId = LaunchId { bytes: [0x33; 16] };
const ID_TEXT: &str = "33333333-3333-3333-3333-333333333333";

fn path(s: &str) -> HostPath {
    HostPath::from_text(s)
}

fn run_args(persist: Option<&str>, force: bool, detach: bool) -> RunArgs {
    RunArgs {
        flake_ref: "path:.#vm".to_string(),
        overrides: Vec::new(),
        settings: Vec::new(),
        tarball_ttl: None,
        persist: persist.map(path),
        force,
        detach,
        cpus: 2,
        memory_mib: 2048,
    }
}

fn load_args(flake: Option<&str>, detach: bool) -> LoadArgs {
    LoadArgs {
        path: path("/d"),
        flake_ref: flake.map(|s| s.to_string()),
        overrides: Vec::new(),
        settings: Vec::new(),
        tarball_ttl: None,
        detach,
        cpus: 2,
        memory_mib: 2048,
    }
}

fn launch_run(persist: Option<&str>, force: bool, detach: bool) -> Session {
    run_in(run_args(persist, force, detach), ID, path("/tmp"), path("/s"))
}

fn launch_load(flake: Option<&str>, detach: bool) -> Session {
    load_in(load_args(flake, detach), ID, path("/tmp"), path("/s"))
}

fn action_text(action: &Action) -> String {
    match action {
        Action::Realise => "realise".to_string(),
        Action::Inspect(p) => format!("inspect {}", p.show()),
        Action::ReadText(p) => format!("read {}", p.show()),
        Action::Probe(p) => format!("probe {}", p.show()),
        Action::ReadBoot(f) => format!("boot {}", f.kernel.show()),
        Action::Perform(op) => match op {
            FileOp::MakeDirs(p) => format!("mkdir {}", p.show()),
            FileOp::RemoveFile(p) => format!("clear {}", p.show()),
            FileOp::CopyFile { from, to } => format!("copy {} {}", from.show(), to.show()),
            FileOp::Inspect(_) => "stat".to_string(),
            FileOp::SetMode { mode, .. } => format!("chmod {:o}", mode),
            FileOp::WriteText { to, text } => format!("write {} {}", to.show(), text),
            FileOp::AddRoot { closure_info, link } => {
                format!("root {} {}", closure_info.show(), link.show())
            }
        },
        Action::Hash(p) => format!("hash {}", p.show()),
        Action::Detach => "detach".to_string(),
        Action::StartNet => "start net".to_string(),
        Action::EnterTty => "enter tty".to_string(),
        Action::RunGuest => "run guest".to_string(),
        Action::StopNet => "stop net".to_string(),
        Action::RestoreTty => "restore tty".to_string(),
        Action::RemoveFile(p) => format!("remove {}", p.show()),
        Action::RemoveTree(p) => format!("remove tree {}", p.show()),
        Action::Finish => "finish".to_string(),
    }
}

/// Answers the current action: with success, or with a failure where it can fail.
fn answer(s: &mut Session, fail: bool) {
    let error = || Error::new("cause".to_string());
    match s.control.stage {
        Stage::Inspecting => s.inspected(if fail { None } else { Some(Ok(0o600)) }),
        Stage::Realising => s.realised(if fail {
            Err(error())
        } else {
            Ok(Realised {
                image_file: "/o/disk.raw".to_string(),
                toplevel: "/o/top".to_string(),
                closure_info: "/o/ci".to_string(),
            })
        }),
        Stage::ReadingSidecar => s.sidecar_read(if fail {
            Err("cause".to_string())
        } else {
            Ok("toplevel /old/top\nclosureInfo /old/ci\n".to_string())
        }),
        Stage::ProbingToplevel | Stage::ProbingClosure => s.probed(!fail),
        Stage::ReadingBoot => s.boot_read(
            if fail { Err("cause".to_string()) } else { Ok(path("/k")) },
            Ok(path("/i")),
            Ok("quiet".to_string()),
            None,
        ),
        Stage::ProbingImage => s.image_probed(fail),
        Stage::Copying | Stage::Recording | Stage::Rooting => {
            s.performed(if fail { Err("cause".to_string()) } else { Ok(()) })
        }
        Stage::Hashing => s.hashed(16),
        Stage::Detaching => s.detached(if fail { Err(error()) } else { Ok(()) }),
        Stage::StartingNet => s.net_started(if fail {
            Err(error())
        } else {
            Ok(StartParams { mac: [9; 6], mtu: 1500, max_packet_size: 1514 })
        }),
        Stage::EnteringTty => s.tty_entered(),
        Stage::Running => s.ran(if fail { Err(error()) } else { Ok(3) }),
        _ => s.closed(),
    }
}

/// The actions of a launch of which the action `failing` fails, and its outcome.
fn course(mut s: Session, failing: Option<&str>) -> (Vec<String>, Result<u8, String>) {
    let mut actions = Vec::new();
    loop {
        let shown = action_text(&s.current());
        if shown == "finish" {
            return (actions, s.finish().map_err(|e| e.text));
        }
        answer(&mut s, failing == Some(shown.as_str()));
        actions.push(shown);
    }
}

fn image() -> String {
    format!("/tmp/nixvm-{}.img", ID_TEXT)
}

fn transient() -> String {
    format!("/s/transient/{}", ID_TEXT)
}

#[test]
fn a_launch_that_leaves_nothing() {
    let (actions, outcome) = course(launch_run(None, false, false), None);
    assert_eq!(outcome, Ok(3));
    assert_eq!(
        actions,
        vec![
            "realise".to_string(),
            "boot /o/top/kernel".to_string(),
            format!("copy /o/disk.raw {}", image()),
            "stat".to_string(),
            "chmod 600".to_string(),
            format!("mkdir {}", transient()),
            format!("root /o/ci {}/closure-info", transient()),
            "start net".to_string(),
            "enter tty".to_string(),
            "run guest".to_string(),
            "stop net".to_string(),
            "restore tty".to_string(),
            format!("remove {}", image()),
            format!("remove tree {}", transient()),
        ]
    );
}

#[test]
fn a_launch_that_saves_its_image() {
    let (actions, outcome) = course(launch_run(Some("/d"), false, true), None);
    assert_eq!(outcome, Ok(3));
    assert_eq!(
        actions,
        vec![
            "realise",
            "boot /o/top/kernel",
            "probe /d",
            "copy /o/disk.raw /d",
            "stat",
            "chmod 600",
            "write /d.nixvm toplevel /o/top\nclosureInfo /o/ci\n",
            "hash /d",
            "mkdir /s/roots/0000000000000010",
            "root /o/ci /s/roots/0000000000000010/closure-info",
            "detach",
            "start net",
            "enter tty",
            "run guest",
            "stop net",
            "restore tty",
        ]
    );
}

#[test]
fn a_launch_that_replaces_an_image() {
    let (actions, _) = course(launch_run(Some("/d"), true, false), Some("probe /d"));
    assert_eq!(actions[2..6], ["probe /d", "clear /d", "clear /d.nixvm", "copy /o/disk.raw /d"]);
    let (actions, outcome) = course(launch_run(Some("/d"), false, false), Some("probe /d"));
    assert_eq!(actions.len(), 3);
    assert_eq!(
        outcome,
        Err("failed to prepare overlay: /d already exists; pass `nixvm load /d` to resume it, \
             or `--force` to overwrite"
            .to_string())
    );
}

#[test]
fn a_launch_that_loads_an_image() {
    let (actions, outcome) = course(launch_load(None, false), None);
    assert_eq!(outcome, Ok(3));
    assert_eq!(
        actions,
        vec![
            "inspect /d",
            "read /d.nixvm",
            "probe /old/top",
            "probe /old/ci",
            "boot /old/top/kernel",
            "hash /d",
            "mkdir /s/roots/0000000000000010",
            "root /old/ci /s/roots/0000000000000010/closure-info",
            "start net",
            "enter tty",
            "run guest",
            "stop net",
            "restore tty",
        ]
    );
}

#[test]
fn a_launch_that_loads_an_image_with_a_new_system() {
    let (actions, outcome) = course(launch_load(Some("path:.#new"), false), None);
    assert_eq!(outcome, Ok(3));
    assert_eq!(
        actions[..6],
        [
            "inspect /d",
            "realise",
            "write /d.nixvm toplevel /o/top\nclosureInfo /o/ci\n",
            "probe /o/top",
            "probe /o/ci",
            "boot /o/top/kernel",
        ]
    );
}

#[test]
fn an_image_is_loaded_as_it_was_saved() {
    let (saved, outcome) = course(launch_run(Some("/d"), false, false), None);
    assert_eq!(outcome, Ok(3));
    let record = saved.iter().find_map(|a| a.strip_prefix("write /d.nixvm ")).unwrap();
    let mut s = launch_load(None, false);
    while s.control.stage != Stage::ReadingSidecar {
        answer(&mut s, false);
    }
    s.sidecar_read(Ok(record.to_string()));
    while s.control.stage != Stage::Running {
        answer(&mut s, false);
    }
    let boot = s.boot.as_ref().unwrap();
    assert_eq!(boot.cmdline, "init=/o/top/init quiet regInfo=/o/ci/registration");
    let overlay = s.overlay.as_ref().unwrap();
    assert_eq!(overlay.path.show(), "/d");
    assert_eq!(overlay.mode, OverlayMode::Loaded);
    assert!(!course(s, None).0.iter().any(|a| a.starts_with("remove")));
}

#[test]
fn without_a_flake_settings_change_nothing() {
    let mut args = load_args(None, false);
    args.overrides = vec![("nixpkgs".to_string(), "path:/a".to_string())];
    args.settings = vec![("substitute".to_string(), "false".to_string())];
    args.tarball_ttl = Some(0);
    let s = load_in(args, ID, path("/tmp"), path("/s"));
    assert!(s.request.is_none());
    let with = course(s, None);
    assert!(!with.0.iter().any(|a| a == "realise" || a.starts_with("write")));
    assert_eq!(with, course(launch_load(None, false), None));
}

#[test]
fn how_a_run_fails() {
    let error = |failing: &str| course(launch_run(None, false, true), Some(failing));
    let (actions, e) = error("realise");
    assert_eq!(actions.len(), 1);
    assert_eq!(
        e,
        Err("failed to evaluate or realise the flake output: cause".to_string())
    );
    let (_, e) = error("boot /o/top/kernel");
    assert_eq!(
        e,
        Err("derive kernel/initrd/cmdline from realised toplevel: \
             readlink /o/top/kernel: cause"
            .to_string())
    );
    let (actions, e) = error("stat");
    assert_eq!(e, Err("failed to prepare overlay: cause".to_string()));
    assert_eq!(actions.last().unwrap(), "stat");
    let (actions, e) = error(&format!("mkdir {}", transient()));
    assert_eq!(
        e,
        Err(format!("install ephemeral GC root: mkdir -p {}: cause", transient()))
    );
    assert_eq!(actions.last().unwrap(), &format!("remove {}", image()));
    let (actions, e) = error("detach");
    assert_eq!(e, Err("detach into daemon: cause".to_string()));
    let n = actions.len();
    assert_eq!(
        actions[n - 2..],
        [format!("remove tree {}", transient()), format!("remove {}", image())]
    );
    let (actions, e) = error("start net");
    assert_eq!(e, Err("failed to start vmnet: cause".to_string()));
    let n = actions.len();
    assert_eq!(
        actions[n - 2..],
        [format!("remove {}", image()), format!("remove tree {}", transient())]
    );
    let (actions, e) = error("run guest");
    assert_eq!(e, Err("failed to launch the VM: cause".to_string()));
    let n = actions.len();
    assert_eq!(actions[n - 4..n - 2], ["restore tty", "stop net"]);
}

#[test]
fn how_saving_an_image_fails() {
    let error = |failing: &str| course(launch_run(Some("/d"), false, false), Some(failing)).1;
    assert_eq!(
        error("write /d.nixvm toplevel /o/top\nclosureInfo /o/ci\n"),
        Err("write image sidecar: write /d.nixvm: cause".to_string())
    );
    assert_eq!(
        error("root /o/ci /s/roots/0000000000000010/closure-info"),
        Err("install persistent GC root: cause".to_string())
    );
}

#[test]
fn how_a_load_fails() {
    let error = |failing: &str| course(launch_load(None, false), Some(failing)).1;
    assert_eq!(
        error("inspect /d"),
        Err("failed to open image: /d does not exist".to_string())
    );
    assert_eq!(
        error("read /d.nixvm"),
        Err("read /d.nixvm (no sidecar \u{2014} was this image saved by `nixvm run -p`?): cause"
            .to_string())
    );
    assert_eq!(
        error("probe /old/top"),
        Err("/old/top no longer exists \u{2014} re-run `nixvm load /d <flake>` \
             to rebuild the closure"
            .to_string())
    );
    assert_eq!(
        error("probe /old/ci"),
        Err("/old/ci no longer exists \u{2014} re-run `nixvm load /d <flake>` \
             to rebuild the closure"
            .to_string())
    );
    assert_eq!(
        error("boot /old/top/kernel"),
        Err("derive kernel/initrd/cmdline from toplevel: readlink /old/top/kernel: cause"
            .to_string())
    );
    assert_eq!(
        error("mkdir /s/roots/0000000000000010"),
        Err("refresh persistent GC root: mkdir -p /s/roots/0000000000000010: cause".to_string())
    );
    let (_, e) = course(
        launch_load(Some("path:.#new"), false),
        Some("write /d.nixvm toplevel /o/top\nclosureInfo /o/ci\n"),
    );
    assert_eq!(e, Err("update image sidecar: write /d.nixvm: cause".to_string()));
}

#[test]
fn whatever_fails_nothing_is_left_behind() {
    let (all, _) = course(launch_run(None, false, true), None);
    for failing in &all {
        let (actions, _) = course(launch_run(None, false, true), Some(failing));
        let removals = actions.iter().filter(|a| **a == format!("remove {}", image())).count();
        let copied = actions.iter().any(|a| a == "chmod 600") && failing != "chmod 600";
        assert_eq!(removals, if copied { 1 } else { 0 });
        let stopped = actions.iter().filter(|a| *a == "stop net").count();
        let started = actions.iter().any(|a| a == "start net") && failing != "start net";
        assert_eq!(stopped, if started { 1 } else { 0 });
    }
    for failing in &all {
        let (actions, _) = course(launch_load(None, true), Some(failing));
        assert!(!actions.iter().any(|a| a.starts_with("remove")));
    }
}

#[test]
fn what_a_launch_asks_of_nix() {
    let mut args = run_args(None, false, false);
    args.settings = vec![("a".to_string(), "b".to_string())];
    args.tarball_ttl = Some(5);
    let mut s = run_in(args, ID, path("/tmp"), path("/s"));
    let r = s.realisation();
    assert_eq!(r.request.flake_ref, "path:.#vm");
    assert_eq!(r.request.settings, vec![("a".to_string(), "b".to_string())]);
    assert_eq!(r.request.tarball_ttl, Some(5));
    assert!(s.request.is_none());
    assert!(launch_load(None, false).request.is_none());
}

#[test]
fn what_a_launch_hands_on() {
    let mut s = launch_run(None, false, true);
    while s.control.stage != Stage::Detaching {
        answer(&mut s, false);
    }
    let d = s.detach();
    assert_eq!(d.log.show(), format!("/s/logs/{}.log", ID_TEXT));
    while s.control.stage != Stage::Running {
        answer(&mut s, false);
    }
    let plan = s.guest(4);
    assert_eq!(plan.steps.len(), 9);
    assert!(plan.ending.is_none());
}

#[test]
fn launches_get_an_identity_and_a_place() {
    let s = run(run_args(None, false, false), path("/tmp"));
    let t = load(load_args(None, false), path("/tmp"));
    assert_ne!(s.id.bytes, t.id.bytes);
    assert_eq!((s.id.bytes[6] / 16, s.id.bytes[8] / 64), (7, 2));
    assert_eq!((t.id.bytes[6] / 16, t.id.bytes[8] / 64), (7, 2));
    assert_eq!(s.image.show(), format!("/tmp/{}", s.id.image_name()));
    assert!(s.state.show().ends_with("/nixvm"));
    assert_eq!(t.image.show(), "/d");
    assert_eq!(s.control.stage, Stage::Realising);
    assert_eq!(t.control.stage, Stage::Inspecting);
}

#[test]
fn exit_statuses() {
    assert_eq!(exit_status(&Ok(3)), 3);
    assert_eq!(exit_status(&Err(Error::new("x".to_string()))), 1);
}
