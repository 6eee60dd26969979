use nixvm::nix::{walk_attrs, Handle, Op, Request};
use nixvm::realise::{Next, Realisation, Realised, Reply, Status};

fn request() -> Request {
    Request {
        flake_ref: "path:.#vm".to_string(),
        overrides: Vec::new(),
        settings: Vec::new(),
        tarball_ttl: None,
    }
}

fn ok() -> Reply {
    Reply {
        rc: 0,
        status: Status { code: 0, message: None },
        null: false,
        text: Vec::new(),
        host_error: None,
    }
}

fn refused(message: &str) -> Reply {
    let mut reply = ok();
    reply.rc = -1;
    reply.status = Status { code: -1, message: Some(message.as_bytes().to_vec()) };
    reply
}

fn null() -> Reply {
    let mut reply = ok();
    reply.null = true;
    reply
}

fn text(s: &str) -> Reply {
    let mut reply = ok();
    reply.text = s.as_bytes().to_vec();
    reply
}

fn op_text(op: &Op<String>) -> String {
    match op {
        Op::CreateContext => "context".to_string(),
        Op::InitUtil => "init util".to_string(),
        Op::Apply { name, value } => format!("set {} {}", name, value),
        Op::InitStore => "init store".to_string(),
        Op::InitExpr => "init expr".to_string(),
        Op::OpenStore { uri } => format!("open {}", uri),
        Op::NewFlakeSettings => "flake settings".to_string(),
        Op::NewFetchSettings => "fetch settings".to_string(),
        Op::NewBuilder => "builder".to_string(),
        Op::LoadBuilder => "load builder".to_string(),
        Op::AddFlakeSettings => "add flake settings".to_string(),
        Op::BuildState => "state".to_string(),
        Op::NewParseFlags => "parse flags".to_string(),
        Op::WorkingDirectory => "getcwd".to_string(),
        Op::SetBaseDirectory { dir } => format!("base {}", dir),
        Op::ParseReference { uri, into } => format!("parse {} {:?}", uri, into),
        Op::NewLockFlags => "lock flags".to_string(),
        Op::LockVirtually => "virtual".to_string(),
        Op::AddOverride { input, reference } => format!("override {} {:?}", input, reference),
        Op::LockFlake => "lock".to_string(),
        Op::OutputAttrs => "outputs".to_string(),
        Op::Force { of } => format!("force {:?}", of),
        Op::GetAttr { of, name, into } => format!("get {:?} {} {:?}", of, name, into),
        Op::Retain { of, into } => format!("retain {:?} {:?}", of, into),
        Op::ReadString { of } => format!("read {:?}", of),
        Op::ParseStorePath { path } => format!("store path {}", path),
        Op::RealisePath => "realise".to_string(),
        Op::Free { handle } => format!("free {:?}", handle),
        Op::Refuse { text } => format!("refuse {}", text),
    }
}

struct Course {
    ops: Vec<String>,
    warnings: Vec<String>,
    freed: Vec<Handle>,
    outcome: Result<Realised, String>,
}

/// Carries a realisation out; `reply` says what each call comes to, `None` being success.
fn course(request: Request, reply: &dyn Fn(&str) -> Option<Reply>) -> Course {
    let mut r = Realisation::new(request);
    let mut ops = Vec::new();
    let mut warnings = Vec::new();
    let mut freed = Vec::new();
    let mut texts = vec!["img.drv", "/o/img", "disk.raw", "/o/top", "ci.drv", "/o/ci"].into_iter();
    loop {
        let answer = match r.current() {
            Next::Perform(op) => {
                let shown = op_text(op);
                let answer = match reply(&shown) {
                    Some(given) => given,
                    None => match op {
                        Op::WorkingDirectory => text("/work"),
                        Op::ParseReference { into: Handle::FlakeRef, .. } => text("vm"),
                        Op::ReadString { .. } => text(texts.next().unwrap()),
                        _ => ok(),
                    },
                };
                ops.push(shown);
                Some(answer)
            }
            Next::Free(handle) => {
                freed.push(handle);
                None
            }
            Next::Finish => break,
        };
        match answer {
            Some(given) => {
                if let Some(w) = r.answered(given) {
                    warnings.push(w.text);
                }
            }
            None => r.freed(),
        }
    }
    Course { ops, warnings, freed, outcome: r.finish().map_err(|e| e.text) }
}

fn error_when(failing: &str, reply: fn() -> Reply) -> String {
    let c = course(request(), &|op| if op == failing { Some(reply()) } else { None });
    c.outcome.err().unwrap()
}

#[test]
fn a_flake_output_that_is_realised() {
    let c = course(request(), &|_| None);
    let r = c.outcome.unwrap();
    assert_eq!(r.image_file, "/o/img/disk.raw");
    assert_eq!(r.toplevel, "/o/top");
    assert_eq!(r.closure_info, "/o/ci");
    assert_eq!(
        c.ops[..16],
        [
            "context",
            "init util",
            "set experimental-features nix-command flakes",
            "init store",
            "init expr",
            "open daemon",
            "flake settings",
            "fetch settings",
            "builder",
            "load builder",
            "add flake settings",
            "state",
            "parse flags",
            "getcwd",
            "base /work",
            "parse path:.#vm FlakeRef",
        ]
    );
    assert_eq!(
        c.ops[16..21],
        ["lock flags", "virtual", "lock", "outputs", "force Outputs"]
    );
    assert_eq!(
        c.ops[21..29],
        [
            "get Outputs nixosConfigurations Attr(0)",
            "force Attr(0)",
            "get Attr(0) vm Attr(1)",
            "force Attr(1)",
            "free Attr(0)",
            "get Attr(1) config Attr(2)",
            "force Attr(2)",
            "free Attr(1)",
        ]
    );
    let n = c.ops.len();
    assert_eq!(
        c.ops[n - 6..],
        [
            "store path img.drv",
            "realise",
            "free StorePath",
            "store path ci.drv",
            "realise",
            "free StorePath",
        ]
    );
    assert!(c.warnings.is_empty());
    assert_eq!(
        c.freed,
        vec![
            Handle::Outputs,
            Handle::Locked,
            Handle::LockFlags,
            Handle::FlakeRef,
            Handle::ParseFlags,
            Handle::State,
            Handle::Builder,
            Handle::FetchSettings,
            Handle::FlakeSettings,
            Handle::Store,
            Handle::Context,
        ]
    );
}

/// The path of the value that a handle stands for.
fn place_of(places: &Vec<(Handle, String)>, handle: Handle) -> String {
    match places.iter().rev().find(|p| p.0 == handle) {
        Some(found) => found.1.clone(),
        None => String::new(),
    }
}

#[test]
fn each_part_is_read_at_its_own_path() {
    let mut r = Realisation::new(request());
    let mut places: Vec<(Handle, String)> = Vec::new();
    let mut built = Vec::new();
    loop {
        let answer = match r.current() {
            Next::Perform(op) => match op {
                Op::WorkingDirectory => text("/work"),
                Op::ParseReference { .. } => text("vm"),
                Op::GetAttr { of, name, into } => {
                    let place = format!("{}/{}", place_of(&places, *of), name);
                    places.push((*into, place));
                    ok()
                }
                Op::ReadString { of } => text(&place_of(&places, *of)),
                Op::ParseStorePath { path } => {
                    built.push(path.clone());
                    ok()
                }
                _ => ok(),
            },
            Next::Free(_) => {
                r.freed();
                continue;
            }
            Next::Finish => break,
        };
        assert!(r.answered(answer).is_none());
    }
    let realised = r.finish().unwrap();
    let config = "/nixosConfigurations/vm/config";
    assert_eq!(
        realised.image_file,
        format!("{}/system/build/image/outPath/{}/image/fileName", config, config)
    );
    assert_eq!(realised.toplevel, format!("{}/system/build/toplevel/outPath", config));
    assert_eq!(realised.closure_info, format!("{}/system/build/closureInfo/outPath", config));
    assert_eq!(
        built,
        [
            format!("{}/system/build/image/drvPath", config),
            format!("{}/system/build/closureInfo/drvPath", config),
        ]
    );
}

#[test]
fn a_flake_without_a_fragment() {
    let c = course(request(), &|op| {
        if op.starts_with("parse path") {
            Some(text(""))
        } else {
            None
        }
    });
    assert_eq!(c.ops[21], "get Outputs nixosConfigurations Attr(0)");
    assert_eq!(c.ops[23], "get Attr(0) default Attr(1)");
    assert!(c.outcome.is_ok());
}

fn walked(root: Handle, path: &str) -> (Vec<String>, Handle) {
    let mut calls = Vec::new();
    let end = walk_attrs(&mut calls, root, path);
    (calls.iter().map(|c| op_text(&c.op)).collect(), end)
}

#[test]
fn walks_go_on_where_an_earlier_one_ended() {
    let (whole, end) = walked(Handle::Outputs, "a.b.c");
    let (first, between) = walked(Handle::Outputs, "a.b");
    assert_eq!(between, Handle::Attr(1));
    let (rest, last) = walked(between, "c");
    assert_eq!(last, end);
    assert_eq!(rest, ["get Attr(1) c Attr(2)", "force Attr(2)"]);
    assert_eq!(whole[..first.len()], first);
    assert_eq!(whole[first.len()..first.len() + rest.len()], rest);
    assert_eq!(whole[first.len() + rest.len()..], ["free Attr(1)"]);
}

#[test]
fn empty_segments_are_skipped() {
    assert_eq!(walked(Handle::Outputs, ".a..b."), walked(Handle::Outputs, "a.b"));
    assert_eq!(
        walked(Handle::Attr(3), ".."),
        (vec!["retain Attr(3) Attr(4)".to_string()], Handle::Attr(4))
    );
}

#[test]
fn a_fragment_with_a_dot_names_an_attribute_below_the_configuration() {
    let c = course(request(), &|op| {
        if op.starts_with("parse path") {
            Some(text("vm.nested"))
        } else {
            None
        }
    });
    assert_eq!(c.ops[21], "get Outputs nixosConfigurations Attr(0)");
    assert_eq!(c.ops[23], "get Attr(0) vm Attr(1)");
    assert_eq!(c.ops[26], "get Attr(1) nested Attr(2)");
    assert_eq!(c.ops[29], "get Attr(2) config Attr(3)");
}

#[test]
fn settings_are_applied_first() {
    let mut asked = request();
    asked.settings = vec![
        ("substitute".to_string(), "false".to_string()),
        ("nonsense".to_string(), "1".to_string()),
    ];
    asked.tarball_ttl = Some(0);
    let c = course(asked, &|op| {
        if op == "set nonsense 1" {
            Some(refused("unknown setting"))
        } else {
            None
        }
    });
    assert_eq!(
        c.ops[2..7],
        [
            "set experimental-features nix-command flakes",
            "set substitute false",
            "set nonsense 1",
            "set tarball-ttl 0",
            "init store",
        ]
    );
    assert_eq!(
        c.warnings,
        vec!["ignoring `--option nonsense 1`: nix error -1: unknown setting"]
    );
    assert!(c.outcome.is_ok());
}

#[test]
fn a_refused_ttl_is_fatal() {
    let mut asked = request();
    asked.tarball_ttl = Some(60);
    let c = course(asked, &|op| {
        if op == "set tarball-ttl 60" {
            Some(refused("no"))
        } else {
            None
        }
    });
    assert_eq!(c.outcome.err().unwrap(), "apply --tarball-ttl: nix error -1: no");
    assert_eq!(c.freed, vec![Handle::Context]);
}

#[test]
fn overrides_outlive_the_lock_flags() {
    let mut asked = request();
    asked.overrides = vec![
        ("nixpkgs".to_string(), "path:/a".to_string()),
        ("nixvm".to_string(), "path:/b".to_string()),
    ];
    let c = course(asked, &|_| None);
    assert_eq!(
        c.ops[16..23],
        [
            "lock flags",
            "virtual",
            "parse path:/a Override(0)",
            "override nixpkgs Override(0)",
            "parse path:/b Override(1)",
            "override nixvm Override(1)",
            "lock",
        ]
    );
    let at = |h: Handle| c.freed.iter().position(|f| *f == h).unwrap();
    assert!(at(Handle::LockFlags) < at(Handle::Override(0)));
    assert!(at(Handle::LockFlags) < at(Handle::Override(1)));
    assert_eq!(c.freed.len(), 13);
}

#[test]
fn how_starting_the_library_fails() {
    assert_eq!(
        error_when("context", null),
        "nix_c_context_create returned NULL"
    );
    assert_eq!(
        error_when("init util", || refused("x")),
        "nix_libutil_init: nix error -1: x"
    );
    let no_message = || {
        let mut reply = ok();
        reply.status = Status { code: -4, message: None };
        reply
    };
    assert_eq!(
        error_when("init store", no_message),
        "nix_libstore_init: nix error -4: (no message)"
    );
    assert_eq!(
        error_when("open daemon", || refused("x")),
        "nix_store_open(daemon): nix error -1: x"
    );
    assert_eq!(error_when("open daemon", null), "nix_store_open returned NULL");
}

#[test]
fn how_the_working_directory_fails() {
    let unknown = || {
        let mut reply = ok();
        reply.host_error = Some("ENOENT".to_string());
        reply
    };
    assert_eq!(error_when("getcwd", unknown), "getcwd: ENOENT");
    let no_text = || {
        let mut reply = ok();
        reply.text = vec![0xff];
        reply
    };
    assert_eq!(error_when("getcwd", no_text), "cwd not UTF-8");
}

#[test]
fn how_parsing_a_reference_fails() {
    let parse = "parse path:.#vm FlakeRef";
    assert_eq!(
        error_when(parse, || refused("bad")),
        "parse flake ref `path:.#vm`: \
         nix_flake_reference_and_fragment_from_string(path:.#vm): nix error -1: bad"
    );
    assert_eq!(
        error_when(parse, null),
        "parse flake ref `path:.#vm`: \
         nix_flake_reference_and_fragment_from_string returned NULL for `path:.#vm`"
    );
    let no_text = || {
        let mut reply = ok();
        reply.text = vec![0xff];
        reply
    };
    assert_eq!(
        error_when(parse, no_text),
        "parse flake ref `path:.#vm`: flake fragment not UTF-8: \
         invalid utf-8 sequence of 1 bytes from index 0"
    );
}

#[test]
fn how_walking_the_outputs_fails() {
    let walked = "nixosConfigurations.vm.config.system.build.image.drvPath";
    assert_eq!(
        error_when("get Attr(1) config Attr(2)", || refused("x")),
        format!("get `config` while walking `{}`: nix error -1: x", walked)
    );
    assert_eq!(
        error_when("get Attr(1) config Attr(2)", null),
        format!("attribute `config` missing while walking `{}`", walked)
    );
    assert_eq!(
        error_when("force Attr(2)", || refused("x")),
        format!("force `config` while walking `{}`: nix error -1: x", walked)
    );
    let c = course(request(), &|op| {
        if op == "force Attr(2)" {
            Some(refused("x"))
        } else {
            None
        }
    });
    assert_eq!(
        c.freed[..3],
        [Handle::Attr(2), Handle::Attr(1), Handle::Outputs]
    );
}

#[test]
fn how_reading_a_string_fails() {
    let walked = "nixosConfigurations.vm.config.system.build.image.drvPath";
    assert_eq!(
        error_when("read Attr(6)", || refused("not a string")),
        format!("read string at `{}`: nix error -1: not a string", walked)
    );
    let no_text = || {
        let mut reply = ok();
        reply.text = vec![0xc3];
        reply
    };
    assert_eq!(
        error_when("read Attr(6)", no_text),
        format!(
            "read string at `{}`: nix returned non-UTF8 string: \
             incomplete utf-8 byte sequence from index 0",
            walked
        )
    );
}

#[test]
fn how_realising_fails() {
    assert_eq!(
        error_when("store path img.drv", null),
        "realise image drv: nix_store_parse_path returned NULL for img.drv"
    );
    assert_eq!(
        error_when("store path ci.drv", || refused("x")),
        "realise closureInfo drv: nix_store_parse_path: nix error -1: x"
    );
    assert_eq!(
        error_when("realise", || refused("build failed")),
        "realise image drv: nix_store_realise: nix error -1: build failed"
    );
}

#[test]
fn zero_bytes_are_refused() {
    let mut asked = request();
    asked.settings = vec![("a\0b".to_string(), "1".to_string())];
    let c = course(asked, &|_| None);
    assert_eq!(
        c.outcome.err().unwrap(),
        "--option name `a\0b` contains a NUL byte: \
         nul byte found in provided data at position: 1"
    );
    let mut asked = request();
    asked.settings = vec![("a".to_string(), "12\0".to_string())];
    let c = course(asked, &|_| None);
    assert_eq!(
        c.outcome.err().unwrap(),
        "--option value for `a` contains a NUL byte: \
         nul byte found in provided data at position: 2"
    );
    let mut asked = request();
    asked.flake_ref = "\0".to_string();
    let c = course(asked, &|_| None);
    assert_eq!(
        c.outcome.err().unwrap(),
        "parse flake ref `\0`: flake URI contains a NUL byte: \
         nul byte found in provided data at position: 0"
    );
    let mut asked = request();
    asked.overrides = vec![("k".to_string(), "u\0".to_string())];
    let c = course(asked, &|_| None);
    assert_eq!(
        c.outcome.err().unwrap(),
        "parse override `k u\0`: flake URI contains a NUL byte: \
         nul byte found in provided data at position: 1"
    );
}

#[test]
fn every_object_is_freed_once() {
    let all = course(request(), &|_| None);
    for failing in &all.ops {
        let c = course(request(), &|op| if op == failing { Some(refused("x")) } else { None });
        for handle in &c.freed {
            assert_eq!(c.freed.iter().filter(|h| *h == handle).count(), 1);
        }
    }
}
