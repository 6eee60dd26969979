use nixvm::boot::{boot_files, boot_inputs_from_toplevel};
use nixvm::host::FileOp;
use nixvm::path::HostPath;
use nixvm::sidecar::{read_sidecar, sidecar_path, sidecar_text, write_sidecar};

fn image() -> HostPath {
    HostPath::from_text("/images/vm.img")
}

fn read(body: &str) -> Result<(String, String), String> {
    read_sidecar(&image(), Ok(body.to_string())).map_err(|e| e.text)
}

#[test]
fn sidecars_stand_next_to_images() {
    assert_eq!(sidecar_path(&image()).show(), "/images/vm.img.nixvm");
    let odd = HostPath { bytes: vec![0x61, 0xff] };
    assert_eq!(sidecar_path(&odd).bytes, b"a\xff.nixvm".to_vec());
}

#[test]
fn sidecars_have_two_lines() {
    assert_eq!(
        sidecar_text("/nix/store/t", "/nix/store/c"),
        "toplevel /nix/store/t\nclosureInfo /nix/store/c\n"
    );
}

#[test]
fn writing_a_sidecar_is_one_step() {
    let mut plan = write_sidecar(&image(), "/nix/store/t", "/nix/store/c");
    match plan.current() {
        Some(FileOp::WriteText { to, text }) => {
            assert_eq!(to.show(), "/images/vm.img.nixvm");
            assert_eq!(text, "toplevel /nix/store/t\nclosureInfo /nix/store/c\n");
        }
        _ => panic!(),
    }
    let e = plan.report(Err("disk full".to_string())).unwrap_err();
    assert_eq!(e.text, "write /images/vm.img.nixvm: disk full");
    assert!(plan.report(Ok(())).is_ok());
    assert!(plan.current().is_none());
    assert!(plan.finish().is_ok());
}

#[test]
fn what_was_recorded_is_read_back() {
    let (t, c) = ("/nix/store/abc-nixos", "/nix/store/def closure");
    assert_eq!(
        read(&sidecar_text(t, c)),
        Ok((t.to_string(), c.to_string()))
    );
}

#[test]
fn a_line_break_is_not_read_back() {
    assert_ne!(
        read(&sidecar_text("/t\n", "/c")),
        Ok(("/t\n".to_string(), "/c".to_string()))
    );
    assert_eq!(
        read(&sidecar_text("/t\r", "/c")),
        Ok(("/t".to_string(), "/c".to_string()))
    );
}

#[test]
fn the_last_line_counts() {
    assert_eq!(
        read("toplevel /old\nclosureInfo /c\nnoise\n\ntoplevel /new"),
        Ok(("/new".to_string(), "/c".to_string()))
    );
    assert_eq!(
        read("toplevel  /t\nclosureInfo \n"),
        Ok((" /t".to_string(), "".to_string()))
    );
}

#[test]
fn what_a_sidecar_lacks() {
    assert_eq!(
        read(""),
        Err("/images/vm.img.nixvm: missing `toplevel`".to_string())
    );
    assert_eq!(
        read("toplevel\nclosureInfo /c\n"),
        Err("/images/vm.img.nixvm: missing `toplevel`".to_string())
    );
    assert_eq!(
        read("toplevel /t\nclosureinfo /c\n"),
        Err("/images/vm.img.nixvm: missing `closureInfo`".to_string())
    );
}

#[test]
fn a_missing_sidecar() {
    let e = read_sidecar(&image(), Err("No such file".to_string())).unwrap_err();
    assert_eq!(
        e.text,
        "read /images/vm.img.nixvm (no sidecar \u{2014} was this image saved by `nixvm run -p`?): \
         No such file"
    );
}

#[test]
fn systems_keep_their_boot_files() {
    let f = boot_files("/nix/store/t");
    assert_eq!(f.kernel.show(), "/nix/store/t/kernel");
    assert_eq!(f.initrd.show(), "/nix/store/t/initrd");
    assert_eq!(f.params.show(), "/nix/store/t/kernel-params");
}

fn boot(
    kernel: Result<&str, &str>,
    initrd: Result<&str, &str>,
    params: Result<&str, &str>,
    term: Option<&str>,
) -> Result<(String, String, String), String> {
    let path = |r: Result<&str, &str>| match r {
        Ok(s) => Ok(HostPath::from_text(s)),
        Err(e) => Err(e.to_string()),
    };
    let text = match params {
        Ok(s) => Ok(s.to_string()),
        Err(e) => Err(e.to_string()),
    };
    boot_inputs_from_toplevel(
        "/t",
        "/c",
        path(kernel),
        path(initrd),
        text,
        term.map(|t| t.to_string()),
    )
    .map(|b| (b.kernel.show(), b.initrd.show(), b.cmdline))
    .map_err(|e| e.text)
}

#[test]
fn the_command_line_of_a_system() {
    assert_eq!(
        boot(Ok("/k/Image"), Ok("/i/initrd"), Ok(" console=hvc0 quiet\n"), Some("xterm")),
        Ok((
            "/k/Image".to_string(),
            "/i/initrd".to_string(),
            "init=/t/init console=hvc0 quiet regInfo=/c/registration \
             systemd.setenv=TERM=xterm"
                .to_string()
        ))
    );
}

#[test]
fn an_unknown_terminal_is_not_passed_on() {
    let plain = "init=/t/init a regInfo=/c/registration".to_string();
    assert_eq!(boot(Ok("k"), Ok("i"), Ok("a"), None).unwrap().2, plain);
    assert_eq!(boot(Ok("k"), Ok("i"), Ok("a"), Some("")).unwrap().2, plain);
}

#[test]
fn the_first_boot_file_that_cannot_be_read_counts() {
    assert_eq!(
        boot(Err("e1"), Err("e2"), Err("e3"), None),
        Err("readlink /t/kernel: e1".to_string())
    );
    assert_eq!(
        boot(Ok("k"), Err("e2"), Err("e3"), None),
        Err("readlink /t/initrd: e2".to_string())
    );
    assert_eq!(
        boot(Ok("k"), Ok("i"), Err("e3"), None),
        Err("read /t/kernel-params: e3".to_string())
    );
}
