//! What the virtual machine is booted with: kernel, initial ramdisk and command line.

use crate::error;
use crate::error::Error;
use crate::path;
use crate::path::HostPath;
use crate::text;
use vstd::prelude::*;
use vstd::string::StringExecFns;

verus! {

/// What the virtual machine is booted with.
pub struct BootInputs {
    pub kernel: HostPath,
    pub initrd: HostPath,
    pub cmdline: String,
}

/// The model of what the virtual machine is booted with.
pub struct BootModel {
    pub kernel: Seq<u8>,
    pub initrd: Seq<u8>,
    pub cmdline: Seq<char>,
}

impl View for BootInputs {
    type V = BootModel;

    open spec fn view(&self) -> BootModel {
        BootModel { kernel: self.kernel@, initrd: self.initrd@, cmdline: self.cmdline@ }
    }
}

/// Where a system keeps what it is booted with: two links, and a file with the kernel's parameters.
pub struct BootFiles {
    pub kernel: HostPath,
    pub initrd: HostPath,
    pub params: HostPath,
}

/// Where the system `toplevel` keeps what it is booted with.
pub fn boot_files(toplevel: &str) -> (f: BootFiles)
    ensures
        f.kernel@ == path::join(path::utf8(toplevel@), path::utf8("kernel"@)),
        f.initrd@ == path::join(path::utf8(toplevel@), path::utf8("initrd"@)),
        f.params@ == path::join(path::utf8(toplevel@), path::utf8("kernel-params"@)),
{
    let dir = HostPath::from_text(toplevel);
    BootFiles {
        kernel: dir.join("kernel"),
        initrd: dir.join("initrd"),
        params: dir.join("kernel-params"),
    }
}

/// The part of the command line that tells the guest of the host's terminal.
pub open spec fn terminal_part(term: Option<Seq<char>>) -> Seq<char> {
    match term {
        Some(t) => if t.len() > 0 {
            " systemd.setenv=TERM="@ + t
        } else {
            Seq::empty()
        },
        None => Seq::empty(),
    }
}

/// The kernel's command line for the system `toplevel`, whose parameters are `params` and whose
/// closure is registered in `closure_info`, on a host whose terminal is `term`.
pub open spec fn cmdline(
    toplevel: Seq<char>,
    closure_info: Seq<char>,
    params: Seq<char>,
    term: Option<Seq<char>>,
) -> Seq<char> {
    "init="@ + toplevel + "/init "@ + text::trim(params) + " regInfo="@ + closure_info
        + "/registration"@ + terminal_part(term)
}

/// What the system `toplevel` is booted with, or the first reason why that is unknown.
pub open spec fn boot_model(
    toplevel: Seq<char>,
    closure_info: Seq<char>,
    kernel: Result<Seq<u8>, Seq<char>>,
    initrd: Result<Seq<u8>, Seq<char>>,
    params: Result<Seq<char>, Seq<char>>,
    term: Option<Seq<char>>,
) -> Result<BootModel, Seq<char>> {
    match (kernel, initrd, params) {
        (Err(cause), _, _) => Err(
            error::within("readlink "@ + toplevel + "/kernel"@, cause),
        ),
        (Ok(_), Err(cause), _) => Err(
            error::within("readlink "@ + toplevel + "/initrd"@, cause),
        ),
        (Ok(_), Ok(_), Err(cause)) => Err(
            error::within("read "@ + toplevel + "/kernel-params"@, cause),
        ),
        (Ok(k), Ok(i), Ok(p)) => Ok(
            BootModel { kernel: k, initrd: i, cmdline: cmdline(toplevel, closure_info, p, term) },
        ),
    }
}

/// The outcome `r` has the model `model`.
pub open spec fn boot_result(
    r: Result<BootInputs, Error>,
    model: Result<BootModel, Seq<char>>,
) -> bool {
    match r {
        Ok(b) => model == Ok::<BootModel, Seq<char>>(b@),
        Err(e) => model == Err::<BootModel, Seq<char>>(e@),
    }
}

/// What the system `toplevel` is booted with, from what its two links and its file of parameters were
/// found to hold.
pub fn boot_inputs_from_toplevel(
    toplevel: &str,
    closure_info: &str,
    kernel: Result<HostPath, String>,
    initrd: Result<HostPath, String>,
    params: Result<String, String>,
    term: Option<String>,
) -> (r: Result<BootInputs, Error>)
    ensures
        boot_result(
            r,
            boot_model(
                toplevel@,
                closure_info@,
                path::path_read(kernel),
                path::path_read(initrd),
                text::text_read(params),
                text::maybe_text(term),
            ),
        ),
        r is Ok <==> kernel is Ok && initrd is Ok && params is Ok,
        r matches Ok(b) ==> b.kernel == kernel->Ok_0 && b.initrd == initrd->Ok_0,
        r matches Ok(b) ==> b.cmdline@ == (if term is Some {
            cmdline(toplevel@, closure_info@, params->Ok_0@, Some(term->0@))
        } else {
            cmdline(toplevel@, closure_info@, params->Ok_0@, None)
        }),
{
    let kernel = match kernel {
        Ok(p) => p,
        Err(cause) => {
            let what = "readlink ".to_owned().concat(toplevel).concat("/kernel");
            return Err(Error::of(what.as_str(), cause.as_str()));
        },
    };
    let initrd = match initrd {
        Ok(p) => p,
        Err(cause) => {
            let what = "readlink ".to_owned().concat(toplevel).concat("/initrd");
            return Err(Error::of(what.as_str(), cause.as_str()));
        },
    };
    let params = match params {
        Ok(s) => s,
        Err(cause) => {
            let what = "read ".to_owned().concat(toplevel).concat("/kernel-params");
            return Err(Error::of(what.as_str(), cause.as_str()));
        },
    };
    let trimmed = text::trim_text(params.as_str());
    let mut line = "init=".to_owned().concat(toplevel).concat("/init ").concat(
        trimmed.as_str(),
    ).concat(" regInfo=").concat(closure_info).concat("/registration");
    let ghost plain = line@;
    if let Some(t) = &term {
        if !t.as_str().is_empty() {
            line = line.concat(" systemd.setenv=TERM=").concat(t.as_str());
            assert(line@ =~= plain + (" systemd.setenv=TERM="@ + t@));
        }
    }
    assert(line@ =~= plain + terminal_part(text::maybe_text(term)));
    Ok(BootInputs { kernel, initrd, cmdline: line })
}

/// The command line holds everything that it is made of whole and in its place, character by character:
/// the system's `init`, its parameters without the white space around them, the registration of its
/// closure, and the host's terminal; and nothing else.
pub proof fn law_command_lines_hold_everything(
    toplevel: Seq<char>,
    closure_info: Seq<char>,
    before: Seq<char>,
    params: Seq<char>,
    behind: Seq<char>,
    term: Option<Seq<char>>,
)
    requires
        text::is_blank(before),
        text::is_trim(params),
        text::is_blank(behind),
    ensures
        ({
            let line = cmdline(toplevel, closure_info, before + params + behind, term);
            let t = toplevel.len();
            let p = params.len();
            let c = closure_info.len();
            let plain = 5 + t + 6 + p + 9 + c + 13;
            &&& line.take(5) == "init="@
            &&& line.subrange(5, 5 + t as int) == toplevel
            &&& line.subrange(5 + t as int, 11 + t as int) == "/init "@
            &&& line.subrange(11 + t as int, 11 + t as int + p) == params
            &&& line.subrange(11 + t as int + p, 20 + t as int + p) == " regInfo="@
            &&& line.subrange(20 + t as int + p, 20 + t as int + p + c) == closure_info
            &&& line.subrange(20 + t as int + p + c, plain as int) == "/registration"@
            &&& term is None || term->0.len() == 0 ==> line.len() == plain
            &&& term is Some && term->0.len() > 0 ==> {
                &&& line.len() == plain + 21 + term->0.len()
                &&& line.subrange(plain as int, plain as int + 21) == " systemd.setenv=TERM="@
                &&& line.skip(plain as int + 21) == term->0
            }
        }),
{
    text::law_trimming_keeps_the_text(before, params, behind);
    reveal_strlit("init=");
    reveal_strlit("/init ");
    reveal_strlit(" regInfo=");
    reveal_strlit("/registration");
    reveal_strlit(" systemd.setenv=TERM=");
    let line = cmdline(toplevel, closure_info, before + params + behind, term);
    let t = toplevel.len() as int;
    let p = params.len() as int;
    let c = closure_info.len() as int;
    let plain = 33 + t + p + c;
    assert(line.take(5) =~= "init="@);
    assert(line.subrange(5, 5 + t) =~= toplevel);
    assert(line.subrange(5 + t, 11 + t) =~= "/init "@);
    assert(line.subrange(11 + t, 11 + t + p) =~= params);
    assert(line.subrange(11 + t + p, 20 + t + p) =~= " regInfo="@);
    assert(line.subrange(20 + t + p, 20 + t + p + c) =~= closure_info);
    assert(line.subrange(20 + t + p + c, plain) =~= "/registration"@);
    if let Some(name) = term {
        if name.len() > 0 {
            assert(line.subrange(plain, plain + 21) =~= " systemd.setenv=TERM="@);
            assert(line.skip(plain + 21) =~= name);
        }
    }
}

/// A guest is booted with the very kernel and initial ramdisk that the links of its system name.  It is
/// known what to boot exactly if both links and the parameters could be read; else the error ends in the
/// cause of the first of these failures.
pub proof fn law_boot_files_are_handed_on(
    toplevel: Seq<char>,
    closure_info: Seq<char>,
    kernel: Result<Seq<u8>, Seq<char>>,
    initrd: Result<Seq<u8>, Seq<char>>,
    params: Result<Seq<char>, Seq<char>>,
    term: Option<Seq<char>>,
)
    ensures
        ({
            let r = boot_model(toplevel, closure_info, kernel, initrd, params, term);
            &&& r is Ok <==> kernel is Ok && initrd is Ok && params is Ok
            &&& r matches Ok(boot) ==> {
                &&& kernel == Ok::<Seq<u8>, Seq<char>>(boot.kernel)
                &&& initrd == Ok::<Seq<u8>, Seq<char>>(boot.initrd)
                &&& boot.cmdline == cmdline(toplevel, closure_info, params->Ok_0, term)
            }
            &&& r matches Err(e) ==> {
                let cause = if kernel is Err {
                    kernel->Err_0
                } else if initrd is Err {
                    initrd->Err_0
                } else {
                    params->Err_0
                };
                e.len() > cause.len() && e.skip(e.len() - cause.len()) == cause
            }
        }),
{
    if kernel is Err {
        error::law_causes_are_told_whole("readlink "@ + toplevel + "/kernel"@, kernel->Err_0);
    } else if initrd is Err {
        error::law_causes_are_told_whole("readlink "@ + toplevel + "/initrd"@, initrd->Err_0);
    } else if params is Err {
        error::law_causes_are_told_whole("read "@ + toplevel + "/kernel-params"@, params->Err_0);
    }
}

} // verus!
