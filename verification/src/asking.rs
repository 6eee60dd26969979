//! Laws on what is asked of Nix: that it is what the user asked for, and that all of it is handed on.

use crate::args::{LoadArgs, RunArgs};
use crate::error;
use crate::launch_id::LaunchId;
use crate::nix;
use crate::nix::{Call, Check, Handle, Op, Request};
use crate::path;
use crate::readings;
use crate::realise;
use crate::realise::Realisation;
use crate::session;
use crate::state;
use crate::text;
use vstd::prelude::*;

verus! {

/// Whether pairs are those of a list of pairs of texts, each with its parts in their order.
pub open spec fn are_pairs(pairs: Seq<(Seq<char>, Seq<char>)>, given: Seq<(String, String)>) -> bool {
    &&& pairs.len() == given.len()
    &&& forall|i: int|
        0 <= i < given.len() ==> (#[trigger] pairs[i]).0 == given[i].0@ && pairs[i].1 == given[i].1@
}

/// A run asks of Nix exactly what its arguments ask for: the flake, every override and every setting in
/// its order, and how long archives stay fresh.
pub proof fn law_runs_ask_for_what_was_asked(
    args: RunArgs,
    id: LaunchId,
    temp: Seq<u8>,
    state: Seq<u8>,
)
    ensures
        ({
            let m = session::run_model(args, id, temp, state);
            &&& m.request is Some
            &&& m.request->0.flake_ref == args.flake_ref@
            &&& are_pairs(m.request->0.overrides, args.overrides@)
            &&& are_pairs(m.request->0.settings, args.settings@)
            &&& m.request->0.tarball_ttl == args.tarball_ttl
            &&& m.cpus == args.cpus && m.memory_mib == args.memory_mib
            &&& m.force == args.force
            &&& m.id == id && m.temp == temp && m.state == state
            &&& args.persist is Some ==> m.image == args.persist->0@
            &&& args.persist is None ==> m.image == state::image_of(temp, id)
            &&& m.control.save == (args.persist is Some) && !m.control.load
            &&& m.control.detach == args.detach
            &&& m.verdict is None
            &&& m.wf()
        }),
{
}

/// A load with a flake asks of Nix exactly what its arguments ask for: the flake, every override and every
/// setting in its order, and how long archives stay fresh.  A load without one asks nothing of it.
pub proof fn law_loads_ask_for_what_was_asked(
    args: LoadArgs,
    id: LaunchId,
    temp: Seq<u8>,
    state: Seq<u8>,
)
    ensures
        ({
            let m = session::load_model(args, id, temp, state);
            &&& m.request is Some <==> args.flake_ref is Some
            &&& m.request is Some ==> {
                &&& m.request->0.flake_ref == args.flake_ref->0@
                &&& are_pairs(m.request->0.overrides, args.overrides@)
                &&& are_pairs(m.request->0.settings, args.settings@)
                &&& m.request->0.tarball_ttl == args.tarball_ttl
            }
            &&& m.cpus == args.cpus && m.memory_mib == args.memory_mib
            &&& !m.force
            &&& m.id == id && m.temp == temp && m.state == state
            &&& m.image == args.path@
            &&& m.control.load && !m.control.save
            &&& m.control.with_flake == (args.flake_ref is Some)
            &&& m.control.detach == args.detach
            &&& m.verdict is None
            &&& m.wf()
        }),
{
}

/// The model of a request holds all of it.
pub proof fn law_requests_are_handed_on_whole(request: Request)
    ensures
        request@.flake_ref == request.flake_ref@,
        are_pairs(request@.overrides, request.overrides@),
        are_pairs(request@.settings, request.settings@),
        request@.tarball_ttl == request.tarball_ttl,
{
}

proof fn lemma_overrides_at(overrides: Seq<(Seq<char>, Seq<char>)>, i: int)
    requires
        0 <= i < overrides.len(),
    ensures
        nix::overrides_part(overrides).len() == 2 * overrides.len(),
        nix::overrides_part(overrides)[2 * i] == nix::reference_call(
            "parse "@ + nix::override_text(overrides[i]),
            overrides[i].1,
            Handle::Override(i as usize),
        ),
        nix::overrides_part(overrides)[2 * i + 1].op == (Op::AddOverride {
            input: overrides[i].0,
            reference: Handle::Override(i as usize),
        }),
    decreases overrides.len(),
{
    let front = overrides.drop_last();
    lemma_overrides_len(front);
    if i < front.len() {
        lemma_overrides_at(front, i);
        assert(front[i] == overrides[i]);
    }
}

proof fn lemma_overrides_len(overrides: Seq<(Seq<char>, Seq<char>)>)
    ensures
        nix::overrides_part(overrides).len() == 2 * overrides.len(),
    decreases overrides.len(),
{
    if overrides.len() > 0 {
        lemma_overrides_len(overrides.drop_last());
    }
}

/// How many calls come before those for the settings.
spec fn before_overrides(request: nix::RequestModel) -> int {
    nix::first_part(request).len() as int + 4
}

spec fn before_locking(request: nix::RequestModel) -> int {
    before_overrides(request) + 2 * request.overrides.len()
}

/// The script up to the locking of the flake.
spec fn up_to_locking(request: nix::RequestModel, dir: Seq<char>) -> Seq<Call<Seq<char>>> {
    nix::first_part(request) + nix::second_part(request, dir) + nix::flags_part()
        + nix::overrides_part(request.overrides)
}

proof fn lemma_script_parts(request: nix::RequestModel, texts: Seq<Seq<char>>)
    ensures
        ({
            let calls = nix::script_so_far(request, texts);
            let first = nix::first_part(request);
            &&& calls.len() >= first.len()
            &&& calls.take(first.len() as int) == first
            &&& texts.len() == 0 ==> calls == first
            &&& texts.len() >= 1 ==> calls.len() >= first.len() + 2 && calls.subrange(
                first.len() as int,
                first.len() as int + 2,
            ) == nix::second_part(request, texts[0])
            &&& texts.len() == 1 ==> calls.len() == first.len() + 2
            &&& texts.len() >= 2 ==> {
                let upto = up_to_locking(request, texts[0]);
                let rest = nix::locking_part() + nix::reading_part(nix::attr_path(texts[1]));
                &&& upto.len() == before_locking(request)
                &&& calls.len() >= upto.len() + rest.len()
                &&& calls.take(upto.len() as int) == upto
                &&& calls.subrange(upto.len() as int, (upto.len() + rest.len()) as int) == rest
                &&& texts.len() < 8 ==> calls.len() == upto.len() + rest.len()
                &&& texts.len() >= 8 ==> calls.skip((upto.len() + rest.len()) as int)
                    == nix::fourth_part(texts[2], texts[6])
            }
        }),
{
    reveal(nix::script_so_far);
    lemma_overrides_len(request.overrides);
    let calls = nix::script_so_far(request, texts);
    let first = nix::first_part(request);
    assert(calls.take(first.len() as int) =~= first);
    if texts.len() == 0 {
        assert(calls =~= first);
    }
    if texts.len() >= 1 {
        assert(calls.subrange(first.len() as int, first.len() as int + 2) =~= nix::second_part(
            request,
            texts[0],
        ));
    }
    if texts.len() >= 2 {
        let upto = up_to_locking(request, texts[0]);
        let rest = nix::locking_part() + nix::reading_part(nix::attr_path(texts[1]));
        assert(calls.take(upto.len() as int) =~= upto);
        assert(calls.subrange(upto.len() as int, (upto.len() + rest.len()) as int) =~= rest);
        if texts.len() >= 8 {
            assert(calls.skip((upto.len() + rest.len()) as int) =~= nix::fourth_part(
                texts[2],
                texts[6],
            ));
        }
    }
}

/// The flake is not locked in the first part of the script, nor in the second.
proof fn lemma_first_ops(request: nix::RequestModel, k: int)
    requires
        0 <= k < nix::first_part(request).len(),
    ensures
        ({
            let call = nix::first_part(request)[k];
            let n = request.settings.len();
            &&& !(call.op is LockFlake) && !(call.op is AddOverride) && !(call.op is ParseReference)
            &&& !(call.op is SetBaseDirectory) && !(call.op is ParseStorePath) && !(call.op
                is RealisePath)
            &&& call.op is Apply ==> {
                ||| k == 2 && call.op == (Op::Apply {
                    name: "experimental-features"@,
                    value: "nix-command flakes"@,
                })
                ||| 3 <= k < 3 + n && call.op == (Op::Apply {
                    name: request.settings[k - 3].0,
                    value: request.settings[k - 3].1,
                })
                ||| k == 3 + n && request.tarball_ttl is Some && call.op == (Op::Apply {
                    name: "tarball-ttl"@,
                    value: text::decimal(request.tarball_ttl->0 as nat),
                })
            }
            &&& call.check is Tolerated ==> call.op is Apply && 3 <= k < 3 + n
            &&& call.check is Never ==> call.op is Refuse
            &&& call.op is OpenStore ==> call.op == (Op::<Seq<char>>::OpenStore { uri: "daemon"@ })
            &&& call.op is InitStore || call.op is InitExpr || call.op is OpenStore ==> k >= 3 + n
                + (if request.tarball_ttl is Some {
                1int
            } else {
                0int
            })
        }),
{
    let n = request.settings.len() as int;
    let settings = nix::settings_part(request.settings);
    let ttl = nix::ttl_part(request.tarball_ttl);
    let first = nix::first_part(request);
    if 3 <= k < 3 + n {
        assert(first[k] == nix::setting_call(request.settings[k - 3]));
    } else if k < 3 {
        assert(first[k] == nix::starting_part()[k]);
    } else if k < 3 + n + ttl.len() {
        assert(first[k] == ttl[k - 3 - n]);
    } else {
        assert(first[k] == nix::opening_part()[k - 3 - n - ttl.len()]);
    }
}

/// By the time that the flake is locked, every override that was asked for has been handed to the library:
/// its reference was parsed, and right after that added as the override of its input.
pub proof fn law_overrides_are_added_before_locking(r: Realisation, k: int, i: int)
    requires
        r.wf(),
        0 <= k < r.next,
        r.script()[k].op is LockFlake,
        0 <= i < r.request.overrides@.len(),
    ensures
        exists|j: int|
            0 <= j && j + 1 < k && (#[trigger] r.script()[j]).op == (Op::ParseReference {
                uri: r.request.overrides@[i].1@,
                into: Handle::Override(i as usize),
            }) && r.script()[j + 1].op == (Op::AddOverride {
                input: r.request.overrides@[i].0@,
                reference: Handle::Override(i as usize),
            }),
{
    let request = r.request@;
    let calls = r.script();
    let first = nix::first_part(request);
    lemma_script_parts(request, r.texts());
    lemma_before_locking(request, r.texts(), k);
    lemma_overrides_at(request.overrides, i);
    assert(request.overrides[i] == (r.request.overrides@[i].0@, r.request.overrides@[i].1@));
    let upto = up_to_locking(request, r.texts()[0]);
    let j = before_overrides(request) + 2 * i;
    let part = nix::overrides_part(request.overrides);
    assert(calls[j] == calls.take(upto.len() as int)[j]);
    assert(calls[j + 1] == calls.take(upto.len() as int)[j + 1]);
    assert(upto[j] == part[2 * i]);
    assert(upto[j + 1] == part[2 * i + 1]);
    assert(!(calls[j].op is Refuse));
}

proof fn lemma_before_locking(request: nix::RequestModel, texts: Seq<Seq<char>>, k: int)
    requires
        0 <= k < nix::script_so_far(request, texts).len(),
        nix::script_so_far(request, texts)[k].op is LockFlake,
    ensures
        texts.len() >= 2,
        k >= before_locking(request),
{
    let calls = nix::script_so_far(request, texts);
    let first = nix::first_part(request);
    lemma_script_parts(request, texts);
    lemma_overrides_len(request.overrides);
    if k < first.len() {
        assert(calls[k] == calls.take(first.len() as int)[k]);
        lemma_first_ops(request, k);
    } else if texts.len() >= 1 && k < first.len() + 2 {
        let second = calls.subrange(first.len() as int, first.len() as int + 2);
        assert(calls[k] == second[k - first.len()]);
    } else if k < before_locking(request) {
        let upto = up_to_locking(request, texts[0]);
        assert(calls[k] == calls.take(upto.len() as int)[k]);
        let at = k - before_overrides(request);
        if at < 0 {
            assert(upto[k] == nix::flags_part()[at + 2]);
        } else {
            lemma_overrides_at(request.overrides, at / 2);
            assert(upto[k] == nix::overrides_part(request.overrides)[at]);
        }
    }
}

/// By the time that the libraries which read the settings are started, every setting that was asked for
/// has been applied, and so has the time that archives stay fresh for, in decimal.
pub proof fn law_settings_are_applied_before_they_are_read(r: Realisation, k: int, i: int)
    requires
        r.wf(),
        0 <= k < r.next,
        r.script()[k].op is InitStore || r.script()[k].op is InitExpr || r.script()[k].op
            is OpenStore,
        0 <= i < r.request.settings@.len(),
    ensures
        exists|j: int|
            0 <= j < k && (#[trigger] r.script()[j]).op == (Op::Apply {
                name: r.request.settings@[i].0@,
                value: r.request.settings@[i].1@,
            }),
{
    let request = r.request@;
    let calls = r.script();
    let first = nix::first_part(request);
    lemma_script_parts(request, r.texts());
    lemma_in_first(request, r.texts(), k);
    lemma_first_ops(request, k);
    assert(request.settings[i] == (r.request.settings@[i].0@, r.request.settings@[i].1@));
    assert(calls[3 + i] == first[3 + i]) by {
        assert(calls[3 + i] == calls.take(first.len() as int)[3 + i]);
    }
    assert(calls[k] == calls.take(first.len() as int)[k]);
    assert(first[3 + i] == nix::setting_call(request.settings[i]));
    assert(!(calls[3 + i].op is Refuse));
}

/// By the time that the libraries which read the settings are started, the time for which archives are to
/// stay fresh has been applied, in decimal, if one was asked for; and none if none was.
pub proof fn law_freshness_is_applied_before_it_is_read(r: Realisation, k: int)
    requires
        r.wf(),
        0 <= k < r.next,
        r.script()[k].op is InitStore || r.script()[k].op is InitExpr || r.script()[k].op
            is OpenStore,
    ensures
        r.request.tarball_ttl is Some ==> exists|j: int, value: Seq<char>|
            0 <= j < k && (#[trigger] r.script()[j]).op == (Op::Apply {
                name: "tarball-ttl"@,
                value,
            }) && #[trigger] text::number(value, 10) == r.request.tarball_ttl->0,
{
    let request = r.request@;
    let calls = r.script();
    let first = nix::first_part(request);
    lemma_script_parts(request, r.texts());
    lemma_in_first(request, r.texts(), k);
    lemma_first_ops(request, k);
    assert(calls[k] == calls.take(first.len() as int)[k]);
    if let Some(seconds) = request.tarball_ttl {
        let j = 3 + request.settings.len() as int;
        let value = text::decimal(seconds as nat);
        text::law_decimals_read_back(seconds as nat);
        assert(first[j] == nix::ttl_part(request.tarball_ttl)[0]);
        assert(calls[j] == calls.take(first.len() as int)[j]);
        assert(calls[j].op == (Op::Apply { name: "tarball-ttl"@, value }));
    }
}

proof fn lemma_in_first(request: nix::RequestModel, texts: Seq<Seq<char>>, k: int)
    requires
        0 <= k < nix::script_so_far(request, texts).len(),
        nix::script_so_far(request, texts)[k].op is InitStore || nix::script_so_far(
            request,
            texts,
        )[k].op is InitExpr || nix::script_so_far(request, texts)[k].op is OpenStore,
    ensures
        k < nix::first_part(request).len(),
        nix::script_so_far(request, texts)[k] == nix::first_part(request)[k],
{
    let calls = nix::script_so_far(request, texts);
    let first = nix::first_part(request);
    lemma_script_parts(request, texts);
    if k < first.len() {
        assert(calls[k] == calls.take(first.len() as int)[k]);
    } else {
        lemma_later_ops(request, texts, k);
    }
}

/// What kinds of calls the later parts of the script hold.
#[verifier::rlimit(40)]
proof fn lemma_later_ops(request: nix::RequestModel, texts: Seq<Seq<char>>, k: int)
    requires
        nix::first_part(request).len() <= k < nix::script_so_far(request, texts).len(),
    ensures
        ({
            let call = nix::script_so_far(request, texts)[k];
            let n = request.overrides.len();
            &&& !(call.op is InitStore) && !(call.op is InitExpr) && !(call.op is OpenStore)
            &&& !(call.op is Apply)
            &&& !(call.check is Tolerated)
            &&& call.check is Never ==> call.op is Refuse || call.op is Free
            &&& call.op is SetBaseDirectory ==> texts.len() >= 1 && call.op == (
            Op::<Seq<char>>::SetBaseDirectory { dir: texts[0] })
            &&& call.op is AddOverride ==> exists|i: int|
                #![trigger request.overrides[i]]
                0 <= i < n && call.op == (Op::<Seq<char>>::AddOverride {
                    input: request.overrides[i].0,
                    reference: Handle::Override(i as usize),
                })
            &&& call.op is ParseStorePath ==> texts.len() >= 8 && (call.op == (
            Op::<Seq<char>>::ParseStorePath { path: texts[2] }) || call.op == (
            Op::<Seq<char>>::ParseStorePath { path: texts[6] }))
        }),
{
    let calls = nix::script_so_far(request, texts);
    let first = nix::first_part(request);
    lemma_script_parts(request, texts);
    lemma_overrides_len(request.overrides);
    if k < first.len() + 2 {
        let second = calls.subrange(first.len() as int, first.len() as int + 2);
        assert(calls[k] == second[k - first.len()]);
    } else if k < before_locking(request) {
        let upto = up_to_locking(request, texts[0]);
        assert(calls[k] == calls.take(upto.len() as int)[k]);
        let at = k - before_overrides(request);
        if at < 0 {
            assert(upto[k] == nix::flags_part()[at + 2]);
        } else {
            let i = at / 2;
            lemma_overrides_at(request.overrides, i);
            assert(upto[k] == nix::overrides_part(request.overrides)[at]);
            lemma_override_checks(request.overrides, at);
            assert(at == 2 * i || at == 2 * i + 1);
            assert(0 <= i < request.overrides.len());
        }
    } else {
        let attr = nix::attr_path(texts[1]);
        let upto = up_to_locking(request, texts[0]);
        let rest = nix::locking_part() + nix::reading_part(attr);
        let at = k - upto.len();
        if at < rest.len() {
            assert(calls[k] == calls.subrange(
                upto.len() as int,
                (upto.len() + rest.len()) as int,
            )[at]);
            if at < 3 {
                assert(rest[at] == nix::locking_part()[at]);
            } else {
                assert(rest[at] == nix::reading_part(attr)[at - 3]);
                lemma_reading_ops(attr, at - 3);
            }
        } else {
            let part = nix::fourth_part(texts[2], texts[6]);
            let image = nix::realise_part("realise image drv"@, texts[2]);
            let closure = nix::realise_part("realise closureInfo drv"@, texts[6]);
            let last = calls.skip((upto.len() + rest.len()) as int);
            assert(last.len() == 6 && last.len() == calls.len() - upto.len() - rest.len());
            assert(calls[k] == last[at - rest.len()]);
            if at - rest.len() < 3 {
                assert(part[at - rest.len()] == image[at - rest.len()]);
            } else {
                assert(part[at - rest.len()] == closure[at - rest.len() - 3]);
            }
        }
    }
}

proof fn lemma_override_checks(overrides: Seq<(Seq<char>, Seq<char>)>, at: int)
    requires
        0 <= at < nix::overrides_part(overrides).len(),
    ensures
        ({
            let call = nix::overrides_part(overrides)[at];
            &&& call.op is Refuse || call.op is ParseReference || call.op is AddOverride
            &&& !(call.check is Tolerated)
            &&& call.check is Never ==> call.op is Refuse
        }),
    decreases overrides.len(),
{
    if overrides.len() > 0 {
        let front = nix::overrides_part(overrides.drop_last());
        if at < front.len() {
            lemma_override_checks(overrides.drop_last(), at);
            assert(nix::overrides_part(overrides)[at] == front[at]);
        }
    }
}

spec fn is_walking_call(call: Call<Seq<char>>) -> bool {
    &&& call.op is GetAttr || call.op is Force || call.op is Free || call.op is Retain || call.op
        is ReadString
    &&& !(call.check is Tolerated)
    &&& call.check is Never ==> call.op is Free
}

proof fn lemma_descent_ops(path: Seq<char>, segments: Seq<Seq<char>>, at: int)
    requires
        0 <= at < nix::descent(Handle::Outputs, path, segments).len(),
    ensures
        is_walking_call(nix::descent(Handle::Outputs, path, segments)[at]),
    decreases segments.len(),
{
    if segments.len() > 0 {
        let front = nix::descent(Handle::Outputs, path, segments.drop_last());
        if at < front.len() {
            lemma_descent_ops(path, segments.drop_last(), at);
            assert(nix::descent(Handle::Outputs, path, segments)[at] == front[at]);
        }
    }
}

proof fn lemma_read_ops(path: Seq<char>, at: int)
    requires
        0 <= at < nix::read_part(path).len(),
    ensures
        is_walking_call(nix::read_part(path)[at]),
{
    let walk = nix::walk(Handle::Outputs, path);
    if at < walk.len() {
        assert(nix::read_part(path)[at] == walk[at]);
        if nix::segments(path).len() > 0 {
            lemma_descent_ops(path, nix::segments(path), at);
        }
    }
}

proof fn lemma_reading_ops(attr: Seq<char>, at: int)
    requires
        0 <= at < nix::reading_part(attr).len(),
    ensures
        is_walking_call(nix::reading_part(attr)[at]),
{
    let p1 = nix::read_part(attr + ".config.system.build.image.drvPath"@);
    let p2 = nix::read_part(attr + ".config.system.build.image.outPath"@);
    let p3 = nix::read_part(attr + ".config.image.fileName"@);
    let p4 = nix::read_part(attr + ".config.system.build.toplevel.outPath"@);
    let p5 = nix::read_part(attr + ".config.system.build.closureInfo.drvPath"@);
    let p6 = nix::read_part(attr + ".config.system.build.closureInfo.outPath"@);
    let n1 = p1.len();
    let n2 = n1 + p2.len();
    let n3 = n2 + p3.len();
    let n4 = n3 + p4.len();
    let n5 = n4 + p5.len();
    if at < n1 {
        lemma_read_ops(attr + ".config.system.build.image.drvPath"@, at);
    } else if at < n2 {
        lemma_read_ops(attr + ".config.system.build.image.outPath"@, at - n1);
    } else if at < n3 {
        lemma_read_ops(attr + ".config.image.fileName"@, at - n2);
    } else if at < n4 {
        lemma_read_ops(attr + ".config.system.build.toplevel.outPath"@, at - n3);
    } else if at < n5 {
        lemma_read_ops(attr + ".config.system.build.closureInfo.drvPath"@, at - n4);
    } else {
        lemma_read_ops(attr + ".config.system.build.closureInfo.outPath"@, at - n5);
    }
}

/// Nothing is asked of the library that the user did not ask for: what is applied are the features that
/// flakes need, the settings that were asked for and the time that archives stay fresh for; what is
/// overridden are inputs for which that was asked, by the references that were asked for; what is realised
/// are the two derivations that were read; the store is that of the daemon; and references are resolved
/// against the working directory that was read.
pub proof fn law_nothing_else_is_asked_of_nix(r: Realisation, k: int)
    requires
        r.wf(),
        0 <= k < r.script().len(),
    ensures
        ({
            let call = r.script()[k];
            &&& call.op matches Op::Apply { name, value } ==> {
                ||| name == "experimental-features"@ && value == "nix-command flakes"@
                ||| exists|i: int|
                    0 <= i < r.request.settings@.len() && name == (
                    #[trigger] r.request.settings@[i]).0@ && value == r.request.settings@[i].1@
                ||| r.request.tarball_ttl is Some && name == "tarball-ttl"@ && text::number(
                    value,
                    10,
                ) == r.request.tarball_ttl->0
            }
            &&& call.op matches Op::AddOverride { input, reference } ==> exists|i: int|
                0 <= i < r.request.overrides@.len() && input == (
                #[trigger] r.request.overrides@[i]).0@ && reference == Handle::Override(i as usize)
            &&& call.op matches Op::ParseStorePath { path } ==> r.texts().len() == 8 && (path
                == r.texts()[2] || path == r.texts()[6])
            &&& call.op matches Op::OpenStore { uri } ==> uri == "daemon"@
            &&& call.op matches Op::SetBaseDirectory { dir } ==> r.texts().len() >= 1 && dir
                == r.texts()[0]
            &&& call.check is Never ==> call.op is Free || call.op is Refuse
            &&& call.check is Tolerated ==> exists|i: int|
                0 <= i < r.request.settings@.len() && call.op == (Op::<Seq<char>>::Apply {
                    name: (#[trigger] r.request.settings@[i]).0@,
                    value: r.request.settings@[i].1@,
                })
        }),
{
    let request = r.request@;
    let texts = r.texts();
    let calls = r.script();
    let first = nix::first_part(request);
    lemma_script_parts(request, texts);
    realise::lemma_no_more_texts(r);
    if k < first.len() {
        assert(calls[k] == calls.take(first.len() as int)[k]);
        lemma_first_ops(request, k);
        let i = k - 3;
        if 0 <= i < request.settings.len() {
            assert(request.settings[i] == (
                r.request.settings@[i].0@,
                r.request.settings@[i].1@,
            ));
            assert(first[k] == nix::setting_call(request.settings[i]));
        }
        if request.tarball_ttl is Some {
            text::law_decimals_read_back(request.tarball_ttl->0 as nat);
        }
    } else {
        lemma_later_ops(request, texts, k);
        if calls[k].op is AddOverride {
            let i = choose|i: int|
                #![trigger request.overrides[i]]
                0 <= i < request.overrides.len() && calls[k].op == (Op::<Seq<char>>::AddOverride {
                    input: request.overrides[i].0,
                    reference: Handle::Override(i as usize),
                });
            assert(request.overrides[i] == (
                r.request.overrides@[i].0@,
                r.request.overrides@[i].1@,
            ));
        }
    }
}

/// Once a realisation has gone through without a failure, the flake was locked, in memory only; both
/// derivations that were read have been realised; and references were resolved against the working
/// directory, which was read before.
pub proof fn law_everything_is_asked_of_nix(r: Realisation)
    requires
        r.wf(),
        r.over(),
        r.failed is None,
    ensures
        r.texts().len() == 8,
        exists|i: int, j: int|
            0 <= i < j < r.script().len() && (#[trigger] r.script()[i]).op is LockVirtually && (
            #[trigger] r.script()[j]).op is LockFlake,
        exists|j: int|
            0 <= j && j + 1 < r.script().len() && (#[trigger] r.script()[j]).op == (
            Op::<Seq<char>>::ParseStorePath { path: r.texts()[2] }) && r.script()[j + 1].op
                is RealisePath,
        exists|j: int|
            0 <= j && j + 1 < r.script().len() && (#[trigger] r.script()[j]).op == (
            Op::<Seq<char>>::ParseStorePath { path: r.texts()[6] }) && r.script()[j + 1].op
                is RealisePath,
        exists|i: int, j: int|
            0 <= i < j < r.script().len() && (#[trigger] r.script()[i]).op is WorkingDirectory
                && r.texts()[0] == vstd::utf8::decode_utf8(r.replies@[i].text) && (
            #[trigger] r.script()[j]).op == (Op::<Seq<char>>::SetBaseDirectory {
                dir: r.texts()[0],
            }),
{
    let request = r.request@;
    let calls = r.script();
    let texts = r.texts();
    let first = nix::first_part(request);
    readings::lemma_working_directory(r);
    lemma_script_parts(request, texts);
    lemma_overrides_len(request.overrides);
    let upto = up_to_locking(request, texts[0]);
    let rest = nix::locking_part() + nix::reading_part(nix::attr_path(texts[1]));
    let n = before_overrides(request);
    let l = before_locking(request);
    assert(calls[n - 1] == calls.take(upto.len() as int)[n - 1]);
    assert(upto[n - 1] == nix::flags_part()[1]);
    assert(calls[l] == calls.subrange(upto.len() as int, (upto.len() + rest.len()) as int)[0]);
    assert(rest[0] == nix::locking_part()[0]);
    let x = (upto.len() + rest.len()) as int;
    let last = calls.skip(x);
    let part = nix::fourth_part(texts[2], texts[6]);
    let image = nix::realise_part("realise image drv"@, texts[2]);
    let closure = nix::realise_part("realise closureInfo drv"@, texts[6]);
    assert(last.len() == 6 && last.len() == calls.len() - x);
    assert(calls[x] == last[0] && calls[x + 1] == last[1]);
    assert(calls[x + 3] == last[3] && calls[x + 4] == last[4]);
    assert(part[0] == image[0] && part[1] == image[1]);
    assert(part[3] == closure[0] && part[4] == closure[1]);
    let f = first.len() as int;
    assert(calls[f] == calls.subrange(f, f + 2)[0]);
    assert(calls[f - 1] == calls.take(f)[f - 1]);
    assert(first[f - 1] == nix::opening_part()[10]);
    assert(calls[f - 1].op is WorkingDirectory && calls[f].op == (
    Op::<Seq<char>>::SetBaseDirectory { dir: texts[0] }));
}

/// A setting is applied as it was written, its name and its value in full, unless either holds a zero
/// character, which the library cannot take; the warning about an unknown setting quotes both.
pub proof fn law_settings_are_applied_as_written(name: Seq<char>, value: Seq<char>)
    ensures
        ({
            let call = nix::setting_call((name, value));
            let n = name.len() as int;
            let v = value.len() as int;
            &&& call.op is Refuse <==> name.contains('\0') || value.contains('\0')
            &&& !(call.op is Refuse) ==> {
                &&& call.op == Op::Apply { name, value }
                &&& call.check matches Check::Tolerated { what } && what.len() == n + v + 21
                    && what.subrange(19, 19 + n) == name && what.subrange(20 + n, 20 + n + v)
                    == value
            }
            &&& call.gives is None
        }),
{
    path::law_zero_bytes_are_zero_characters(name);
    path::law_zero_bytes_are_zero_characters(value);
    reveal_strlit("ignoring `--option ");
    reveal_strlit(" ");
    reveal_strlit("`");
    let what = "ignoring `--option "@ + name + " "@ + value + "`"@;
    let n = name.len() as int;
    assert(what.subrange(19, 19 + n) =~= name);
    assert(what.subrange(20 + n, 20 + n + value.len()) =~= value);
}

/// A reference is parsed as it was written, in full, unless it holds a zero character; whatever the library
/// has against it is told with the circumstance in front, in full too.
pub proof fn law_references_are_parsed_as_written(
    circumstance: Seq<char>,
    uri: Seq<char>,
    into: Handle,
)
    ensures
        ({
            let call = nix::reference_call(circumstance, uri, into);
            let c = circumstance.len() as int;
            &&& call.op is Refuse <==> uri.contains('\0')
            &&& call.op matches Op::Refuse { text } ==> text.take(c) == circumstance
            &&& !(call.op is Refuse) ==> {
                &&& call.op == Op::ParseReference { uri, into }
                &&& call.gives == Some(into)
                &&& call.check matches Check::Reference { what, null, fragment } && what.take(c)
                    == circumstance && null.take(c) == circumstance && fragment.take(c)
                    == circumstance && what.subrange(what.len() - 1 - uri.len(), what.len() - 1)
                    == uri && null.subrange(null.len() - 1 - uri.len(), null.len() - 1) == uri
            }
        }),
{
    path::law_zero_bytes_are_zero_characters(uri);
    let call = nix::reference_call(circumstance, uri, into);
    if path::has_zero(uri) {
        error::law_causes_are_told_whole(
            circumstance,
            error::within("flake URI contains a NUL byte"@, path::zero_byte_text(uri)),
        );
    } else {
        let a = "nix_flake_reference_and_fragment_from_string("@ + uri + ")"@;
        let b = "nix_flake_reference_and_fragment_from_string returned NULL for `"@ + uri + "`"@;
        reveal_strlit(")");
        reveal_strlit("`");
        error::law_causes_are_told_whole(circumstance, a);
        error::law_causes_are_told_whole(circumstance, b);
        error::law_causes_are_told_whole(circumstance, "flake fragment not UTF-8"@);
        let what = error::within(circumstance, a);
        let null = error::within(circumstance, b);
        assert(what.subrange(what.len() - 1 - uri.len(), what.len() - 1) =~= uri);
        assert(null.subrange(null.len() - 1 - uri.len(), null.len() - 1) =~= uri);
    }
}

/// An override is quoted in full where something is said of it.
pub proof fn law_overrides_are_quoted_in_full(key: Seq<char>, uri: Seq<char>)
    ensures
        ({
            let s = nix::override_text((key, uri));
            let k = key.len() as int;
            let u = uri.len() as int;
            &&& s.len() == k + u + 12
            &&& s.subrange(10, 10 + k) == key
            &&& s.subrange(11 + k, 11 + k + u) == uri
        }),
{
    reveal_strlit("override `");
    reveal_strlit(" ");
    reveal_strlit("`");
    let s = nix::override_text((key, uri));
    let k = key.len() as int;
    assert(s.subrange(10, 10 + k) =~= key);
    assert(s.subrange(11 + k, 11 + k + uri.len()) =~= uri);
}

proof fn lemma_first_part(request: nix::RequestModel)
    ensures
        ({
            let first = nix::first_part(request);
            let n = first.len() - 11;
            &&& n == 3 + request.settings.len() + (if request.tarball_ttl is Some {
                1int
            } else {
                0int
            })
            &&& first[0] == nix::starting_part()[0]
            &&& first[1] == nix::starting_part()[1]
            &&& first[2] == nix::starting_part()[2]
            &&& forall|j: int| 0 <= j < 11 ==> #[trigger] first[n + j] == nix::opening_part()[j]
            &&& first[n] == nix::opening_part()[0]
        }),
{
    let first = nix::first_part(request);
    let n = first.len() - 11;
    assert(first.skip(n) =~= nix::opening_part());
    assert forall|j: int| 0 <= j < 11 implies #[trigger] first[n + j] == nix::opening_part()[j] by {
        assert(first.skip(n)[j] == first[n + j]);
    }
    assert(first[n] == first.skip(n)[0]);
}

/// The library is set up in the order that it needs: its context first; then flakes are enabled, before
/// any setting of the user; and, once the settings are applied, the store of the daemon is opened and the
/// evaluator built, with support for flakes.  Each of these steps has to succeed.
pub proof fn law_library_is_set_up_in_order(r: Realisation, k: int)
    requires
        r.wf(),
        0 <= k < 11,
    ensures
        ({
            let calls = r.script();
            let n = 3 + r.request.settings@.len() + (if r.request.tarball_ttl is Some {
                1int
            } else {
                0int
            });
            &&& calls.len() >= n + 11
            &&& calls[0].op is CreateContext && calls[0].check is Null
            &&& calls[1].op is InitUtil && calls[1].check is Status
            &&& calls[2].op == (Op::<Seq<char>>::Apply {
                name: "experimental-features"@,
                value: "nix-command flakes"@,
            }) && calls[2].check is Status
            &&& !(calls[n + k].check is Never) && !(calls[n + k].check is Tolerated)
            &&& calls[n].op is InitStore
            &&& calls[n + 1].op is InitExpr
            &&& calls[n + 2].op == (Op::<Seq<char>>::OpenStore { uri: "daemon"@ })
            &&& calls[n + 3].op is NewFlakeSettings
            &&& calls[n + 4].op is NewFetchSettings
            &&& calls[n + 5].op is NewBuilder
            &&& calls[n + 6].op is LoadBuilder
            &&& calls[n + 7].op is AddFlakeSettings
            &&& calls[n + 8].op is BuildState
            &&& calls[n + 9].op is NewParseFlags
            &&& calls[n + 10].op is WorkingDirectory
        }),
{
    let request = r.request@;
    let first = nix::first_part(request);
    let calls = r.script();
    lemma_script_parts(request, r.texts());
    lemma_first_part(request);
    let n = first.len() - 11;
    assert(calls.take(first.len() as int) == first);
    assert forall|j: int| 0 <= j < first.len() implies #[trigger] calls[j] == first[j] by {
        assert(calls.take(first.len() as int)[j] == first[j]);
    }
    assert(first[n + k] == nix::opening_part()[k]);
}

/// What is said of a text that cannot be read, of an attribute that cannot be reached and of a derivation
/// that the store does not know quotes it in full.
pub proof fn law_attributes_are_quoted_in_full(
    path: Seq<char>,
    segment: Seq<char>,
    circumstance: Seq<char>,
    drv: Seq<char>,
)
    ensures
        ({
            let calls = nix::read_part(path);
            let call = calls[calls.len() - 2];
            let n = path.len() as int;
            &&& call.op is ReadString
            &&& call.check matches Check::Text { what } && what.len() == n + 17 && what.subrange(
                16,
                16 + n,
            ) == path
        }),
        ({
            let s = nix::walking(segment, path);
            let n = path.len() as int;
            &&& s.take(segment.len() as int) == segment
            &&& s.subrange(s.len() - 1 - n, s.len() - 1) == path
        }),
        nix::realise_part(circumstance, drv)[0].check matches Check::StatusOrNull { what, null }
            && null.take(circumstance.len() as int) == circumstance && null.skip(
            null.len() - drv.len(),
        ) == drv,
{
    reveal_strlit("read string at `");
    reveal_strlit("`");
    let n = path.len() as int;
    let what = "read string at `"@ + path + "`"@;
    assert(what.subrange(16, 16 + n) =~= path);
    let s = nix::walking(segment, path);
    assert(s.take(segment.len() as int) =~= segment);
    assert(s.subrange(s.len() - 1 - n, s.len() - 1) =~= path);
    let told = "nix_store_parse_path returned NULL for "@ + drv;
    error::law_causes_are_told_whole(circumstance, told);
    let null = error::within(circumstance, told);
    assert(null.skip(null.len() - drv.len()) =~= drv);
}

} // verus!
