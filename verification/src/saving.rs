//! Laws on images that are saved and loaded again.

use crate::args::{LoadArgs, RunArgs};
use crate::boot;
use crate::control;
use crate::control::{Control, Stage};
use crate::course;
use crate::course::{ActionModel, Event, LaunchModel};
use crate::host::FileOp;
use crate::launch_id::LaunchId;
use crate::overlay::{OverlayMode, OverlayModel};
use crate::path;
use crate::realise::RealisedModel;
use crate::session;
use crate::sidecar;
use vstd::prelude::*;

verus! {

/// The text that a launch has left in the file at `at`, if the last that it did to this file was to write
/// a text.
pub open spec fn text_left(m: LaunchModel, events: Seq<Event>, at: Seq<u8>) -> Option<Seq<char>>
    decreases events.len(),
{
    if events.len() == 0 {
        None
    } else {
        let front = events.drop_last();
        left_by(m.after(front), events.last(), at, text_left(m, front, at))
    }
}

/// The text in the file at `at` after an event, if it was `earlier` before.
pub open spec fn left_by(
    m: LaunchModel,
    event: Event,
    at: Seq<u8>,
    earlier: Option<Seq<char>>,
) -> Option<Seq<char>> {
    match (m.action(), event) {
        (ActionModel::Perform(op), Event::Performed(failure)) => if !course::touches(op, at) {
            earlier
        } else {
            match (op, failure) {
                (FileOp::WriteText { to, text }, None) => Some(text),
                _ => None,
            }
        },
        (ActionModel::RemoveFile(p), Event::Closed) => if p == at {
            None
        } else {
            earlier
        },
        (ActionModel::RemoveTree(p), Event::Closed) => None,
        _ => earlier,
    }
}

/// Whether a launch records the system of its image.
pub open spec fn records(c: Control) -> bool {
    c.save || (c.load && c.with_flake)
}

/// Whether a launch that records the system of its image has done so, and has not failed since.
pub open spec fn has_recorded(m: LaunchModel) -> bool {
    match m.control.stage {
        Stage::Inspecting => false,
        Stage::Realising => false,
        Stage::ReadingSidecar => false,
        Stage::ReadingBoot => m.control.load,
        Stage::ProbingImage => false,
        Stage::Copying => false,
        Stage::Recording => false,
        _ => !control::is_closing(m.control.stage) || (m.verdict matches Some(Ok(_))),
    }
}

/// Whether a launch is at its beginning.
pub open spec fn is_fresh(m: LaunchModel) -> bool {
    &&& m.wf()
    &&& m.control.stage is Inspecting || (m.control.stage is Realising && !m.control.load)
    &&& m.system is None
    &&& m.overlay is None
}

/// The text that the sidecar of an image holds, if its system is `system`.
pub open spec fn body_of(system: RealisedModel) -> Seq<char> {
    sidecar::sidecar_body(system.toplevel, system.closure_info)
}

/// The link of a root is never a sidecar.
proof fn lemma_links_are_no_sidecars(dir: Seq<u8>, image: Seq<u8>)
    ensures
        path::join(dir, path::utf8("closure-info"@)) != sidecar::sidecar_of(image),
{
    reveal_strlit("closure-info");
    reveal_strlit(".nixvm");
    vstd::utf8::is_ascii_chars_encode_utf8("closure-info"@);
    vstd::utf8::is_ascii_chars_encode_utf8(".nixvm"@);
    assert(path::utf8("closure-info"@).last() == 111u8);
    assert(path::utf8(".nixvm"@).last() == 109u8);
    assert(path::join(dir, path::utf8("closure-info"@)).last() == 111u8);
    assert(sidecar::sidecar_of(image).last() == 109u8);
}

proof fn lemma_recording(m: LaunchModel, event: Event, earlier: Option<Seq<char>>)
    requires
        m.wf(),
        m.expects(event),
        m.control.stage is Recording,
    ensures
        has_recorded(m.step(event)) ==> m.step(event).system == m.system && left_by(
            m,
            event,
            sidecar::sidecar_of(m.image),
            earlier,
        ) == Some(body_of(m.system->0)),
{
    assert(m.plan->0.steps == m.recording());
    assert(m.recording().len() == 1);
    assert(m.plan->0.next == 0);
}

proof fn lemma_rooting(m: LaunchModel, event: Event, earlier: Option<Seq<char>>)
    requires
        m.wf(),
        m.expects(event),
        m.control.stage is Rooting,
    ensures
        m.step(event).system == m.system,
        left_by(m, event, sidecar::sidecar_of(m.image), earlier) == earlier,
{
    course::lemma_planned_step(m);
    lemma_links_are_no_sidecars(m.root->0.dir, m.image);
}

proof fn lemma_recorded(m: LaunchModel, event: Event, earlier: Option<Seq<char>>)
    requires
        m.wf(),
        m.expects(event),
        records(m.control),
        has_recorded(m),
        !(m.control.stage is Rooting),
    ensures
        m.step(event).system == m.system,
        left_by(m, event, sidecar::sidecar_of(m.image), earlier) == earlier,
{
}

proof fn lemma_unrecorded(m: LaunchModel, event: Event)
    requires
        m.wf(),
        m.expects(event),
        records(m.control),
        !has_recorded(m),
        !(m.control.stage is Recording),
    ensures
        !has_recorded(m.step(event)),
{
}

/// As long as a launch that saves an image, or loads one with the system of a flake, does not fail, what
/// it has left in the image's sidecar is the record of the system that it boots.
pub proof fn law_launches_record_their_system(m: LaunchModel, events: Seq<Event>)
    requires
        is_fresh(m),
        records(m.control),
        m.is_course(events),
    ensures
        has_recorded(m.after(events)) ==> text_left(m, events, sidecar::sidecar_of(m.image))
            == Some(body_of(m.after(events).system->0)),
    decreases events.len(),
{
    if events.len() > 0 {
        let front = events.drop_last();
        let n = m.after(front);
        let event = events.last();
        let earlier = text_left(m, front, sidecar::sidecar_of(m.image));
        law_launches_record_their_system(m, front);
        course::lemma_course(m, front);
        if n.control.stage is Recording {
            lemma_recording(n, event, earlier);
        } else if n.control.stage is Rooting {
            lemma_rooting(n, event, earlier);
        } else if has_recorded(n) {
            lemma_recorded(n, event, earlier);
        } else {
            lemma_unrecorded(n, event);
        }
    }
}

/// Whether a launch is past the stages in which it finds its system.
pub open spec fn is_past_finding(c: Control) -> bool {
    !(c.stage is Inspecting) && !(c.stage is Realising) && !(c.stage is ReadingSidecar)
}

proof fn lemma_realised_step(m: LaunchModel, event: Event, system: RealisedModel)
    requires
        m.wf(),
        m.expects(event),
        event == Event::Realised(Ok(system)) || (m.system == Some(system) && is_past_finding(
            m.control,
        )),
    ensures
        m.step(event).system == Some(system),
        is_past_finding(m.step(event).control),
{
}

/// A launch for which a flake output was realised has the system of this output from then on.
pub proof fn law_realised_systems_are_kept(
    m: LaunchModel,
    events: Seq<Event>,
    system: RealisedModel,
)
    requires
        m.wf(),
        m.is_course(events),
        events.contains(Event::Realised(Ok(system))),
    ensures
        m.after(events).system == Some(system),
        is_past_finding(m.after(events).control),
    decreases events.len(),
{
    let front = events.drop_last();
    let event = events.last();
    course::lemma_course(m, front);
    if event != Event::Realised(Ok::<RealisedModel, Seq<char>>(system)) {
        let i = choose|i: int| 0 <= i < events.len() && events[i] == Event::Realised(Ok(system));
        assert(front[i] == events[i]);
        law_realised_systems_are_kept(m, front, system);
    }
    lemma_realised_step(m.after(front), event, system);
}

/// Whether the sidecar reads `body` whenever it is read.
pub open spec fn sidecar_reads(events: Seq<Event>, body: Seq<char>) -> bool {
    forall|i: int|
        0 <= i < events.len() ==> ((#[trigger] events[i]) matches Event::SidecarRead(read) ==> read
            == Ok::<Seq<char>, Seq<char>>(body))
}

/// What holds of a launch that loads an image without a flake, if the image's sidecar records the system
/// `toplevel` with `closure_info`.
spec fn loads(m: LaunchModel, toplevel: Seq<char>, closure_info: Seq<char>) -> bool {
    &&& m.control.load && !m.control.with_flake
    &&& m.system matches Some(system) ==> system.toplevel == toplevel && system.closure_info
        == closure_info
    &&& m.overlay matches Some(o) ==> o.mode is Loaded
}

proof fn lemma_loads_step(
    m: LaunchModel,
    event: Event,
    toplevel: Seq<char>,
    closure_info: Seq<char>,
)
    requires
        m.wf(),
        m.expects(event),
        loads(m, toplevel, closure_info),
        sidecar::fits_line(toplevel),
        sidecar::fits_line(closure_info),
        event matches Event::SidecarRead(read) ==> read == Ok::<Seq<char>, Seq<char>>(
            sidecar::sidecar_body(toplevel, closure_info),
        ),
    ensures
        loads(m.step(event), toplevel, closure_info),
        event is SidecarRead ==> m.step(event).control.stage is ProbingToplevel,
{
    sidecar::law_sidecar_gives_back_what_was_recorded(m.image, toplevel, closure_info);
    course::lemma_step_keeps_launch(m, event);
}

proof fn lemma_loads(
    m: LaunchModel,
    events: Seq<Event>,
    toplevel: Seq<char>,
    closure_info: Seq<char>,
)
    requires
        is_fresh(m),
        m.control.load && !m.control.with_flake,
        m.is_course(events),
        sidecar::fits_line(toplevel),
        sidecar::fits_line(closure_info),
        sidecar_reads(events, sidecar::sidecar_body(toplevel, closure_info)),
    ensures
        loads(m.after(events), toplevel, closure_info),
        events.len() > 0 && events.last() is SidecarRead ==> m.after(
            events,
        ).control.stage is ProbingToplevel,
    decreases events.len(),
{
    if events.len() > 0 {
        let front = events.drop_last();
        assert(sidecar_reads(front, sidecar::sidecar_body(toplevel, closure_info))) by {
            assert forall|i: int| 0 <= i < front.len() implies ((
            #[trigger] front[i]) matches Event::SidecarRead(read) ==> read == Ok::<
                Seq<char>,
                Seq<char>,
            >(sidecar::sidecar_body(toplevel, closure_info))) by {
                assert(front[i] == events[i]);
            }
        }
        lemma_loads(m, front, toplevel, closure_info);
        course::lemma_course(m, front);
        lemma_loads_step(m.after(front), events.last(), toplevel, closure_info);
    }
}

/// Whether a launch boots the system `toplevel`, whose closure is registered in `closure_info`, with the
/// file at `image` itself as its image, which stays.
pub open spec fn boots_in_place(
    m: LaunchModel,
    image: Seq<u8>,
    toplevel: Seq<char>,
    closure_info: Seq<char>,
) -> bool {
    &&& m.overlay == Some(OverlayModel { path: image, mode: OverlayMode::Loaded })
    &&& m.control.overlay is Kept
    &&& exists|params: Seq<char>, term: Option<Seq<char>>|
        m.boot->0.cmdline == #[trigger] boot::cmdline(toplevel, closure_info, params, term)
}

/// An image that is loaded without a flake is booted in place, with the system that its sidecar records,
/// whatever else happens; it is not removed, and its sidecar is no reason to fail.
pub proof fn law_loaded_images_boot_what_is_recorded(
    args: LoadArgs,
    id: LaunchId,
    temp: Seq<u8>,
    state: Seq<u8>,
    toplevel: Seq<char>,
    closure_info: Seq<char>,
    events: Seq<Event>,
)
    requires
        args.flake_ref is None,
        sidecar::fits_line(toplevel),
        sidecar::fits_line(closure_info),
        session::load_model(args, id, temp, state).is_course(events),
        sidecar_reads(events, sidecar::sidecar_body(toplevel, closure_info)),
    ensures
        ({
            let n = session::load_model(args, id, temp, state).after(events);
            let dir = path::utf8(toplevel);
            &&& course::has_boot(n.control) ==> boots_in_place(
                n,
                args.path@,
                toplevel,
                closure_info,
            )
            &&& n.action() matches ActionModel::ReadBoot { kernel, initrd, params } ==> {
                &&& kernel == path::join(dir, path::utf8("kernel"@))
                &&& initrd == path::join(dir, path::utf8("initrd"@))
                &&& params == path::join(dir, path::utf8("kernel-params"@))
            }
            &&& !(n.action() is RemoveFile) && !(n.action() is RemoveTree)
            &&& events.len() > 0 && events.last() is SidecarRead ==> n.control.stage
                is ProbingToplevel
        }),
{
    let m = session::load_model(args, id, temp, state);
    lemma_loads(m, events, toplevel, closure_info);
    course::lemma_course(m, events);
    lemma_in_place(m.after(events), toplevel, closure_info);
}

proof fn lemma_in_place(m: LaunchModel, toplevel: Seq<char>, closure_info: Seq<char>)
    requires
        m.wf(),
        loads(m, toplevel, closure_info),
    ensures
        course::has_boot(m.control) ==> boots_in_place(m, m.image, toplevel, closure_info),
        course::has_system(m.control.stage) ==> m.system->0.toplevel == toplevel,
        !(m.action() is RemoveFile) && !(m.action() is RemoveTree),
{
    if course::has_boot(m.control) {
        let (params, term) = choose|params: Seq<char>, term: Option<Seq<char>>|
            m.boot->0.cmdline == #[trigger] boot::cmdline(
                m.system->0.toplevel,
                m.system->0.closure_info,
                params,
                term,
            );
        assert(m.boot->0.cmdline == boot::cmdline(toplevel, closure_info, params, term));
    }
}

/// An image that a run saved, and whose sidecar is still what that run left, is loaded without a flake
/// as it was saved: it is booted in place, with the very system that the run realised, and stays.
/// Neither of the two store paths may hold a line feed or end in a carriage return.
pub proof fn law_saved_images_are_loaded_as_they_were_saved(
    saving: RunArgs,
    saving_id: LaunchId,
    saving_temp: Seq<u8>,
    saving_state: Seq<u8>,
    saving_events: Seq<Event>,
    system: RealisedModel,
    loading: LoadArgs,
    id: LaunchId,
    temp: Seq<u8>,
    state: Seq<u8>,
    events: Seq<Event>,
)
    requires
        saving.persist matches Some(p) && p@ == loading.path@,
        ({
            let m = session::run_model(saving, saving_id, saving_temp, saving_state);
            let left = text_left(m, saving_events, sidecar::sidecar_of(loading.path@));
            &&& m.is_course(saving_events)
            &&& m.after(saving_events).verdict matches Some(Ok(_))
            &&& saving_events.contains(Event::Realised(Ok(system)))
            &&& left matches Some(body) ==> sidecar_reads(events, body)
        }),
        sidecar::fits_line(system.toplevel),
        sidecar::fits_line(system.closure_info),
        loading.flake_ref is None,
        session::load_model(loading, id, temp, state).is_course(events),
    ensures
        text_left(
            session::run_model(saving, saving_id, saving_temp, saving_state),
            saving_events,
            sidecar::sidecar_of(loading.path@),
        ) == Some(body_of(system)),
        ({
            let n = session::load_model(loading, id, temp, state).after(events);
            &&& course::has_boot(n.control) ==> boots_in_place(
                n,
                loading.path@,
                system.toplevel,
                system.closure_info,
            )
            &&& !(n.action() is RemoveFile) && !(n.action() is RemoveTree)
            &&& events.len() > 0 && events.last() is SidecarRead ==> n.control.stage
                is ProbingToplevel
        }),
{
    let m = session::run_model(saving, saving_id, saving_temp, saving_state);
    law_launches_record_their_system(m, saving_events);
    law_realised_systems_are_kept(m, saving_events, system);
    course::lemma_course(m, saving_events);
    law_loaded_images_boot_what_is_recorded(
        loading,
        id,
        temp,
        state,
        system.toplevel,
        system.closure_info,
        events,
    );
}

} // verus!
