//! The model of a launch: what it knows, what it asks for next, and what each event makes of it.

use crate::boot;
use crate::boot::BootModel;
use crate::control;
use crate::control::{Control, Signal, Stage};
use crate::error;
use crate::gc_root;
use crate::gc_root::RootModel;
use crate::host;
use crate::host::FileOp;
use crate::launch_id::LaunchId;
use crate::nix;
use crate::overlay;
use crate::overlay::{OverlayMode, OverlayModel};
use crate::path;
use crate::plan;
use crate::plan::PlanModel;
use crate::realise::RealisedModel;
use crate::sidecar;
use crate::state;
use crate::vmnet::StartParams;
use vstd::prelude::*;

verus! {

/// What a launch knows.
pub struct LaunchModel {
    pub control: Control,
    pub id: LaunchId,
    pub temp: Seq<u8>,
    pub state: Seq<u8>,
    pub request: Option<nix::RequestModel>,
    pub image: Seq<u8>,
    pub force: bool,
    pub cpus: u8,
    pub memory_mib: u32,
    pub system: Option<RealisedModel>,
    pub boot: Option<BootModel>,
    pub plan: Option<PlanModel<FileOp<Seq<u8>, Seq<char>>>>,
    pub overlay: Option<OverlayModel>,
    pub root: Option<RootModel>,
    pub params: Option<StartParams>,
    pub verdict: Option<Result<u8, Seq<char>>>,
}

/// What a launch is told.
pub enum Event {
    /// The saved image was found to be this: nothing, or a file with its permissions, which may be
    /// unknown.
    Inspected(Option<Result<u32, Seq<char>>>),
    /// What is asked of Nix was handed over.
    Requested,
    /// Realising the flake output came to this.
    Realised(Result<RealisedModel, Seq<char>>),
    /// Reading the sidecar came to this.
    SidecarRead(Result<Seq<char>, Seq<char>>),
    /// A part of the system of a saved image is still there, or not.
    Probed(bool),
    /// The files that the system is booted from, and the host's terminal, are these.
    BootRead {
        kernel: Result<Seq<u8>, Seq<char>>,
        initrd: Result<Seq<u8>, Seq<char>>,
        params: Result<Seq<char>, Seq<char>>,
        term: Option<Seq<char>>,
    },
    /// There is something where the image is to be saved, or not.
    ImageProbed(bool),
    /// The absolute path of the saved image hashes to this.
    Hashed(u64),
    /// The current operation of the plan succeeded, or failed for this reason.
    Performed(Option<Seq<char>>),
    /// Detaching succeeded, or failed for this reason.
    Detached(Option<Seq<char>>),
    /// Starting the network came to this.
    NetStarted(Result<StartParams, Seq<char>>),
    /// The terminal was taken over, as far as there is one.
    TtyEntered,
    /// The guest exited with this code, or could not be run.
    Ran(Result<u8, Seq<char>>),
    /// What the current stage gives back has been given back.
    Closed,
}

/// What a launch asks for.
pub enum ActionModel {
    Realise,
    Inspect(Seq<u8>),
    ReadText(Seq<u8>),
    Probe(Seq<u8>),
    ReadBoot { kernel: Seq<u8>, initrd: Seq<u8>, params: Seq<u8> },
    Perform(FileOp<Seq<u8>, Seq<char>>),
    Hash(Seq<u8>),
    Detach,
    StartNet,
    EnterTty,
    RunGuest,
    StopNet,
    RestoreTty,
    RemoveFile(Seq<u8>),
    RemoveTree(Seq<u8>),
    Finish,
}

/// Whether the system is known in a stage.
pub open spec fn has_system(stage: Stage) -> bool {
    match stage {
        Stage::Inspecting => false,
        Stage::Realising => false,
        Stage::ReadingSidecar => false,
        _ => !control::is_closing(stage),
    }
}

/// Whether it is known what the system is booted with.
pub open spec fn has_boot(c: Control) -> bool {
    match c.stage {
        Stage::ProbingImage => true,
        Stage::Copying => true,
        Stage::Recording => !c.load,
        Stage::Hashing => true,
        Stage::Rooting => true,
        Stage::Detaching => true,
        Stage::StartingNet => true,
        Stage::EnteringTty => true,
        Stage::Running => true,
        _ => false,
    }
}

/// What the failure of the current plan happened in.
pub open spec fn plan_circumstance(c: Control) -> Seq<char> {
    match c.stage {
        Stage::Copying => "failed to prepare overlay"@,
        Stage::Recording => if c.load {
            "update image sidecar"@
        } else {
            "write image sidecar"@
        },
        _ => if c.load {
            "refresh persistent GC root"@
        } else if c.save {
            "install persistent GC root"@
        } else {
            "install ephemeral GC root"@
        },
    }
}

/// What the failure to read what the system is booted with happened in.
pub open spec fn boot_circumstance(c: Control) -> Seq<char> {
    if c.load {
        "derive kernel/initrd/cmdline from toplevel"@
    } else {
        "derive kernel/initrd/cmdline from realised toplevel"@
    }
}

/// Why a saved image cannot be booted when a part of its system is gone.
pub open spec fn gone_text(part: Seq<char>, image: Seq<u8>) -> Seq<char> {
    part + " no longer exists \u{2014} re-run `nixvm load "@ + path::shown(image)
        + " <flake>` to rebuild the closure"@
}

impl LaunchModel {
    /// What holds at any time.
    pub open spec fn wf(self) -> bool {
        &&& self.fits()
        &&& control::is_planned(self.control.stage) ==> {
            &&& self.plan is Some
            &&& 0 <= self.plan->0.next < self.plan->0.steps.len()
            &&& self.plan->0.end is None
            &&& self.plans(self.plan->0.steps)
        }
    }

    /// Whether what is known fits where the launch stands, leaving its plan aside.
    pub open spec fn fits(self) -> bool {
        let c = self.control;
        &&& control::is_sound(c)
        &&& self.verdict is Some <==> control::is_closing(c.stage)
        &&& has_system(c.stage) ==> self.system is Some
        &&& has_boot(c) ==> self.boot is Some && self.boots_system()
        &&& control::hold_of(c) is Passing ==> self.image == state::image_of(self.temp, self.id)
        &&& !(c.overlay is Absent) || c.stage is Copying ==> {
            &&& self.overlay is Some
            &&& self.overlay->0.path == self.image
            &&& self.overlay->0.mode is Ephemeral <==> control::hold_of(c) is Passing
        }
        &&& !(c.root is Absent) || c.stage is Rooting ==> {
            &&& self.root is Some
            &&& self.root->0.ephemeral <==> control::hold_of(c) is Passing
            &&& self.root->0.ephemeral ==> self.root->0.dir == state::transient_root_of(
                self.state,
                self.id,
            )
        }
        &&& c.stage is EnteringTty || c.stage is Running ==> self.params is Some
    }

    /// Whether the guest is booted with the command line of its system.
    pub open spec fn boots_system(self) -> bool {
        exists|params: Seq<char>, term: Option<Seq<char>>|
            self.boot->0.cmdline == #[trigger] boot::cmdline(
                self.system->0.toplevel,
                self.system->0.closure_info,
                params,
                term,
            )
    }

    /// Whether the steps are those of the plan of the current stage.
    pub open spec fn plans(self, steps: Seq<host::FileStep>) -> bool {
        match self.control.stage {
            Stage::Copying => {
                ||| steps == self.copying(false)
                ||| self.control.save && self.force && steps == self.copying(true)
            },
            Stage::Recording => steps == self.recording(),
            _ => steps == gc_root::root_steps(self.system->0.closure_info, self.root->0.dir),
        }
    }

    /// The steps that copy the system's image, over what stands there if that is `occupied`.
    pub open spec fn copying(self, occupied: bool) -> Seq<host::FileStep> {
        (if occupied {
            overlay::clearing_steps(self.image)
        } else {
            Seq::empty()
        }) + overlay::copy_steps(self.system->0.image_file, self.image)
    }

    /// The steps that record the system next to the image.
    pub open spec fn recording(self) -> Seq<host::FileStep> {
        sidecar::sidecar_steps(self.image, self.system->0.toplevel, self.system->0.closure_info)
    }

    /// The launch that failed with the error `text`.
    pub open spec fn failed(self, text: Seq<char>) -> LaunchModel {
        LaunchModel {
            control: control::next(self.control, Signal::Failed),
            verdict: Some(Err(text)),
            ..self
        }
    }

    /// The launch after the work of its stage was done.
    pub open spec fn went(self) -> LaunchModel {
        LaunchModel { control: control::next(self.control, Signal::Went), ..self }
    }

    /// The launch with a plan that is about to begin.
    pub open spec fn planning(self, steps: Seq<host::FileStep>) -> LaunchModel {
        LaunchModel { plan: Some(PlanModel { steps, next: 0, end: None }), ..self }
    }

    /// The launch with an image that the guest writes to.
    pub open spec fn on(self, mode: OverlayMode) -> LaunchModel {
        LaunchModel { overlay: Some(OverlayModel { path: self.image, mode }), ..self }
    }

    /// The launch with a plan that keeps its system by a root in `dir`.
    pub open spec fn rooting(self, dir: Seq<u8>, ephemeral: bool) -> LaunchModel {
        LaunchModel { root: Some(RootModel { dir, ephemeral }), ..self }.planning(
            gc_root::root_steps(self.system->0.closure_info, dir),
        )
    }

    /// The launch after the last operation of its plan.
    pub open spec fn planned(self) -> LaunchModel {
        if !(self.control.stage is Copying) {
            LaunchModel { plan: None, ..self.went() }
        } else if self.control.save {
            self.went().planning(self.recording())
        } else {
            self.went().rooting(state::transient_root_of(self.state, self.id), true)
        }
    }

    /// Whether an event can come in the current stage.
    pub open spec fn expects(self, event: Event) -> bool {
        let stage = self.control.stage;
        match event {
            Event::Inspected(found) => stage is Inspecting,
            Event::Requested => stage is Realising && self.request is Some,
            Event::Realised(r) => stage is Realising,
            Event::SidecarRead(body) => stage is ReadingSidecar,
            Event::Probed(found) => stage is ProbingToplevel || stage is ProbingClosure,
            Event::BootRead { kernel, initrd, params, term } => stage is ReadingBoot,
            Event::ImageProbed(occupied) => stage is ProbingImage,
            Event::Hashed(hash) => stage is Hashing,
            Event::Performed(failure) => control::is_planned(stage),
            Event::Detached(failure) => stage is Detaching,
            Event::NetStarted(r) => stage is StartingNet,
            Event::TtyEntered => stage is EnteringTty,
            Event::Ran(r) => stage is Running,
            Event::Closed => control::is_closing(stage) && !(stage is Over),
        }
    }

    /// The launch after an event.
    pub open spec fn step(self, event: Event) -> LaunchModel {
        match event {
            Event::Inspected(found) => match overlay::load_failure(self.image, found) {
                Some(text) => self.failed(error::within("failed to open image"@, text)),
                None => self.went().on(OverlayMode::Loaded),
            },
            Event::Requested => LaunchModel { request: None, ..self },
            Event::Realised(r) => match r {
                Err(text) => self.failed(
                    error::within("failed to evaluate or realise the flake output"@, text),
                ),
                Ok(system) => {
                    let known = LaunchModel { system: Some(system), ..self.went() };
                    if self.control.load {
                        known.planning(known.recording())
                    } else {
                        known
                    }
                },
            },
            Event::SidecarRead(body) => match sidecar::recorded_for(self.image, body) {
                Err(text) => self.failed(text),
                Ok(recorded) => LaunchModel {
                    system: Some(
                        RealisedModel {
                            image_file: Seq::empty(),
                            toplevel: recorded.0,
                            closure_info: recorded.1,
                        },
                    ),
                    ..self.went()
                },
            },
            Event::Probed(found) => if found {
                self.went()
            } else {
                self.failed(
                    gone_text(
                        if self.control.stage is ProbingToplevel {
                            self.system->0.toplevel
                        } else {
                            self.system->0.closure_info
                        },
                        self.image,
                    ),
                )
            },
            Event::BootRead { kernel, initrd, params, term } => match boot::boot_model(
                self.system->0.toplevel,
                self.system->0.closure_info,
                kernel,
                initrd,
                params,
                term,
            ) {
                Err(text) => self.failed(
                    error::within(boot_circumstance(self.control), text),
                ),
                Ok(inputs) => {
                    let known = LaunchModel { boot: Some(inputs), ..self.went() };
                    if control::hold_of(self.control) is Passing {
                        known.on(OverlayMode::Ephemeral).planning(known.copying(false))
                    } else {
                        known
                    }
                },
            },
            Event::ImageProbed(occupied) => if occupied && !self.force {
                self.failed(
                    error::within(
                        "failed to prepare overlay"@,
                        overlay::occupied_text(self.image),
                    ),
                )
            } else {
                self.went().on(OverlayMode::Persistent).planning(self.copying(occupied))
            },
            Event::Hashed(hash) => self.went().rooting(
                state::persistent_root_of(self.state, hash),
                false,
            ),
            Event::Performed(failure) => match plan::advance(
                self.plan->0.steps,
                self.plan->0.next,
                failure,
            ) {
                Err(text) => self.failed(
                    error::within(plan_circumstance(self.control), text),
                ),
                Ok(next) => if next < self.plan->0.steps.len() {
                    LaunchModel { plan: Some(PlanModel { next, ..self.plan->0 }), ..self }
                } else {
                    self.planned()
                },
            },
            Event::Detached(failure) => match failure {
                Some(text) => self.failed(error::within("detach into daemon"@, text)),
                None => self.went(),
            },
            Event::NetStarted(r) => match r {
                Err(text) => self.failed(error::within("failed to start vmnet"@, text)),
                Ok(params) => LaunchModel { params: Some(params), ..self.went() },
            },
            Event::TtyEntered => self.went(),
            Event::Ran(r) => match r {
                Err(text) => self.failed(error::within("failed to launch the VM"@, text)),
                Ok(code) => LaunchModel { verdict: Some(Ok(code)), ..self.went() },
            },
            Event::Closed => self.went(),
        }
    }

    /// What the launch asks for.
    pub open spec fn action(self) -> ActionModel {
        match self.control.stage {
            Stage::Inspecting => ActionModel::Inspect(self.image),
            Stage::Realising => ActionModel::Realise,
            Stage::ReadingSidecar => ActionModel::ReadText(sidecar::sidecar_of(self.image)),
            Stage::ProbingToplevel => ActionModel::Probe(path::utf8(self.system->0.toplevel)),
            Stage::ProbingClosure => ActionModel::Probe(path::utf8(self.system->0.closure_info)),
            Stage::ReadingBoot => {
                let dir = path::utf8(self.system->0.toplevel);
                ActionModel::ReadBoot {
                    kernel: path::join(dir, path::utf8("kernel"@)),
                    initrd: path::join(dir, path::utf8("initrd"@)),
                    params: path::join(dir, path::utf8("kernel-params"@)),
                }
            },
            Stage::ProbingImage => ActionModel::Probe(self.image),
            Stage::Copying => ActionModel::Perform(self.plan->0.steps[self.plan->0.next].0),
            Stage::Recording => ActionModel::Perform(self.plan->0.steps[self.plan->0.next].0),
            Stage::Rooting => ActionModel::Perform(self.plan->0.steps[self.plan->0.next].0),
            Stage::Hashing => ActionModel::Hash(self.image),
            Stage::Detaching => ActionModel::Detach,
            Stage::StartingNet => ActionModel::StartNet,
            Stage::EnteringTty => ActionModel::EnterTty,
            Stage::Running => ActionModel::RunGuest,
            Stage::StoppingNet => ActionModel::StopNet,
            Stage::RestoringTty => ActionModel::RestoreTty,
            Stage::RemovingOverlay => ActionModel::RemoveFile(self.image),
            Stage::RemovingRoot => ActionModel::RemoveTree(self.root->0.dir),
            Stage::Over => ActionModel::Finish,
        }
    }

    /// The launch after events.
    pub open spec fn after(self, events: Seq<Event>) -> LaunchModel
        decreases events.len(),
    {
        if events.len() == 0 {
            self
        } else {
            self.after(events.drop_last()).step(events.last())
        }
    }

    /// Whether events can come to the launch, in their order.
    pub open spec fn is_course(self, events: Seq<Event>) -> bool
        decreases events.len(),
    {
        events.len() == 0 || (self.is_course(events.drop_last()) && self.after(
            events.drop_last(),
        ).expects(events.last()))
    }
}

proof fn lemma_failed(m: LaunchModel, text: Seq<char>)
    requires
        m.wf(),
        control::can_give(m.control.stage, Signal::Failed),
    ensures
        m.failed(text).wf(),
{
}

proof fn lemma_boots(m: LaunchModel, next: LaunchModel)
    requires
        m.boots_system(),
        next.boot == m.boot,
        next.system == m.system,
    ensures
        next.boots_system(),
{
    let (params, term) = choose|params: Seq<char>, term: Option<Seq<char>>|
        m.boot->0.cmdline == #[trigger] boot::cmdline(
            m.system->0.toplevel,
            m.system->0.closure_info,
            params,
            term,
        );
    assert(next.boot->0.cmdline == boot::cmdline(
        next.system->0.toplevel,
        next.system->0.closure_info,
        params,
        term,
    ));
}

proof fn lemma_went(m: LaunchModel)
    requires
        m.wf(),
        m.control.stage is ProbingToplevel || m.control.stage is ProbingClosure || m.control.stage
            is Detaching || m.control.stage is EnteringTty || (control::is_closing(m.control.stage)
            && !(m.control.stage is Over)),
    ensures
        m.went().wf(),
{
    if has_boot(m.control) {
        lemma_boots(m, m.went());
    }
}

proof fn lemma_system_found(m: LaunchModel, event: Event)
    requires
        m.wf(),
        m.expects(event),
        event is Inspected || event is Realised || event is SidecarRead,
    ensures
        m.step(event).wf(),
{
    match event {
        Event::Inspected(found) => match overlay::load_failure(m.image, found) {
            Some(text) => {
                lemma_failed(m, error::within("failed to open image"@, text));
            },
            None => {},
        },
        Event::Realised(r) => match r {
            Err(text) => {
                lemma_failed(
                    m,
                    error::within("failed to evaluate or realise the flake output"@, text),
                );
            },
            Ok(system) => {},
        },
        Event::SidecarRead(body) => match sidecar::recorded_for(m.image, body) {
            Err(text) => {
                lemma_failed(m, text);
            },
            Ok(recorded) => {},
        },
        _ => {},
    }
}

proof fn lemma_boot_read(
    m: LaunchModel,
    kernel: Result<Seq<u8>, Seq<char>>,
    initrd: Result<Seq<u8>, Seq<char>>,
    params: Result<Seq<char>, Seq<char>>,
    term: Option<Seq<char>>,
)
    requires
        m.wf(),
        m.control.stage is ReadingBoot,
    ensures
        m.step(Event::BootRead { kernel, initrd, params, term }).wf(),
{
    let next = m.step(Event::BootRead { kernel, initrd, params, term });
    match boot::boot_model(
        m.system->0.toplevel,
        m.system->0.closure_info,
        kernel,
        initrd,
        params,
        term,
    ) {
        Err(text) => {
            lemma_failed(m, error::within(boot_circumstance(m.control), text));
        },
        Ok(inputs) => {
            assert(next.boot->0.cmdline == boot::cmdline(
                next.system->0.toplevel,
                next.system->0.closure_info,
                params->Ok_0,
                term,
            ));
            assert(next.boots_system());
            assert(next.copying(false) == m.copying(false));
        },
    }
}

proof fn lemma_image_probed(m: LaunchModel, occupied: bool)
    requires
        m.wf(),
        m.control.stage is ProbingImage,
    ensures
        m.step(Event::ImageProbed(occupied)).wf(),
{
    let next = m.step(Event::ImageProbed(occupied));
    if occupied && !m.force {
        lemma_failed(
            m,
            error::within("failed to prepare overlay"@, overlay::occupied_text(m.image)),
        );
    } else {
        lemma_boots(m, next);
        assert(next.copying(occupied) == m.copying(occupied));
    }
}

proof fn lemma_hashed(m: LaunchModel, hash: u64)
    requires
        m.wf(),
        m.control.stage is Hashing,
    ensures
        m.step(Event::Hashed(hash)).wf(),
{
    lemma_boots(m, m.step(Event::Hashed(hash)));
}

proof fn lemma_planned(m: LaunchModel)
    requires
        m.wf(),
        control::is_planned(m.control.stage),
    ensures
        m.planned().wf(),
{
    if has_boot(m.control) {
        lemma_boots(m, m.planned());
    }
    if m.control.stage is Copying && m.control.save {
        assert(m.planned().recording() == m.recording());
    }
}

proof fn lemma_performed(m: LaunchModel, failure: Option<Seq<char>>)
    requires
        m.wf(),
        control::is_planned(m.control.stage),
    ensures
        m.step(Event::Performed(failure)).wf(),
{
    let next = m.step(Event::Performed(failure));
    match plan::advance(m.plan->0.steps, m.plan->0.next, failure) {
        Err(text) => {
            lemma_failed(m, error::within(plan_circumstance(m.control), text));
        },
        Ok(at) => if at < m.plan->0.steps.len() {
            if has_boot(m.control) {
                lemma_boots(m, next);
            }
            assert(next.copying(false) == m.copying(false));
            assert(next.copying(true) == m.copying(true));
            assert(next.recording() == m.recording());
        } else {
            lemma_planned(m);
        },
    }
}

proof fn lemma_guest(m: LaunchModel, event: Event)
    requires
        m.wf(),
        m.expects(event),
        event is Detached || event is NetStarted || event is Ran,
    ensures
        m.step(event).wf(),
{
    match event {
        Event::Detached(failure) => match failure {
            Some(text) => {
                lemma_failed(m, error::within("detach into daemon"@, text));
            },
            None => {
                lemma_went(m);
            },
        },
        Event::NetStarted(r) => match r {
            Err(text) => {
                lemma_failed(m, error::within("failed to start vmnet"@, text));
            },
            Ok(params) => {
                lemma_boots(m, m.step(event));
            },
        },
        Event::Ran(r) => match r {
            Err(text) => {
                lemma_failed(m, error::within("failed to launch the VM"@, text));
            },
            Ok(code) => {},
        },
        _ => {},
    }
}

/// What holds of a launch holds after every event that can come to it.
pub proof fn lemma_step_keeps_wf(m: LaunchModel, event: Event)
    requires
        m.wf(),
        m.expects(event),
    ensures
        m.step(event).wf(),
{
    match event {
        Event::Inspected(found) => {
            lemma_system_found(m, event);
        },
        Event::Requested => {},
        Event::Realised(r) => {
            lemma_system_found(m, event);
        },
        Event::SidecarRead(body) => {
            lemma_system_found(m, event);
        },
        Event::Probed(found) => {
            if found {
                lemma_went(m);
            } else {
                lemma_failed(m, m.step(event).verdict->0->Err_0);
            }
        },
        Event::BootRead { kernel, initrd, params, term } => {
            lemma_boot_read(m, kernel, initrd, params, term);
        },
        Event::ImageProbed(occupied) => {
            lemma_image_probed(m, occupied);
        },
        Event::Hashed(hash) => {
            lemma_hashed(m, hash);
        },
        Event::Performed(failure) => {
            lemma_performed(m, failure);
        },
        Event::Detached(failure) => {
            lemma_guest(m, event);
        },
        Event::NetStarted(r) => {
            lemma_guest(m, event);
        },
        Event::TtyEntered => {
            lemma_went(m);
        },
        Event::Ran(r) => {
            lemma_guest(m, event);
        },
        Event::Closed => {
            lemma_went(m);
        },
    }
}

/// Whether `n` is a later state of the launch `m`: what it was asked for does not change.
pub open spec fn is_same_launch(m: LaunchModel, n: LaunchModel) -> bool {
    &&& n.control.load == m.control.load
    &&& n.control.save == m.control.save
    &&& n.control.with_flake == m.control.with_flake
    &&& n.control.detach == m.control.detach
    &&& n.id == m.id
    &&& n.temp == m.temp
    &&& n.state == m.state
    &&& n.image == m.image
    &&& n.force == m.force
    &&& n.cpus == m.cpus
    &&& n.memory_mib == m.memory_mib
}

/// Every event leads to the same stage, to the next one, or to the end of the launch.
proof fn lemma_step_control(m: LaunchModel, event: Event)
    ensures
        ({
            let n = m.step(event);
            &&& n.control == m.control || n.control == control::next(m.control, Signal::Went)
                || n.control == control::next(m.control, Signal::Failed)
            &&& n.id == m.id
            &&& n.temp == m.temp
            &&& n.state == m.state
            &&& n.image == m.image
            &&& n.force == m.force
            &&& n.cpus == m.cpus
            &&& n.memory_mib == m.memory_mib
        }),
{
}

/// What a launch was asked for stays, whatever the event.
pub proof fn lemma_step_keeps_launch(m: LaunchModel, event: Event)
    ensures
        is_same_launch(m, m.step(event)),
{
    lemma_step_control(m, event);
    control::lemma_next_keeps(m.control, Signal::Went);
    control::lemma_next_keeps(m.control, Signal::Failed);
}

proof fn lemma_course_keeps_launch(m: LaunchModel, events: Seq<Event>)
    ensures
        is_same_launch(m, m.after(events)),
    decreases events.len(),
{
    if events.len() > 0 {
        lemma_course_keeps_launch(m, events.drop_last());
        lemma_step_keeps_launch(m.after(events.drop_last()), events.last());
    }
}

proof fn lemma_course_keeps_wf(m: LaunchModel, events: Seq<Event>)
    requires
        m.wf(),
        m.is_course(events),
    ensures
        m.after(events).wf(),
    decreases events.len(),
{
    if events.len() > 0 {
        lemma_course_keeps_wf(m, events.drop_last());
        lemma_step_keeps_wf(m.after(events.drop_last()), events.last());
    }
}

/// Whatever happens to a launch, what holds of it goes on to hold, and what it was asked for stays.
pub proof fn lemma_course(m: LaunchModel, events: Seq<Event>)
    requires
        m.wf(),
        m.is_course(events),
    ensures
        m.after(events).wf(),
        is_same_launch(m, m.after(events)),
{
    lemma_course_keeps_wf(m, events);
    lemma_course_keeps_launch(m, events);
}

/// The signal that an event is to the control of a launch, if it is one.
#[verifier::opaque]
pub open spec fn signal_in(m: LaunchModel, event: Event) -> Option<Signal> {
    let next = m.step(event);
    if event is Requested {
        None
    } else if m.verdict is None && next.verdict matches Some(Err(_)) {
        Some(Signal::Failed)
    } else if control::is_planned(m.control.stage) && next.control == m.control {
        Some(Signal::Stepped)
    } else {
        Some(Signal::Went)
    }
}

/// The signals that events are to the control of a launch.
pub open spec fn signals_in(m: LaunchModel, events: Seq<Event>) -> Seq<Signal>
    decreases events.len(),
{
    if events.len() == 0 {
        Seq::empty()
    } else {
        let before = signals_in(m, events.drop_last());
        match signal_in(m.after(events.drop_last()), events.last()) {
            Some(signal) => before.push(signal),
            None => before,
        }
    }
}

proof fn lemma_signal(m: LaunchModel, event: Event)
    requires
        m.wf(),
        m.expects(event),
    ensures
        match signal_in(m, event) {
            Some(signal) => control::can_give(m.control.stage, signal) && m.step(event).control
                == control::next(m.control, signal),
            None => m.step(event).control == m.control,
        },
{
    reveal(signal_in);
}

proof fn lemma_follow(start: Control, signals: Seq<Signal>, c: Control, signal: Signal)
    requires
        control::is_course(start, signals),
        c == control::after(start, signals),
        control::can_give(c.stage, signal),
    ensures
        control::is_course(start, signals.push(signal)),
        control::next(c, signal) == control::after(start, signals.push(signal)),
{
    assert(signals.push(signal).drop_last() =~= signals);
}

/// Whatever happens to a launch, its stages follow one another as its control says: the laws on control
/// hold of every launch.
pub proof fn law_launches_follow_their_control(m: LaunchModel, events: Seq<Event>)
    requires
        m.wf(),
        m.is_course(events),
    ensures
        control::is_course(m.control, signals_in(m, events)),
        m.after(events).control == control::after(m.control, signals_in(m, events)),
    decreases events.len(),
{
    if events.len() > 0 {
        let front = events.drop_last();
        let before = signals_in(m, front);
        let last = m.after(front);
        law_launches_follow_their_control(m, front);
        lemma_course_keeps_wf(m, front);
        lemma_signal(last, events.last());
        if let Some(signal) = signal_in(last, events.last()) {
            lemma_follow(m.control, before, last.control, signal);
        }
    }
}

/// Whatever happens to it, a launch removes nothing but its own copy of the image and its own root, both
/// of which are named after its identity.
pub proof fn law_launches_remove_only_their_own(m: LaunchModel, events: Seq<Event>)
    requires
        m.wf(),
        m.is_course(events),
    ensures
        m.after(events).action() matches ActionModel::RemoveFile(p) ==> p == state::image_of(
            m.temp,
            m.id,
        ),
        m.after(events).action() matches ActionModel::RemoveTree(p) ==> p
            == state::transient_root_of(m.state, m.id),
{
    lemma_course(m, events);
}

/// Whether an operation changes or removes the file at `at`.
pub open spec fn touches(op: FileOp<Seq<u8>, Seq<char>>, at: Seq<u8>) -> bool {
    match op {
        FileOp::MakeDirs(p) => false,
        FileOp::RemoveFile(p) => p == at,
        FileOp::CopyFile { from, to } => to == at,
        FileOp::Inspect(p) => false,
        FileOp::SetMode { of, mode } => of == at,
        FileOp::WriteText { to, text } => to == at,
        FileOp::AddRoot { closure_info, link } => link == at,
    }
}

/// The current step of a plan is one of the steps of its stage.
pub proof fn lemma_planned_step(m: LaunchModel)
    requires
        m.wf(),
        control::is_planned(m.control.stage),
    ensures
        ({
            let op = m.plan->0.steps[m.plan->0.next].0;
            match m.control.stage {
                Stage::Copying => op is RemoveFile ==> m.control.save && m.force,
                Stage::Recording => op matches FileOp::WriteText { to, text } && to
                    == sidecar::sidecar_of(m.image),
                _ => op is MakeDirs || (op matches FileOp::AddRoot { closure_info, link } && link
                    == path::join(m.root->0.dir, path::utf8("closure-info"@))),
            }
        }),
{
    let steps = m.plan->0.steps;
    let k = m.plan->0.next;
    let copying = overlay::copy_steps(m.system->0.image_file, m.image);
    if m.control.stage is Copying && steps == m.copying(false) {
        assert(m.copying(false) =~= copying);
        assert(steps[k] == copying[k]);
    }
}

/// Whatever happens to it, a launch that loads a saved image leaves its file alone: only the guest
/// writes to it.  The root of the image's system has a directory of its own.
pub proof fn law_loaded_images_are_left_alone(m: LaunchModel, events: Seq<Event>)
    requires
        m.wf(),
        m.is_course(events),
        m.control.load,
        m.after(events).root matches Some(r) ==> m.image != path::join(
            r.dir,
            path::utf8("closure-info"@),
        ),
    ensures
        m.after(events).action() matches ActionModel::Perform(op) ==> !touches(op, m.image),
        !(m.after(events).action() is RemoveFile),
{
    lemma_course(m, events);
    lemma_loaded_image(m.after(events));
}

proof fn lemma_loaded_image(m: LaunchModel)
    requires
        m.wf(),
        m.control.load,
        m.root matches Some(r) ==> m.image != path::join(r.dir, path::utf8("closure-info"@)),
    ensures
        m.action() matches ActionModel::Perform(op) ==> !touches(op, m.image),
        !(m.action() is RemoveFile),
{
    reveal_strlit(".nixvm");
    vstd::utf8::is_ascii_chars_encode_utf8(".nixvm"@);
    assert(sidecar::sidecar_of(m.image).len() == m.image.len() + 6);
    if control::is_planned(m.control.stage) {
        lemma_planned_step(m);
    }
}

/// What stands where an image is to be saved is removed only by force.
pub proof fn law_images_are_replaced_only_by_force(m: LaunchModel, events: Seq<Event>)
    requires
        m.wf(),
        m.is_course(events),
        m.after(events).action() matches ActionModel::Perform(op) && op is RemoveFile,
    ensures
        m.control.save,
        m.force,
{
    lemma_course(m, events);
    lemma_planned_step(m.after(events));
}

/// The system that the guest is booted with is the one that is kept from being collected while it runs,
/// and the one that the sidecar of a saved image records.
pub proof fn law_guest_boots_the_system_that_is_kept(m: LaunchModel, events: Seq<Event>)
    requires
        m.wf(),
        m.is_course(events),
    ensures
        ({
            let n = m.after(events);
            &&& n.control.stage is Recording ==> n.plan->0.steps == sidecar::sidecar_steps(
                n.image,
                n.system->0.toplevel,
                n.system->0.closure_info,
            )
            &&& n.control.stage is Rooting ==> n.plan->0.steps == gc_root::root_steps(
                n.system->0.closure_info,
                n.root->0.dir,
            )
            &&& has_boot(n.control) ==> n.boots_system()
        }),
{
    lemma_course(m, events);
}

/// While the guest of a launch runs, its image is there, its system is kept, its network is up and the
/// terminal is taken over; once the launch is over, none of this is left but what stays with a saved
/// image, and it is known how the launch ended.
pub proof fn law_launches_hold_what_they_need(m: LaunchModel, events: Seq<Event>)
    requires
        m.wf(),
        m.is_course(events),
    ensures
        ({
            let n = m.after(events);
            &&& n.control.stage is Running ==> {
                &&& n.overlay matches Some(o) && o.path == n.image
                &&& n.root is Some
                &&& n.boot is Some
                &&& n.params is Some
                &&& n.control.net && n.control.tty
            }
            &&& n.control.stage is Over ==> {
                &&& !n.control.net && !n.control.tty
                &&& !(n.control.overlay is Passing) && !(n.control.root is Passing)
                &&& n.verdict is Some
            }
        }),
{
    lemma_course(m, events);
}

proof fn lemma_closing_step(m: LaunchModel, event: Event)
    requires
        m.wf(),
        control::is_closing(m.control.stage),
        m.expects(event),
    ensures
        m.step(event).verdict == m.verdict,
        control::is_closing(m.step(event).control.stage),
{
}

proof fn lemma_closing(m: LaunchModel, events: Seq<Event>)
    requires
        m.wf(),
        control::is_closing(m.control.stage),
        m.is_course(events),
    ensures
        m.after(events).verdict == m.verdict,
        control::is_closing(m.after(events).control.stage),
    decreases events.len(),
{
    if events.len() > 0 {
        lemma_closing(m, events.drop_last());
        lemma_course_keeps_wf(m, events.drop_last());
        lemma_closing_step(m.after(events.drop_last()), events.last());
    }
}

/// What came of a launch does not change any more while it gives back what it holds: the exit code of
/// the guest is handed on.
pub proof fn law_verdicts_are_final(m: LaunchModel, code: u8, events: Seq<Event>)
    requires
        m.wf(),
        m.control.stage is Running,
        m.step(Event::Ran(Ok(code))).is_course(events),
    ensures
        m.step(Event::Ran(Ok(code))).after(events).verdict == Some(Ok::<u8, Seq<char>>(code)),
        control::is_closing(m.step(Event::Ran(Ok(code))).after(events).control.stage),
{
    let ended = m.step(Event::Ran(Ok(code)));
    lemma_ran(m, code);
    lemma_closing(ended, events);
}

proof fn lemma_ran(m: LaunchModel, code: u8)
    requires
        m.wf(),
        m.control.stage is Running,
    ensures
        ({
            let ended = m.step(Event::Ran(Ok(code)));
            &&& ended.wf()
            &&& ended.verdict == Some(Ok::<u8, Seq<char>>(code))
            &&& control::is_closing(ended.control.stage)
        }),
{
    lemma_guest(m, Event::Ran(Ok(code)));
}

/// Whether a text ends in another.
pub open spec fn ends_in(s: Seq<char>, end: Seq<char>) -> bool {
    s.len() >= end.len() && s.skip(s.len() - end.len()) == end
}

proof fn lemma_within_ends(what: Seq<char>, text: Seq<char>, cause: Seq<char>)
    requires
        ends_in(text, cause),
    ensures
        ends_in(error::within(what, text), cause),
{
    error::law_causes_are_told_whole(what, text);
    let whole = error::within(what, text);
    assert(whole.skip(whole.len() - cause.len()) =~= text.skip(text.len() - cause.len()));
}

proof fn lemma_ends_in_itself(s: Seq<char>)
    ensures
        ends_in(s, s),
{
    assert(s.skip(0) =~= s);
}

/// Nothing but a failure ends a launch before its guest: where what was asked for was done, the launch
/// goes on, whatever it was asked for; and the code with which the guest exited is what comes of it.
/// As long as everything goes well and nothing stands in the way, a launch goes on towards its guest, and
/// the guest's exit code is what comes of it.
pub proof fn law_successes_go_on(m: LaunchModel, event: Event)
    requires
        m.wf(),
        m.expects(event),
        match event {
            Event::Inspected(found) => found matches Some(Ok(mode)) && mode & 0o200 != 0,
            Event::Requested => true,
            Event::Realised(r) => r is Ok,
            Event::SidecarRead(body) => sidecar::recorded_for(m.image, body) is Ok,
            Event::Probed(found) => found,
            Event::BootRead { kernel, initrd, params, term } => kernel is Ok && initrd is Ok
                && params is Ok,
            Event::ImageProbed(occupied) => !occupied || m.force,
            Event::Hashed(hash) => true,
            Event::Performed(failure) => failure is None || m.plan->0.steps[m.plan->0.next].1
                is Ignore,
            Event::Detached(failure) => failure is None,
            Event::NetStarted(r) => r is Ok,
            Event::TtyEntered => true,
            Event::Ran(r) => r is Ok,
            Event::Closed => true,
        },
    ensures
        match event {
            Event::Ran(r) => m.step(event).verdict == Some(r),
            Event::Closed => m.step(event).verdict == m.verdict,
            _ => m.step(event).verdict is None && !control::is_closing(m.step(event).control.stage),
        },
{
    lemma_step_keeps_wf(m, event);
}

/// Whatever fails, the launch ends in an error that tells the cause to its last character; and so it does
/// where the image is missing or cannot be written to, a part of the system is gone, or the place for the
/// image is taken and the user did not want to replace what is there.
pub proof fn law_failures_are_told(m: LaunchModel, event: Event, cause: Seq<char>)
    requires
        m.wf(),
        m.expects(event),
        match event {
            Event::Inspected(found) => found == Some(Err::<u32, Seq<char>>(cause)),
            Event::Realised(r) => r == Err::<RealisedModel, Seq<char>>(cause),
            Event::SidecarRead(body) => body == Err::<Seq<char>, Seq<char>>(cause),
            Event::BootRead { kernel, initrd, params, term } => kernel == Err::<Seq<u8>, Seq<char>>(
                cause,
            ) || (kernel is Ok && initrd == Err::<Seq<u8>, Seq<char>>(cause)) || (kernel is Ok
                && initrd is Ok && params == Err::<Seq<char>, Seq<char>>(cause)),
            Event::Performed(failure) => failure == Some(cause) && !(m.plan->0.steps[
                m.plan->0.next
            ].1 is Ignore),
            Event::Detached(failure) => failure == Some(cause),
            Event::NetStarted(r) => r == Err::<StartParams, Seq<char>>(cause),
            Event::Ran(r) => r == Err::<u8, Seq<char>>(cause),
            _ => false,
        },
    ensures
        m.step(event).verdict matches Some(Err(e)) && ends_in(e, cause),
        control::is_closing(m.step(event).control.stage),
{
    lemma_step_keeps_wf(m, event);
    lemma_ends_in_itself(cause);
    match event {
        Event::Inspected(found) => {
            lemma_within_ends("failed to open image"@, cause, cause);
        },
        Event::Realised(r) => {
            lemma_within_ends("failed to evaluate or realise the flake output"@, cause, cause);
        },
        Event::SidecarRead(body) => {
            lemma_within_ends(
                "read "@ + path::shown(sidecar::sidecar_of(m.image))
                    + " (no sidecar \u{2014} was this image saved by `nixvm run -p`?)"@,
                cause,
                cause,
            );
        },
        Event::BootRead { kernel, initrd, params, term } => {
            let t = m.system->0.toplevel;
            let c = m.system->0.closure_info;
            boot::law_boot_files_are_handed_on(t, c, kernel, initrd, params, term);
            lemma_within_ends(
                boot_circumstance(m.control),
                boot::boot_model(t, c, kernel, initrd, params, term)->Err_0,
                cause,
            );
        },
        Event::Performed(failure) => {
            let how = m.plan->0.steps[m.plan->0.next].1;
            if let plan::OnFailure::FailIn(what) = how {
                lemma_within_ends(what, cause, cause);
            }
            lemma_within_ends(
                plan_circumstance(m.control),
                plan::verdict_on(how, cause)->0,
                cause,
            );
        },
        Event::Detached(failure) => {
            lemma_within_ends("detach into daemon"@, cause, cause);
        },
        Event::NetStarted(r) => {
            lemma_within_ends("failed to start vmnet"@, cause, cause);
        },
        Event::Ran(r) => {
            lemma_within_ends("failed to launch the VM"@, cause, cause);
        },
        _ => {},
    }
}

/// A launch ends in an error where the image is missing or its owner may not write to it, where the
/// sidecar does not record a system, where a part of the system is gone, and where the place for the image
/// is taken and the user did not want to replace what is there.
pub proof fn law_obstacles_end_the_launch(m: LaunchModel, event: Event)
    requires
        m.wf(),
        m.expects(event),
        match event {
            Event::Inspected(found) => found is None || (found matches Some(Ok(mode)) && mode
                & 0o200 == 0),
            Event::SidecarRead(body) => sidecar::recorded_for(m.image, body) is Err,
            Event::Probed(found) => !found,
            Event::ImageProbed(occupied) => occupied && !m.force,
            _ => false,
        },
    ensures
        m.step(event).verdict matches Some(Err(_)),
        control::is_closing(m.step(event).control.stage),
        event == Event::Probed(false) ==> {
            let e = m.step(event).verdict->0->Err_0;
            let part = if m.action() == ActionModel::Probe(path::utf8(m.system->0.toplevel))
                && m.control.stage is ProbingToplevel {
                m.system->0.toplevel
            } else {
                m.system->0.closure_info
            };
            e.len() > part.len() && e.take(part.len() as int) == part
        },
{
    lemma_step_keeps_wf(m, event);
    if event is Probed {
        reveal_strlit(" no longer exists \u{2014} re-run `nixvm load ");
        let part = if m.control.stage is ProbingToplevel {
            m.system->0.toplevel
        } else {
            m.system->0.closure_info
        };
        assert(gone_text(part, m.image).take(part.len() as int) =~= part);
    }
}

/// What is said of a part of a system that is gone names the part and the image in full.
pub proof fn law_gone_parts_are_named_in_full(part: Seq<char>, image: Seq<u8>)
    ensures
        ({
            let e = gone_text(part, image);
            let p = part.len() as int;
            let n = path::shown(image).len() as int;
            &&& e.len() == p + 39 + n + 32
            &&& e.take(p) == part
            &&& e.subrange(p + 39, p + 39 + n) == path::shown(image)
        }),
{
    reveal_strlit(" no longer exists \u{2014} re-run `nixvm load ");
    reveal_strlit(" <flake>` to rebuild the closure");
    let e = gone_text(part, image);
    let p = part.len() as int;
    let n = path::shown(image).len() as int;
    assert(e.take(p) =~= part);
    assert(e.subrange(p + 39, p + 39 + n) =~= path::shown(image));
}

/// The error of a launch starts with what the launch was about when something failed.
pub proof fn law_failures_are_told_where_they_arose(m: LaunchModel, event: Event)
    requires
        m.wf(),
        m.expects(event),
        m.step(event).verdict matches Some(Err(_)),
        !(event is SidecarRead) && !(event is Probed) && !(event is Closed),
    ensures
        ({
            let e = m.step(event).verdict->0->Err_0;
            let what = match event {
                Event::Inspected(found) => "failed to open image"@,
                Event::Realised(r) => "failed to evaluate or realise the flake output"@,
                Event::BootRead { kernel, initrd, params, term } => if m.control.load {
                    "derive kernel/initrd/cmdline from toplevel"@
                } else {
                    "derive kernel/initrd/cmdline from realised toplevel"@
                },
                Event::ImageProbed(occupied) => "failed to prepare overlay"@,
                Event::Performed(failure) => match (m.control.stage, m.control.load, m.control.save) {
                    (Stage::Copying, _, _) => "failed to prepare overlay"@,
                    (Stage::Recording, true, _) => "update image sidecar"@,
                    (Stage::Recording, false, _) => "write image sidecar"@,
                    (_, true, _) => "refresh persistent GC root"@,
                    (_, false, true) => "install persistent GC root"@,
                    (_, false, false) => "install ephemeral GC root"@,
                },
                Event::Detached(failure) => "detach into daemon"@,
                Event::NetStarted(r) => "failed to start vmnet"@,
                _ => "failed to launch the VM"@,
            };
            e.len() >= what.len() && e.take(what.len() as int) == what
        }),
{
    assert forall|what: Seq<char>, cause: Seq<char>| #[trigger]
        error::within(what, cause).len() >= what.len() && error::within(what, cause).take(
            what.len() as int,
        ) == what by {
        error::law_causes_are_told_whole(what, cause);
    }
}

} // verus!
