//! A launch from its beginning to its end: `nixvm run` and `nixvm load`.
//!
//! Whoever carries a launch out asks for the current action, performs it, and tells the session what
//! came of it.

use crate::args::{LoadArgs, RunArgs};
use crate::boot;
use crate::boot::{BootFiles, BootInputs};
use crate::control;
use crate::control::{Control, Signal, Stage};
use crate::course;
use crate::course::{ActionModel, Event, LaunchModel};
use crate::daemon::Detach;
use crate::error;
use crate::error::Error;
use crate::gc_root::GcRoot;
use crate::host::{FileOp, FilePlan};
use crate::krun;
use crate::krun::{GuestConfig, KrunOp, KrunPlan};
use crate::launch_id::LaunchId;
use crate::nix;
use crate::nix::Request;
use crate::overlay;
use crate::overlay::Overlay;
use crate::path;
use crate::path::HostPath;
use crate::plan;
use crate::realise::{Realisation, Realised};
use crate::sidecar;
use crate::state;
use crate::text;
use crate::vmnet::StartParams;
use vstd::prelude::*;
use vstd::string::StringExecFns;

verus! {

/// A launch.
pub struct Session {
    pub control: Control,
    pub id: LaunchId,
    /// The directory of temporary files.
    pub temp: HostPath,
    /// The directory of the state.
    pub state: HostPath,
    /// What is asked of Nix, until it is handed over.
    pub request: Option<Request>,
    /// The image that the guest writes to.
    pub image: HostPath,
    /// Whether to replace what stands there already.
    pub force: bool,
    pub cpus: u8,
    pub memory_mib: u32,
    /// The system of the guest, once it is known.
    pub system: Option<Realised>,
    pub boot: Option<BootInputs>,
    /// The plan that the current stage carries out.
    pub plan: Option<FilePlan>,
    pub overlay: Option<Overlay>,
    pub root: Option<GcRoot>,
    pub params: Option<StartParams>,
    /// The guest's exit code or the error of the launch, once it is known.
    pub verdict: Option<Result<u8, Error>>,
}

/// What is to be done next.
pub enum Action<'a> {
    /// Realise what is asked of Nix.
    Realise,
    /// Look whether there is a file, and which permissions it has.
    Inspect(HostPath),
    /// Read a text file.
    ReadText(HostPath),
    /// Look whether there is something.
    Probe(HostPath),
    /// Read what the system is booted with.
    ReadBoot(BootFiles),
    /// Perform an operation on files.
    Perform(&'a FileOp<HostPath, String>),
    /// Hash the absolute path of a file.
    Hash(HostPath),
    Detach,
    StartNet,
    EnterTty,
    /// Run the guest and wait for its end.
    RunGuest,
    StopNet,
    RestoreTty,
    /// Remove a file, if that is possible.
    RemoveFile(HostPath),
    /// Remove a directory with what is in it, if that is possible.
    RemoveTree(HostPath),
    /// Nothing: take the outcome.
    Finish,
}

impl View for Action<'_> {
    type V = ActionModel;

    open spec fn view(&self) -> ActionModel {
        match self {
            Action::Realise => ActionModel::Realise,
            Action::Inspect(p) => ActionModel::Inspect(p@),
            Action::ReadText(p) => ActionModel::ReadText(p@),
            Action::Probe(p) => ActionModel::Probe(p@),
            Action::ReadBoot(files) => ActionModel::ReadBoot {
                kernel: files.kernel@,
                initrd: files.initrd@,
                params: files.params@,
            },
            Action::Perform(op) => ActionModel::Perform(op@),
            Action::Hash(p) => ActionModel::Hash(p@),
            Action::Detach => ActionModel::Detach,
            Action::StartNet => ActionModel::StartNet,
            Action::EnterTty => ActionModel::EnterTty,
            Action::RunGuest => ActionModel::RunGuest,
            Action::StopNet => ActionModel::StopNet,
            Action::RestoreTty => ActionModel::RestoreTty,
            Action::RemoveFile(p) => ActionModel::RemoveFile(p@),
            Action::RemoveTree(p) => ActionModel::RemoveTree(p@),
            Action::Finish => ActionModel::Finish,
        }
    }
}

/// The model of something that may be missing.
pub open spec fn maybe<T: View>(t: Option<T>) -> Option<T::V> {
    match t {
        Some(v) => Some(v@),
        None => None,
    }
}

/// The model of something that may have failed.
pub open spec fn outcome<T: View>(r: Result<T, Error>) -> Result<T::V, Seq<char>> {
    match r {
        Ok(v) => Ok(v@),
        Err(e) => Err(e@),
    }
}

/// The model of the parameters of a network that may have failed to start.
pub open spec fn net_outcome(r: Result<StartParams, Error>) -> Result<StartParams, Seq<char>> {
    match r {
        Ok(params) => Ok(params),
        Err(e) => Err(e@),
    }
}

/// The model of the end of a guest.
pub open spec fn exit_outcome(r: Result<u8, Error>) -> Result<u8, Seq<char>> {
    match r {
        Ok(code) => Ok(code),
        Err(e) => Err(e@),
    }
}

/// Why something failed, if it did.
pub open spec fn failure_of(r: Result<(), Error>) -> Option<Seq<char>> {
    match r {
        Ok(_) => None,
        Err(e) => Some(e@),
    }
}

impl View for Session {
    type V = LaunchModel;

    open spec fn view(&self) -> LaunchModel {
        LaunchModel {
            control: self.control,
            id: self.id,
            temp: self.temp@,
            state: self.state@,
            request: maybe(self.request),
            image: self.image@,
            force: self.force,
            cpus: self.cpus,
            memory_mib: self.memory_mib,
            system: maybe(self.system),
            boot: maybe(self.boot),
            plan: maybe(self.plan),
            overlay: maybe(self.overlay),
            root: maybe(self.root),
            params: self.params,
            verdict: match self.verdict {
                Some(r) => Some(exit_outcome(r)),
                None => None,
            },
        }
    }
}

impl Session {
    /// What holds at any time.
    pub open spec fn wf(&self) -> bool {
        self@.wf()
    }

    fn fail(&mut self, e: Error)
        ensures
            final(self)@ == old(self)@.failed(e@),
    {
        self.control = self.control.next(Signal::Failed);
        self.verdict = Some(Err(e));
    }

    fn go_on(&mut self)
        ensures
            final(self)@ == old(self)@.went(),
            final(self).system == old(self).system,
            final(self).boot == old(self).boot,
            final(self).params == old(self).params,
            final(self).verdict == old(self).verdict,
    {
        self.control = self.control.next(Signal::Went);
    }

    /// What is to be done next.
    pub fn current(&self) -> (action: Action<'_>)
        requires
            self.wf(),
        ensures
            action@ == self@.action(),
    {
        match self.control.stage {
            Stage::Inspecting => Action::Inspect(self.image.clone()),
            Stage::Realising => Action::Realise,
            Stage::ReadingSidecar => Action::ReadText(sidecar::sidecar_path(&self.image)),
            Stage::ProbingToplevel => Action::Probe(
                HostPath::from_text(self.system.as_ref().unwrap().toplevel.as_str()),
            ),
            Stage::ProbingClosure => Action::Probe(
                HostPath::from_text(self.system.as_ref().unwrap().closure_info.as_str()),
            ),
            Stage::ReadingBoot => Action::ReadBoot(
                boot::boot_files(self.system.as_ref().unwrap().toplevel.as_str()),
            ),
            Stage::ProbingImage => Action::Probe(self.image.clone()),
            Stage::Copying => self.current_operation(),
            Stage::Recording => self.current_operation(),
            Stage::Rooting => self.current_operation(),
            Stage::Hashing => Action::Hash(self.image.clone()),
            Stage::Detaching => Action::Detach,
            Stage::StartingNet => Action::StartNet,
            Stage::EnteringTty => Action::EnterTty,
            Stage::Running => Action::RunGuest,
            Stage::StoppingNet => Action::StopNet,
            Stage::RestoringTty => Action::RestoreTty,
            Stage::RemovingOverlay => Action::RemoveFile(
                self.overlay.as_ref().unwrap().removal().unwrap().clone(),
            ),
            Stage::RemovingRoot => Action::RemoveTree(
                self.root.as_ref().unwrap().removal().unwrap().clone(),
            ),
            Stage::Over => Action::Finish,
        }
    }

    fn current_operation(&self) -> (action: Action<'_>)
        requires
            self.wf(),
            control::is_planned(self.control.stage),
        ensures
            action@ == ActionModel::Perform(self@.plan->0.steps[self@.plan->0.next].0),
    {
        assert(self.plan->0.model().len() == self.plan->0.steps@.len());
        Action::Perform(self.plan.as_ref().unwrap().current().unwrap())
    }
}

impl Session {
    /// Begins to realise what is asked of Nix.
    pub fn realisation(&mut self) -> (r: Realisation)
        requires
            old(self).wf(),
            old(self)@.expects(Event::Requested),
        ensures
            final(self).wf(),
            final(self)@ == old(self)@.step(Event::Requested),
            r.wf(),
            old(self)@.request == Some(r.request@),
            old(self).request == Some(r.request),
            r.next == 0,
            r.held@.len() == 0,
            r.read@.len() == 0,
            r.failed is None,
    {
        proof {
            course::lemma_step_keeps_wf(self@, Event::Requested);
        }
        let request = self.request.take().unwrap();
        Realisation::new(request)
    }

    /// Takes note of what the saved image was found to be: nothing, or a file with its permissions,
    /// which may be unknown.
    pub fn inspected(&mut self, found: Option<Result<u32, String>>)
        requires
            old(self).wf(),
            old(self)@.expects(Event::Inspected(overlay::found_model(found))),
        ensures
            final(self).wf(),
            final(self)@ == old(self)@.step(Event::Inspected(overlay::found_model(found))),
    {
        proof {
            course::lemma_step_keeps_wf(self@, Event::Inspected(overlay::found_model(found)));
        }
        match Overlay::load(self.image.clone(), found) {
            Err(e) => {
                self.fail(e.within("failed to open image"));
            },
            Ok(o) => {
                self.overlay = Some(o);
                self.go_on();
            },
        }
    }

    fn plan_recording(&mut self)
        requires
            old(self).system is Some,
        ensures
            final(self)@ == old(self)@.planning(old(self)@.recording()),
            final(self).system == old(self).system,
    {
        let system = self.system.as_ref().unwrap();
        self.plan = Some(
            sidecar::write_sidecar(
                &self.image,
                system.toplevel.as_str(),
                system.closure_info.as_str(),
            ),
        );
    }

    /// Takes note of what realising the flake output came to.
    pub fn realised(&mut self, r: Result<Realised, Error>)
        requires
            old(self).wf(),
            old(self)@.expects(Event::Realised(outcome(r))),
        ensures
            final(self).wf(),
            final(self)@ == old(self)@.step(Event::Realised(outcome(r))),
            r matches Ok(system) ==> final(self).system == Some(system),
    {
        proof {
            course::lemma_step_keeps_wf(self@, Event::Realised(outcome(r)));
        }
        match r {
            Err(e) => {
                self.fail(e.within("failed to evaluate or realise the flake output"));
            },
            Ok(system) => {
                self.system = Some(system);
                let load = self.control.load;
                self.go_on();
                if load {
                    self.plan_recording();
                }
            },
        }
    }

    /// Takes note of what reading the sidecar of the saved image came to.
    pub fn sidecar_read(&mut self, body: Result<String, String>)
        requires
            old(self).wf(),
            old(self)@.expects(Event::SidecarRead(text::text_read(body))),
        ensures
            final(self).wf(),
            final(self)@ == old(self)@.step(Event::SidecarRead(text::text_read(body))),
    {
        proof {
            course::lemma_step_keeps_wf(self@, Event::SidecarRead(text::text_read(body)));
        }
        match sidecar::read_sidecar(&self.image, body) {
            Err(e) => {
                self.fail(e);
            },
            Ok(system) => {
                let image_file = String::new();
                assert(image_file@ =~= Seq::<char>::empty());
                self.system = Some(
                    Realised { image_file, toplevel: system.0, closure_info: system.1 },
                );
                self.go_on();
            },
        }
    }

    /// Takes note of whether a part of the system of a saved image is still there.
    pub fn probed(&mut self, found: bool)
        requires
            old(self).wf(),
            old(self)@.expects(Event::Probed(found)),
        ensures
            final(self).wf(),
            final(self)@ == old(self)@.step(Event::Probed(found)),
    {
        proof {
            course::lemma_step_keeps_wf(self@, Event::Probed(found));
        }
        if found {
            self.go_on();
        } else {
            let system = self.system.as_ref().unwrap();
            let part = match self.control.stage {
                Stage::ProbingToplevel => system.toplevel.clone(),
                _ => system.closure_info.clone(),
            };
            let e = Error::new(
                part.concat(" no longer exists \u{2014} re-run `nixvm load ").concat(
                    self.image.show().as_str(),
                ).concat(" <flake>` to rebuild the closure"),
            );
            self.fail(e);
        }
    }

    /// Takes note of what the files that the system is booted from were found to hold, and of the
    /// host's terminal.
    pub fn boot_read(
        &mut self,
        kernel: Result<HostPath, String>,
        initrd: Result<HostPath, String>,
        params: Result<String, String>,
        term: Option<String>,
    )
        requires
            old(self).wf(),
            old(self)@.expects(boot_event(kernel, initrd, params, term)),
        ensures
            final(self).wf(),
            final(self)@ == old(self)@.step(boot_event(kernel, initrd, params, term)),
            kernel is Ok && initrd is Ok && params is Ok ==> {
                &&& final(self).boot matches Some(b) && b.kernel == kernel->Ok_0 && b.initrd
                    == initrd->Ok_0 && b.cmdline@ == boot::cmdline(
                    old(self).system->0.toplevel@,
                    old(self).system->0.closure_info@,
                    params->Ok_0@,
                    if term is Some {
                        Some(term->0@)
                    } else {
                        None
                    },
                )
            },
            kernel is Err || initrd is Err || params is Err ==> final(self).verdict matches Some(
                Err(_),
            ),
    {
        proof {
            course::lemma_step_keeps_wf(self@, boot_event(kernel, initrd, params, term));
        }
        let load = self.control.load;
        let system = self.system.as_ref().unwrap();
        let inputs = boot::boot_inputs_from_toplevel(
            system.toplevel.as_str(),
            system.closure_info.as_str(),
            kernel,
            initrd,
            params,
            term,
        );
        match inputs {
            Err(e) => {
                let e = if load {
                    e.within("derive kernel/initrd/cmdline from toplevel")
                } else {
                    e.within("derive kernel/initrd/cmdline from realised toplevel")
                };
                self.fail(e);
            },
            Ok(inputs) => {
                if !load && !self.control.save {
                    let (copy, plan) = Overlay::ephemeral(
                        &self.temp,
                        system.image_file.as_str(),
                        self.id,
                    );
                    assert(plan@.steps =~= self@.copying(false));
                    self.overlay = Some(copy);
                    self.plan = Some(plan);
                }
                self.boot = Some(inputs);
                self.go_on();
            },
        }
    }

    /// Takes note of whether there is something at the path where the image is to be saved.
    pub fn image_probed(&mut self, occupied: bool)
        requires
            old(self).wf(),
            old(self)@.expects(Event::ImageProbed(occupied)),
        ensures
            final(self).wf(),
            final(self)@ == old(self)@.step(Event::ImageProbed(occupied)),
    {
        proof {
            course::lemma_step_keeps_wf(self@, Event::ImageProbed(occupied));
        }
        let base = self.system.as_ref().unwrap().image_file.clone();
        match Overlay::persistent(base.as_str(), self.image.clone(), self.force, occupied) {
            Err(e) => {
                self.fail(e.within("failed to prepare overlay"));
            },
            Ok(made) => {
                self.overlay = Some(made.0);
                self.plan = Some(made.1);
                self.go_on();
            },
        }
    }

    /// Takes note of what the absolute path of the saved image hashes to.
    pub fn hashed(&mut self, hash: u64)
        requires
            old(self).wf(),
            old(self)@.expects(Event::Hashed(hash)),
        ensures
            final(self).wf(),
            final(self)@ == old(self)@.step(Event::Hashed(hash)),
    {
        proof {
            course::lemma_step_keeps_wf(self@, Event::Hashed(hash));
        }
        let system = self.system.as_ref().unwrap();
        let (root, plan) = GcRoot::persistent(&self.state, system.closure_info.as_str(), hash);
        self.root = Some(root);
        self.plan = Some(plan);
        self.go_on();
    }

    fn leave_plan(&mut self)
        requires
            old(self).plan is None,
            old(self).control.stage is Copying ==> old(self).system is Some,
        ensures
            final(self)@ == old(self)@.planned(),
    {
        let copied = match self.control.stage {
            Stage::Copying => true,
            _ => false,
        };
        let save = self.control.save;
        self.go_on();
        if copied {
            if save {
                self.plan_recording();
            } else {
                let system = self.system.as_ref().unwrap();
                let (root, plan) = GcRoot::ephemeral(
                    &self.state,
                    system.closure_info.as_str(),
                    self.id,
                );
                self.root = Some(root);
                self.plan = Some(plan);
            }
        }
    }

    fn plan_error(&self, e: Error) -> (r: Error)
        ensures
            r@ == error::within(course::plan_circumstance(self.control), e@),
    {
        match self.control.stage {
            Stage::Copying => e.within("failed to prepare overlay"),
            Stage::Recording => if self.control.load {
                e.within("update image sidecar")
            } else {
                e.within("write image sidecar")
            },
            _ => if self.control.load {
                e.within("refresh persistent GC root")
            } else if self.control.save {
                e.within("install persistent GC root")
            } else {
                e.within("install ephemeral GC root")
            },
        }
    }

    /// Takes note of how the current operation of the plan went.
    pub fn performed(&mut self, outcome: Result<(), String>)
        requires
            old(self).wf(),
            old(self)@.expects(Event::Performed(plan::failure_of(outcome))),
        ensures
            final(self).wf(),
            final(self)@ == old(self)@.step(Event::Performed(plan::failure_of(outcome))),
    {
        proof {
            course::lemma_step_keeps_wf(self@, Event::Performed(plan::failure_of(outcome)));
        }
        let mut plan = self.plan.take().unwrap();
        let total: usize = plan.steps.len();
        assert(plan.model().len() == total);
        let reported = plan.report(outcome);
        let next: usize = plan.next;
        match reported {
            Err(e) => {
                self.plan = Some(plan);
                let e = self.plan_error(e);
                self.fail(e);
            },
            Ok(()) => {
                if next < total {
                    self.plan = Some(plan);
                } else {
                    self.leave_plan();
                }
            },
        }
    }
}

/// What is known of the files that a system is booted from, and of the host's terminal.
pub open spec fn boot_event(
    kernel: Result<HostPath, String>,
    initrd: Result<HostPath, String>,
    params: Result<String, String>,
    term: Option<String>,
) -> Event {
    Event::BootRead {
        kernel: path::path_read(kernel),
        initrd: path::path_read(initrd),
        params: text::text_read(params),
        term: text::maybe_text(term),
    }
}

impl Session {
    /// Begins to detach from the terminal.
    pub fn detach(&self) -> (d: Detach)
        requires
            self.wf(),
            self.control.stage is Detaching,
        ensures
            d.wf(),
            d.stage is MakingDir,
            d.dir@ == state::logs_of(self.state@),
            d.log@ == state::log_of(self.state@, self.id),
    {
        Detach::detach_into_daemon(&self.state, self.id)
    }

    /// Takes note of what detaching came to, in the process that goes on.
    pub fn detached(&mut self, r: Result<(), Error>)
        requires
            old(self).wf(),
            old(self)@.expects(Event::Detached(failure_of(r))),
        ensures
            final(self).wf(),
            final(self)@ == old(self)@.step(Event::Detached(failure_of(r))),
    {
        proof {
            course::lemma_step_keeps_wf(self@, Event::Detached(failure_of(r)));
        }
        match r {
            Err(e) => {
                self.fail(e.within("detach into daemon"));
            },
            Ok(()) => {
                self.go_on();
            },
        }
    }

    /// Takes note of what starting the network came to.
    pub fn net_started(&mut self, r: Result<StartParams, Error>)
        requires
            old(self).wf(),
            old(self)@.expects(Event::NetStarted(net_outcome(r))),
        ensures
            final(self).wf(),
            final(self)@ == old(self)@.step(Event::NetStarted(net_outcome(r))),
            r matches Ok(params) ==> final(self).params == Some(params),
    {
        proof {
            course::lemma_step_keeps_wf(self@, Event::NetStarted(net_outcome(r)));
        }
        match r {
            Err(e) => {
                self.fail(e.within("failed to start vmnet"));
            },
            Ok(params) => {
                self.params = Some(params);
                self.go_on();
            },
        }
    }

    /// Takes note that the terminal was taken over, as far as there is one.
    pub fn tty_entered(&mut self)
        requires
            old(self).wf(),
            old(self)@.expects(Event::TtyEntered),
        ensures
            final(self).wf(),
            final(self)@ == old(self)@.step(Event::TtyEntered),
    {
        proof {
            course::lemma_step_keeps_wf(self@, Event::TtyEntered);
        }
        self.go_on();
    }

    /// What the guest gets from the host, if `socket` leads to the network.
    pub open spec fn config_for(&self, socket: i32) -> GuestConfig {
        GuestConfig {
            cpus: self.cpus,
            memory_mib: self.memory_mib,
            socket,
            mac: self.params->0.mac,
        }
    }

    /// The plan that configures and starts the guest, in its own process, if `socket` leads to the
    /// network.
    pub fn guest(&self, socket: i32) -> (p: KrunPlan)
        requires
            self.wf(),
            self.control.stage is Running,
            !self.image@.contains(0u8),
            !self.boot->0.kernel@.contains(0u8),
            !self.boot->0.initrd@.contains(0u8),
        ensures
            p.model() == krun::krun_steps(self.boot->0@, self.image@, self.config_for(socket)),
            p.end() == krun::krun_ending(self.boot->0@, self.image@),
            p.next == 0,
            forall|k: int|
                0 <= k < p.steps@.len() ==> ((#[trigger] p.steps@[k]).op matches KrunOp::AddNetwork {
                    socket: wired,
                    mac,
                    features,
                    flags,
                } ==> wired == socket && mac == self.params->0.mac),
            forall|k: int|
                0 <= k < p.steps@.len() ==> ((#[trigger] p.steps@[k]).op matches KrunOp::SetVmConfig {
                    cpus,
                    memory_mib,
                } ==> cpus == self.cpus && memory_mib == self.memory_mib),
    {
        let config = GuestConfig {
            cpus: self.cpus,
            memory_mib: self.memory_mib,
            socket,
            mac: self.params.as_ref().unwrap().mac,
        };
        let p = krun::configure_and_start_vm(
            &self.overlay.as_ref().unwrap().path,
            self.boot.as_ref().unwrap(),
            config,
        );
        proof {
            let steps = krun::krun_steps(self.boot->0@, self.image@, config);
            assert(config == self.config_for(socket));
            assert forall|k: int| 0 <= k < p.steps@.len() implies ((
            #[trigger] p.steps@[k]).op matches KrunOp::AddNetwork {
                socket: wired,
                mac,
                features,
                flags,
            } ==> wired == socket && mac == self.params->0.mac) && (
            p.steps@[k].op matches KrunOp::SetVmConfig { cpus, memory_mib } ==> cpus == self.cpus
                && memory_mib == self.memory_mib) by {
                assert(p.model()[k] == p.steps@[k]@);
                assert(steps[k].0 == p.steps@[k].op@);
                krun::law_guests_are_configured_as_asked(self.boot->0@, self.image@, config, k);
            }
        }
        p
    }

    /// Takes note of how the guest ended.
    pub fn ran(&mut self, r: Result<u8, Error>)
        requires
            old(self).wf(),
            old(self)@.expects(Event::Ran(exit_outcome(r))),
        ensures
            final(self).wf(),
            final(self)@ == old(self)@.step(Event::Ran(exit_outcome(r))),
            r matches Ok(code) ==> final(self).verdict == Some(Ok::<u8, Error>(code)),
            r is Err ==> (final(self).verdict matches Some(Err(_))),
    {
        proof {
            course::lemma_step_keeps_wf(self@, Event::Ran(exit_outcome(r)));
        }
        match r {
            Err(e) => {
                self.fail(e.within("failed to launch the VM"));
            },
            Ok(code) => {
                self.verdict = Some(Ok(code));
                self.go_on();
            },
        }
    }

    /// Takes note that what the current stage gives back has been given back, as far as that was
    /// possible.
    pub fn closed(&mut self)
        requires
            old(self).wf(),
            old(self)@.expects(Event::Closed),
        ensures
            final(self).wf(),
            final(self)@ == old(self)@.step(Event::Closed),
    {
        proof {
            course::lemma_step_keeps_wf(self@, Event::Closed);
        }
        self.go_on();
    }

    /// The guest's exit code, or the error of the launch.
    pub fn finish(self) -> (r: Result<u8, Error>)
        requires
            self.wf(),
            self.control.stage is Over,
        ensures
            self.verdict == Some(r),
            self@.verdict == Some(exit_outcome(r)),
    {
        self.verdict.unwrap()
    }
}

/// The request that the arguments of `nixvm run` make.
pub open spec fn run_request(args: RunArgs) -> nix::RequestModel {
    nix::RequestModel {
        flake_ref: args.flake_ref@,
        overrides: nix::pairs(args.overrides@),
        settings: nix::pairs(args.settings@),
        tarball_ttl: args.tarball_ttl,
    }
}

/// The launch that `nixvm run` begins, if its identity is `id`, temporary files stand in `temp` and the
/// state in `state`.
pub open spec fn run_model(args: RunArgs, id: LaunchId, temp: Seq<u8>, state: Seq<u8>) -> LaunchModel {
    LaunchModel {
        control: control::run_control(args.persist is Some, args.detach),
        id,
        temp,
        state,
        request: Some(run_request(args)),
        image: match args.persist {
            Some(p) => p@,
            None => state::image_of(temp, id),
        },
        force: args.force,
        cpus: args.cpus,
        memory_mib: args.memory_mib,
        system: None,
        boot: None,
        plan: None,
        overlay: None,
        root: None,
        params: None,
        verdict: None,
    }
}

/// The launch that `nixvm run` begins, with everything that it depends on.
pub fn run_in(args: RunArgs, id: LaunchId, temp: HostPath, state: HostPath) -> (s: Session)
    ensures
        s.wf(),
        s@ == run_model(args, id, temp@, state@),
        s.request matches Some(r) && r.flake_ref == args.flake_ref && r.overrides == args.overrides
            && r.settings == args.settings && r.tarball_ttl == args.tarball_ttl,
        s.cpus == args.cpus,
        s.memory_mib == args.memory_mib,
        s.force == args.force,
        s.id == id,
        s.temp == temp,
        s.state == state,
        args.persist matches Some(p) ==> s.image == p,
{
    let control = Control::run(args.persist.is_some(), args.detach);
    let image = match args.persist {
        Some(p) => p,
        None => state::image_path_for(&temp, id),
    };
    Session {
        control,
        id,
        temp,
        state,
        request: Some(
            Request {
                flake_ref: args.flake_ref,
                overrides: args.overrides,
                settings: args.settings,
                tarball_ttl: args.tarball_ttl,
            },
        ),
        image,
        force: args.force,
        cpus: args.cpus,
        memory_mib: args.memory_mib,
        system: None,
        boot: None,
        plan: None,
        overlay: None,
        root: None,
        params: None,
        verdict: None,
    }
}

/// `nixvm run`: builds the image of a flake and boots it.  The guest writes to a copy that goes with the
/// launch, unless the user wants to save the image.
pub fn run(args: RunArgs, temp: HostPath) -> (s: Session)
    ensures
        s.wf(),
        s.id@[6] / 16 == 7,
        s.id@[8] / 64 == 2,
        exists|data: Option<Seq<u8>>|
            s@ == run_model(args, s.id, temp@, #[trigger] state::state_of(data, temp@)),
        s.request matches Some(r) && r.flake_ref == args.flake_ref && r.overrides == args.overrides
            && r.settings == args.settings && r.tarball_ttl == args.tarball_ttl,
        s.cpus == args.cpus,
        s.memory_mib == args.memory_mib,
        s.force == args.force,
        s.temp == temp,
{
    let id = LaunchId::now();
    let state = state::state_dir(&temp);
    let ghost data = choose|data: Option<Seq<u8>>| state@ == state::state_of(data, temp@);
    let s = run_in(args, id, temp, state);
    assert(s@ == run_model(args, s.id, temp@, state::state_of(data, temp@)));
    s
}

/// The request that the arguments of `nixvm load` make, if they name a flake.
pub open spec fn load_request(args: LoadArgs) -> Option<nix::RequestModel> {
    match args.flake_ref {
        Some(flake_ref) => Some(
            nix::RequestModel {
                flake_ref: flake_ref@,
                overrides: nix::pairs(args.overrides@),
                settings: nix::pairs(args.settings@),
                tarball_ttl: args.tarball_ttl,
            },
        ),
        None => None,
    }
}

/// The launch that `nixvm load` begins, if its identity is `id`, temporary files stand in `temp` and the
/// state in `state`.
pub open spec fn load_model(
    args: LoadArgs,
    id: LaunchId,
    temp: Seq<u8>,
    state: Seq<u8>,
) -> LaunchModel {
    LaunchModel {
        control: control::load_control(args.flake_ref is Some, args.detach),
        id,
        temp,
        state,
        request: load_request(args),
        image: args.path@,
        force: false,
        cpus: args.cpus,
        memory_mib: args.memory_mib,
        system: None,
        boot: None,
        plan: None,
        overlay: None,
        root: None,
        params: None,
        verdict: None,
    }
}

/// The launch that `nixvm load` begins, with everything that it depends on.
pub fn load_in(args: LoadArgs, id: LaunchId, temp: HostPath, state: HostPath) -> (s: Session)
    ensures
        s.wf(),
        s@ == load_model(args, id, temp@, state@),
        args.flake_ref matches Some(f) ==> (s.request matches Some(r) && r.flake_ref == f
            && r.overrides == args.overrides && r.settings == args.settings && r.tarball_ttl
            == args.tarball_ttl),
        args.flake_ref is None ==> s.request is None,
        s.cpus == args.cpus,
        s.memory_mib == args.memory_mib,
        !s.force,
        s.id == id,
        s.temp == temp,
        s.state == state,
        s.image == args.path,
{
    let control = Control::load(args.flake_ref.is_some(), args.detach);
    let request = match args.flake_ref {
        Some(flake_ref) => Some(
            Request {
                flake_ref,
                overrides: args.overrides,
                settings: args.settings,
                tarball_ttl: args.tarball_ttl,
            },
        ),
        None => None,
    };
    Session {
        control,
        id,
        temp,
        state,
        request,
        image: args.path,
        force: false,
        cpus: args.cpus,
        memory_mib: args.memory_mib,
        system: None,
        boot: None,
        plan: None,
        overlay: None,
        root: None,
        params: None,
        verdict: None,
    }
}

/// `nixvm load`: boots a saved image in place, with the system that its sidecar records, or with that of
/// a flake, which is recorded then.
pub fn load(args: LoadArgs, temp: HostPath) -> (s: Session)
    ensures
        s.wf(),
        s.id@[6] / 16 == 7,
        s.id@[8] / 64 == 2,
        exists|data: Option<Seq<u8>>|
            s@ == load_model(args, s.id, temp@, #[trigger] state::state_of(data, temp@)),
        args.flake_ref matches Some(f) ==> (s.request matches Some(r) && r.flake_ref == f
            && r.overrides == args.overrides && r.settings == args.settings && r.tarball_ttl
            == args.tarball_ttl),
        args.flake_ref is None ==> s.request is None,
        s.cpus == args.cpus,
        s.memory_mib == args.memory_mib,
        s.image == args.path,
        s.temp == temp,
{
    let id = LaunchId::now();
    let state = state::state_dir(&temp);
    let ghost data = choose|data: Option<Seq<u8>>| state@ == state::state_of(data, temp@);
    let s = load_in(args, id, temp, state);
    assert(s@ == load_model(args, s.id, temp@, state::state_of(data, temp@)));
    s
}

/// The code with which `nixvm` exits.
pub fn exit_status(r: &Result<u8, Error>) -> (code: u8)
    ensures
        code == (match r {
            Ok(c) => *c,
            Err(_) => 1,
        }),
{
    match r {
        Ok(c) => *c,
        Err(_) => 1,
    }
}

/// Without a flake, what is asked of Nix is of no account: launches that load the same image and differ
/// only in that begin alike, and stay alike whatever happens, in what they know and in what they ask
/// for.
pub proof fn law_loading_without_a_flake_asks_nothing_of_nix(
    a: LoadArgs,
    b: LoadArgs,
    id: LaunchId,
    temp: Seq<u8>,
    state: Seq<u8>,
    events: Seq<Event>,
)
    requires
        a.flake_ref is None,
        b.flake_ref is None,
        a.path@ == b.path@,
        a.detach == b.detach,
        a.cpus == b.cpus,
        a.memory_mib == b.memory_mib,
    ensures
        load_model(a, id, temp, state) == load_model(b, id, temp, state),
        load_model(a, id, temp, state).request is None,
        load_model(a, id, temp, state).after(events) == load_model(b, id, temp, state).after(
            events,
        ),
        load_model(a, id, temp, state).after(events).action() == load_model(
            b,
            id,
            temp,
            state,
        ).after(events).action(),
        load_model(a, id, temp, state).is_course(events) ==> {
            &&& !(load_model(a, id, temp, state).after(events).control.stage is Realising)
            &&& !(load_model(a, id, temp, state).after(events).control.stage is Recording)
        },
{
    let m = load_model(a, id, temp, state);
    if m.is_course(events) {
        course::lemma_course(m, events);
    }
}

/// The guest of a launch gets exactly one network: it is wired to the socket that was given, and has the
/// hardware address that the network of this launch was started with.  It gets as many processors and as
/// much memory as the launch was asked for, the kernel, the initial ramdisk and the command line that were
/// found for it, and the image of the launch as its disk.
pub proof fn law_guests_get_what_belongs_to_them(s: Session, socket: i32, k: int)
    requires
        s.wf(),
        s.control.stage is Running,
        0 <= k < krun::krun_steps(s.boot->0@, s.image@, s.config_for(socket)).len(),
    ensures
        ({
            let steps = krun::krun_steps(s.boot->0@, s.image@, s.config_for(socket));
            let op = steps[k].0;
            &&& s.boot is Some && s.params is Some
            &&& op matches KrunOp::AddNetwork { socket: wired, mac, features, flags } ==> wired
                == socket && mac == s.params->0.mac
            &&& op is AddNetwork ==> forall|j: int|
                0 <= j < steps.len() && j != k ==> !((#[trigger] steps[j]).0 is AddNetwork)
            &&& op is StartEnter ==> exists|j: int|
                0 <= j < k && (#[trigger] steps[j]).0 is AddNetwork
            &&& op matches KrunOp::SetVmConfig { cpus, memory_mib } ==> cpus == s.cpus && memory_mib
                == s.memory_mib
            &&& op matches KrunOp::SetKernel { kernel, initrd, cmdline } ==> path::utf8(kernel)
                == s.boot->0.kernel@ && path::utf8(initrd) == s.boot->0.initrd@ && cmdline
                == s.boot->0.cmdline@
            &&& op matches KrunOp::SetRootDisk { disk } ==> path::utf8(disk) == s.image@
        }),
{
    let config = s.config_for(socket);
    let steps = krun::krun_steps(s.boot->0@, s.image@, config);
    krun::law_guests_are_configured_as_asked(s.boot->0@, s.image@, config, k);
    krun::law_guests_that_can_be_configured_are(s.boot->0@, s.image@, config);
    if steps[k].0 is StartEnter {
        assert(steps[6].0 is AddNetwork);
    }
    if steps[k].0 is AddNetwork {
        assert forall|j: int| 0 <= j < steps.len() && j != k implies !((
        #[trigger] steps[j]).0 is AddNetwork) by {
            assert(!krun::is_same_call(steps[k].0, steps[j].0));
        }
    }
}

/// The model of a launch holds all of it.
pub proof fn law_launches_are_told_whole(s: Session)
    ensures
        s@.control == s.control,
        s@.id == s.id,
        s@.temp == s.temp@ && s@.state == s.state@ && s@.image == s.image@,
        s@.force == s.force && s@.cpus == s.cpus && s@.memory_mib == s.memory_mib,
        s@.params == s.params,
        s@.request is Some <==> s.request is Some,
        s.request is Some ==> s@.request->0 == s.request->0@,
        s@.system is Some <==> s.system is Some,
        s.system is Some ==> s@.system->0.toplevel == s.system->0.toplevel@
            && s@.system->0.closure_info == s.system->0.closure_info@ && s@.system->0.image_file
            == s.system->0.image_file@,
        s@.boot is Some <==> s.boot is Some,
        s.boot is Some ==> s@.boot->0.kernel == s.boot->0.kernel@ && s@.boot->0.initrd
            == s.boot->0.initrd@ && s@.boot->0.cmdline == s.boot->0.cmdline@,
        s@.overlay is Some <==> s.overlay is Some,
        s.overlay is Some ==> s@.overlay->0.path == s.overlay->0.path@ && s@.overlay->0.mode
            == s.overlay->0.mode,
        s@.root is Some <==> s.root is Some,
        s.root is Some ==> s@.root->0.dir == s.root->0.dir@ && s@.root->0.ephemeral
            == s.root->0.ephemeral,
        s@.verdict is Some <==> s.verdict is Some,
        s.verdict matches Some(Ok(code)) ==> s@.verdict == Some(Ok::<u8, Seq<char>>(code)),
        s.verdict matches Some(Err(e)) ==> s@.verdict == Some(Err::<u8, Seq<char>>(e.text@)),
{
}

} // verus!
