//! The course of a launch: which stage follows which, what the launch holds at each stage, and in what
//! order that is given back at the end.

use vstd::prelude::*;

verus! {

/// A stage of a launch.
#[derive(Clone, Copy, PartialEq, Eq, Structural, Debug)]
pub enum Stage {
    /// The saved image is looked at.
    Inspecting,
    /// The flake output is evaluated and realised.
    Realising,
    /// The sidecar of the saved image is read.
    ReadingSidecar,
    /// The top level of the system is looked for.
    ProbingToplevel,
    /// The registration of the system's closure is looked for.
    ProbingClosure,
    /// The files that the system is booted from are read.
    ReadingBoot,
    /// The path at which the image is to be saved is looked at.
    ProbingImage,
    /// The image is copied.
    Copying,
    /// The sidecar is written.
    Recording,
    /// The path of the saved image is hashed.
    Hashing,
    /// The system is kept from being collected as garbage.
    Rooting,
    /// The launch detaches from the terminal.
    Detaching,
    /// The network is started.
    StartingNet,
    /// The terminal is taken over.
    EnteringTty,
    /// The guest runs.
    Running,
    /// The network is stopped.
    StoppingNet,
    /// The terminal is given back.
    RestoringTty,
    /// The copy of the image is removed.
    RemovingOverlay,
    /// The root that kept the system is removed.
    RemovingRoot,
    Over,
}

/// Whether a launch has made something, and what becomes of it.
#[derive(Clone, Copy, PartialEq, Eq, Structural, Debug)]
pub enum Hold {
    Absent,
    /// It stays when the launch ends.
    Kept,
    /// It goes with the launch.
    Passing,
}

/// The order in which a launch gives back what it holds.
#[derive(Clone, Copy, PartialEq, Eq, Structural, Debug)]
pub enum Order {
    /// Network, terminal, copy of the image, root.
    AfterRun,
    /// Terminal, network, copy of the image, root.
    AfterFailedRun,
    /// Root, copy of the image.
    AfterFailedDetach,
}

/// What the work of a stage came to.
#[derive(Clone, Copy, PartialEq, Eq, Structural, Debug)]
pub enum Signal {
    /// A step of it is done, and more are left.
    Stepped,
    /// It is done.
    Went,
    /// It failed.
    Failed,
}

/// Where a launch stands.
#[derive(Clone, Copy, PartialEq, Eq, Structural, Debug)]
pub struct Control {
    /// Whether a saved image is loaded.
    pub load: bool,
    /// Whether the image is saved.
    pub save: bool,
    /// Whether a saved image is loaded with the system of a flake.
    pub with_flake: bool,
    pub detach: bool,
    pub stage: Stage,
    /// The image that the guest writes to.
    pub overlay: Hold,
    /// The root that keeps the system.
    pub root: Hold,
    pub net: bool,
    pub tty: bool,
    pub order: Order,
}

/// The launch that makes an image, at its beginning.
pub open spec fn run_control(save: bool, detach: bool) -> Control {
    Control {
        load: false,
        save,
        with_flake: true,
        detach,
        stage: Stage::Realising,
        overlay: Hold::Absent,
        root: Hold::Absent,
        net: false,
        tty: false,
        order: Order::AfterRun,
    }
}

/// The launch that loads a saved image, at its beginning.
pub open spec fn load_control(with_flake: bool, detach: bool) -> Control {
    Control {
        load: true,
        save: false,
        with_flake,
        detach,
        stage: Stage::Inspecting,
        overlay: Hold::Absent,
        root: Hold::Absent,
        net: false,
        tty: false,
        order: Order::AfterRun,
    }
}

/// What becomes of the image and of the root: they stay with a saved image, and go with the launch
/// otherwise.
pub open spec fn hold_of(c: Control) -> Hold {
    if c.load || c.save {
        Hold::Kept
    } else {
        Hold::Passing
    }
}

/// The stage in which a launch that ends gives back what comes next.
pub open spec fn closing_stage(c: Control) -> Stage {
    match c.order {
        Order::AfterRun => if c.net {
            Stage::StoppingNet
        } else if c.tty {
            Stage::RestoringTty
        } else if c.overlay is Passing {
            Stage::RemovingOverlay
        } else if c.root is Passing {
            Stage::RemovingRoot
        } else {
            Stage::Over
        },
        Order::AfterFailedRun => if c.tty {
            Stage::RestoringTty
        } else if c.net {
            Stage::StoppingNet
        } else if c.overlay is Passing {
            Stage::RemovingOverlay
        } else if c.root is Passing {
            Stage::RemovingRoot
        } else {
            Stage::Over
        },
        Order::AfterFailedDetach => if c.root is Passing {
            Stage::RemovingRoot
        } else if c.overlay is Passing {
            Stage::RemovingOverlay
        } else {
            Stage::Over
        },
    }
}

/// A launch that ends, and gives back what it holds in the given order.
pub open spec fn closing(c: Control, order: Order) -> Control {
    let ending = Control { order, ..c };
    Control { stage: closing_stage(ending), ..ending }
}

/// The order in which a launch that fails in `stage` gives back what it holds.
pub open spec fn order_after_failure(stage: Stage) -> Order {
    match stage {
        Stage::Running => Order::AfterFailedRun,
        Stage::Detaching => Order::AfterFailedDetach,
        _ => Order::AfterRun,
    }
}

/// Where a launch stands once the work of its stage is done.
pub open spec fn went(c: Control) -> Control {
    match c.stage {
        Stage::Inspecting => Control {
            overlay: Hold::Kept,
            stage: if c.with_flake {
                Stage::Realising
            } else {
                Stage::ReadingSidecar
            },
            ..c
        },
        Stage::Realising => Control {
            stage: if c.load {
                Stage::Recording
            } else {
                Stage::ReadingBoot
            },
            ..c
        },
        Stage::ReadingSidecar => Control { stage: Stage::ProbingToplevel, ..c },
        Stage::ProbingToplevel => Control { stage: Stage::ProbingClosure, ..c },
        Stage::ProbingClosure => Control { stage: Stage::ReadingBoot, ..c },
        Stage::ReadingBoot => Control {
            stage: if c.load {
                Stage::Hashing
            } else if c.save {
                Stage::ProbingImage
            } else {
                Stage::Copying
            },
            ..c
        },
        Stage::ProbingImage => Control { stage: Stage::Copying, ..c },
        Stage::Copying => Control {
            overlay: hold_of(c),
            stage: if c.save {
                Stage::Recording
            } else {
                Stage::Rooting
            },
            ..c
        },
        Stage::Recording => Control {
            stage: if c.load {
                Stage::ProbingToplevel
            } else {
                Stage::Hashing
            },
            ..c
        },
        Stage::Hashing => Control { stage: Stage::Rooting, ..c },
        Stage::Rooting => Control {
            root: hold_of(c),
            stage: if c.detach {
                Stage::Detaching
            } else {
                Stage::StartingNet
            },
            ..c
        },
        Stage::Detaching => Control { stage: Stage::StartingNet, ..c },
        Stage::StartingNet => Control { net: true, stage: Stage::EnteringTty, ..c },
        Stage::EnteringTty => Control { tty: true, stage: Stage::Running, ..c },
        Stage::Running => closing(c, Order::AfterRun),
        Stage::StoppingNet => closing(Control { net: false, ..c }, c.order),
        Stage::RestoringTty => closing(Control { tty: false, ..c }, c.order),
        Stage::RemovingOverlay => closing(Control { overlay: Hold::Absent, ..c }, c.order),
        Stage::RemovingRoot => closing(Control { root: Hold::Absent, ..c }, c.order),
        Stage::Over => c,
    }
}

/// Where a launch stands after a signal.
pub open spec fn next(c: Control, signal: Signal) -> Control {
    match signal {
        Signal::Stepped => c,
        Signal::Went => went(c),
        Signal::Failed => closing(c, order_after_failure(c.stage)),
    }
}

/// Whether a launch is at its end and gives back what it holds, or has done so.
pub open spec fn is_closing(stage: Stage) -> bool {
    match stage {
        Stage::StoppingNet => true,
        Stage::RestoringTty => true,
        Stage::RemovingOverlay => true,
        Stage::RemovingRoot => true,
        Stage::Over => true,
        _ => false,
    }
}

/// Whether the work of a stage is a plan of several operations.
pub open spec fn is_planned(stage: Stage) -> bool {
    stage is Copying || stage is Recording || stage is Rooting
}

/// Whether the work of a stage can give a signal.
pub open spec fn can_give(stage: Stage, signal: Signal) -> bool {
    match signal {
        Signal::Stepped => is_planned(stage),
        Signal::Went => !(stage is Over),
        Signal::Failed => !is_closing(stage) && !(stage is EnteringTty) && !(stage is Hashing),
    }
}

impl Control {
    /// The launch that makes an image, at its beginning.
    pub fn run(save: bool, detach: bool) -> (c: Control)
        ensures
            c == run_control(save, detach),
    {
        Control {
            load: false,
            save,
            with_flake: true,
            detach,
            stage: Stage::Realising,
            overlay: Hold::Absent,
            root: Hold::Absent,
            net: false,
            tty: false,
            order: Order::AfterRun,
        }
    }

    /// The launch that loads a saved image, at its beginning.
    pub fn load(with_flake: bool, detach: bool) -> (c: Control)
        ensures
            c == load_control(with_flake, detach),
    {
        Control {
            load: true,
            save: false,
            with_flake,
            detach,
            stage: Stage::Inspecting,
            overlay: Hold::Absent,
            root: Hold::Absent,
            net: false,
            tty: false,
            order: Order::AfterRun,
        }
    }

    fn hold(self) -> (h: Hold)
        ensures
            h == hold_of(self),
    {
        if self.load || self.save {
            Hold::Kept
        } else {
            Hold::Passing
        }
    }

    fn closing_stage(self) -> (s: Stage)
        ensures
            s == closing_stage(self),
    {
        let overlay = self.overlay == Hold::Passing;
        let root = self.root == Hold::Passing;
        match self.order {
            Order::AfterRun => if self.net {
                Stage::StoppingNet
            } else if self.tty {
                Stage::RestoringTty
            } else if overlay {
                Stage::RemovingOverlay
            } else if root {
                Stage::RemovingRoot
            } else {
                Stage::Over
            },
            Order::AfterFailedRun => if self.tty {
                Stage::RestoringTty
            } else if self.net {
                Stage::StoppingNet
            } else if overlay {
                Stage::RemovingOverlay
            } else if root {
                Stage::RemovingRoot
            } else {
                Stage::Over
            },
            Order::AfterFailedDetach => if root {
                Stage::RemovingRoot
            } else if overlay {
                Stage::RemovingOverlay
            } else {
                Stage::Over
            },
        }
    }

    fn closing(self, order: Order) -> (c: Control)
        ensures
            c == closing(self, order),
    {
        let ending = Control { order, ..self };
        Control { stage: ending.closing_stage(), ..ending }
    }

    fn went(self) -> (c: Control)
        ensures
            c == went(self),
    {
        let mut c = self;
        match self.stage {
            Stage::Inspecting => {
                c.overlay = Hold::Kept;
                c.stage = if self.with_flake {
                    Stage::Realising
                } else {
                    Stage::ReadingSidecar
                };
            },
            Stage::Realising => {
                c.stage = if self.load {
                    Stage::Recording
                } else {
                    Stage::ReadingBoot
                };
            },
            Stage::ReadingSidecar => {
                c.stage = Stage::ProbingToplevel;
            },
            Stage::ProbingToplevel => {
                c.stage = Stage::ProbingClosure;
            },
            Stage::ProbingClosure => {
                c.stage = Stage::ReadingBoot;
            },
            Stage::ReadingBoot => {
                c.stage = if self.load {
                    Stage::Hashing
                } else if self.save {
                    Stage::ProbingImage
                } else {
                    Stage::Copying
                };
            },
            Stage::ProbingImage => {
                c.stage = Stage::Copying;
            },
            Stage::Copying => {
                c.overlay = self.hold();
                c.stage = if self.save {
                    Stage::Recording
                } else {
                    Stage::Rooting
                };
            },
            Stage::Recording => {
                c.stage = if self.load {
                    Stage::ProbingToplevel
                } else {
                    Stage::Hashing
                };
            },
            Stage::Hashing => {
                c.stage = Stage::Rooting;
            },
            Stage::Rooting => {
                c.root = self.hold();
                c.stage = if self.detach {
                    Stage::Detaching
                } else {
                    Stage::StartingNet
                };
            },
            Stage::Detaching => {
                c.stage = Stage::StartingNet;
            },
            Stage::StartingNet => {
                c.net = true;
                c.stage = Stage::EnteringTty;
            },
            Stage::EnteringTty => {
                c.tty = true;
                c.stage = Stage::Running;
            },
            Stage::Running => {
                c = self.closing(Order::AfterRun);
            },
            Stage::StoppingNet => {
                c.net = false;
                c = c.closing(self.order);
            },
            Stage::RestoringTty => {
                c.tty = false;
                c = c.closing(self.order);
            },
            Stage::RemovingOverlay => {
                c.overlay = Hold::Absent;
                c = c.closing(self.order);
            },
            Stage::RemovingRoot => {
                c.root = Hold::Absent;
                c = c.closing(self.order);
            },
            Stage::Over => {},
        }
        c
    }

    /// Where the launch stands after a signal.
    pub fn next(self, signal: Signal) -> (c: Control)
        ensures
            c == next(self, signal),
    {
        match signal {
            Signal::Stepped => self,
            Signal::Went => self.went(),
            Signal::Failed => match self.stage {
                Stage::Running => self.closing(Order::AfterFailedRun),
                Stage::Detaching => self.closing(Order::AfterFailedDetach),
                _ => self.closing(Order::AfterRun),
            },
        }
    }
}

/// Where a launch stands after signals.
pub open spec fn after(start: Control, signals: Seq<Signal>) -> Control
    decreases signals.len(),
{
    if signals.len() == 0 {
        start
    } else {
        next(after(start, signals.drop_last()), signals.last())
    }
}

/// Whether a launch can give these signals, in their order.
pub open spec fn is_course(start: Control, signals: Seq<Signal>) -> bool
    decreases signals.len(),
{
    signals.len() == 0 || (is_course(start, signals.drop_last()) && can_give(
        after(start, signals.drop_last()).stage,
        signals.last(),
    ))
}

/// Whether this is a launch at its beginning.
pub open spec fn is_start(c: Control) -> bool {
    ||| c == run_control(c.save, c.detach)
    ||| c == load_control(c.with_flake, c.detach)
}

/// Whether what a launch holds fits where it stands.
pub open spec fn is_sound(c: Control) -> bool {
    &&& c.load ==> !c.save
    &&& !c.load ==> c.with_flake
    &&& c.overlay is Passing ==> hold_of(c) is Passing
    &&& c.root is Passing ==> hold_of(c) is Passing
    &&& match c.stage {
        Stage::Inspecting => c.load && c.overlay is Absent && c.root is Absent && !c.net && !c.tty,
        Stage::Realising => c.with_flake && c.root is Absent && !c.net && !c.tty && (if c.load {
            c.overlay is Kept
        } else {
            c.overlay is Absent
        }),
        Stage::ReadingSidecar => c.load && !c.with_flake && c.overlay is Kept && c.root is Absent
            && !c.net && !c.tty,
        Stage::ProbingToplevel => c.load && c.overlay is Kept && c.root is Absent && !c.net
            && !c.tty,
        Stage::ProbingClosure => c.load && c.overlay is Kept && c.root is Absent && !c.net
            && !c.tty,
        Stage::ReadingBoot => c.root is Absent && !c.net && !c.tty && (if c.load {
            c.overlay is Kept
        } else {
            c.overlay is Absent
        }),
        Stage::ProbingImage => c.save && c.overlay is Absent && c.root is Absent && !c.net
            && !c.tty,
        Stage::Copying => !c.load && c.overlay is Absent && c.root is Absent && !c.net && !c.tty,
        Stage::Recording => (c.load || c.save) && c.overlay is Kept && c.root is Absent && !c.net
            && !c.tty && (c.load ==> c.with_flake),
        Stage::Hashing => (c.load || c.save) && c.overlay is Kept && c.root is Absent && !c.net
            && !c.tty,
        Stage::Rooting => c.overlay == hold_of(c) && c.root is Absent && !c.net && !c.tty,
        Stage::Detaching => c.detach && c.overlay == hold_of(c) && c.root == hold_of(c) && !c.net
            && !c.tty,
        Stage::StartingNet => c.overlay == hold_of(c) && c.root == hold_of(c) && !c.net && !c.tty,
        Stage::EnteringTty => c.overlay == hold_of(c) && c.root == hold_of(c) && c.net && !c.tty,
        Stage::Running => c.overlay == hold_of(c) && c.root == hold_of(c) && c.net && c.tty,
        _ => c.stage == closing_stage(c) && (c.order is AfterFailedDetach ==> !c.net && !c.tty),
    }
}

proof fn lemma_sound(start: Control, signals: Seq<Signal>)
    requires
        is_start(start),
        is_course(start, signals),
    ensures
        is_sound(after(start, signals)),
    decreases signals.len(),
{
    if signals.len() > 0 {
        lemma_sound(start, signals.drop_last());
    }
}

/// The guest runs only while its image is there, its system is kept from being collected, its network
/// is up and the terminal is taken over.
pub proof fn law_guest_runs_with_everything_in_place(start: Control, signals: Seq<Signal>)
    requires
        is_start(start),
        is_course(start, signals),
        after(start, signals).stage is Running,
    ensures
        !(after(start, signals).overlay is Absent),
        !(after(start, signals).root is Absent),
        after(start, signals).net,
        after(start, signals).tty,
{
    lemma_sound(start, signals);
}

/// Whatever goes wrong, a launch that is over has stopped the network, given back the terminal, and
/// removed its copy of the image and its root where these go with it.
pub proof fn law_launch_leaves_nothing_behind(start: Control, signals: Seq<Signal>)
    requires
        is_start(start),
        is_course(start, signals),
        after(start, signals).stage is Over,
    ensures
        !after(start, signals).net,
        !after(start, signals).tty,
        !(after(start, signals).overlay is Passing),
        !(after(start, signals).root is Passing),
{
    lemma_sound(start, signals);
}

/// A launch gives back only what it holds: the network is stopped only where it runs, the terminal given
/// back only where it was taken over, and a file removed only where the launch made it for itself.
pub proof fn law_launch_gives_back_what_it_holds(start: Control, signals: Seq<Signal>)
    requires
        is_start(start),
        is_course(start, signals),
    ensures
        after(start, signals).stage is StoppingNet ==> after(start, signals).net,
        after(start, signals).stage is RestoringTty ==> after(start, signals).tty,
        after(start, signals).stage is RemovingOverlay ==> after(start, signals).overlay is Passing,
        after(start, signals).stage is RemovingRoot ==> after(start, signals).root is Passing,
{
    lemma_sound(start, signals);
}

/// An image that the user saved or loaded is never removed, nor is the root that keeps its system.
pub proof fn law_saved_images_stay(start: Control, signals: Seq<Signal>)
    requires
        is_start(start),
        is_course(start, signals),
        start.load || start.save,
    ensures
        !(after(start, signals).stage is RemovingOverlay),
        !(after(start, signals).stage is RemovingRoot),
{
    lemma_sound(start, signals);
    lemma_kept(start, signals);
}

/// What a launch was asked for stays, whatever the signal.
pub proof fn lemma_next_keeps(c: Control, signal: Signal)
    ensures
        next(c, signal).load == c.load,
        next(c, signal).save == c.save,
        next(c, signal).with_flake == c.with_flake,
        next(c, signal).detach == c.detach,
{
}

proof fn lemma_kept(start: Control, signals: Seq<Signal>)
    ensures
        after(start, signals).load == start.load,
        after(start, signals).save == start.save,
        after(start, signals).with_flake == start.with_flake,
        after(start, signals).detach == start.detach,
    decreases signals.len(),
{
    if signals.len() > 0 {
        lemma_kept(start, signals.drop_last());
    }
}

/// The image and the root are removed only when neither the network nor the terminal is held any more,
/// so that the guest is gone by then.
pub proof fn law_files_go_last(start: Control, signals: Seq<Signal>)
    requires
        is_start(start),
        is_course(start, signals),
        after(start, signals).stage is RemovingOverlay || after(start, signals).stage
            is RemovingRoot,
    ensures
        !after(start, signals).net,
        !after(start, signals).tty,
{
    lemma_sound(start, signals);
}

/// A launch that has begun to end never comes back to running the guest.
pub proof fn law_endings_are_final(start: Control, signals: Seq<Signal>, more: Seq<Signal>)
    requires
        is_course(start, signals + more),
        is_closing(after(start, signals).stage),
    ensures
        is_closing(after(start, signals + more).stage),
    decreases more.len(),
{
    if more.len() == 0 {
        assert(signals + more =~= signals);
    } else {
        assert((signals + more).drop_last() =~= signals + more.drop_last());
        law_endings_are_final(start, signals, more.drop_last());
    }
}

/// How far a launch is from its end at most, in signals that finish the work of a stage.
pub open spec fn distance(c: Control) -> nat {
    match c.stage {
        Stage::Inspecting => 20,
        Stage::Realising => 19,
        Stage::ReadingSidecar => 18,
        Stage::Recording => if c.load {
            18
        } else {
            12
        },
        Stage::ProbingToplevel => 17,
        Stage::ProbingClosure => 16,
        Stage::ReadingBoot => 15,
        Stage::ProbingImage => 14,
        Stage::Copying => 13,
        Stage::Hashing => 11,
        Stage::Rooting => 10,
        Stage::Detaching => 9,
        Stage::StartingNet => 8,
        Stage::EnteringTty => 7,
        Stage::Running => 6,
        Stage::Over => 0,
        _ => (1 + (if c.net {
            1int
        } else {
            0int
        }) + (if c.tty {
            1int
        } else {
            0int
        }) + (if c.overlay is Passing {
            1int
        } else {
            0int
        }) + (if c.root is Passing {
            1int
        } else {
            0int
        })) as nat,
    }
}

/// Every stage of a launch that is finished, whether its work was done or failed, brings the launch
/// closer to its end.
pub proof fn law_launches_come_to_an_end(start: Control, signals: Seq<Signal>, signal: Signal)
    requires
        is_start(start),
        is_course(start, signals.push(signal)),
        !(signal is Stepped),
    ensures
        distance(after(start, signals.push(signal))) < distance(after(start, signals)),
{
    assert(signals.push(signal).drop_last() =~= signals);
    lemma_sound(start, signals);
}

/// After the guest, the network is stopped first, then the terminal is given back, and only then is the
/// copy of the image removed, and the root last.
pub proof fn law_guest_is_followed_by_an_orderly_end(start: Control, signals: Seq<Signal>)
    requires
        is_start(start),
        is_course(start, signals),
        after(start, signals).stage is Running,
    ensures
        ({
            let first = went(after(start, signals));
            let second = went(first);
            let third = went(second);
            let fourth = went(third);
            &&& first.stage is StoppingNet
            &&& second.stage is RestoringTty
            &&& start.load || start.save ==> third.stage is Over
            &&& !start.load && !start.save ==> {
                &&& third.stage is RemovingOverlay
                &&& fourth.stage is RemovingRoot
                &&& went(fourth).stage is Over
            }
        }),
{
    lemma_sound(start, signals);
    lemma_kept(start, signals);
}

} // verus!
