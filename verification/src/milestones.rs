//! Laws on what has happened by the time that a launch comes to a certain point.

use crate::args::{LoadArgs, RunArgs};
use crate::boot;
use crate::boot::BootModel;
use crate::control;
use crate::control::{Control, Signal, Stage};
use crate::course;
use crate::course::{ActionModel, Event, LaunchModel};
use crate::gc_root;
use crate::host;
use crate::host::FileOp;
use crate::krun;
use crate::krun::KrunOp;
use crate::launch_id::LaunchId;
use crate::path;
use crate::saving;
use crate::session;
use crate::session::Session;
use crate::sidecar;
use crate::state;
use crate::vmnet::StartParams;
use vstd::prelude::*;

verus! {

/// The launch after the first `i` events.
pub open spec fn at(m: LaunchModel, events: Seq<Event>, i: int) -> LaunchModel {
    m.after(events.take(i))
}

/// Whether a launch asked for an action and was told of an event then.
pub open spec fn saw(m: LaunchModel, events: Seq<Event>, i: int, action: ActionModel, event: Event) -> bool {
    &&& 0 <= i < events.len()
    &&& at(m, events, i).action() == action
    &&& events[i] == event
}

/// Whether a launch asked for an action at some time and was told of an event then.
pub open spec fn seen(m: LaunchModel, events: Seq<Event>, action: ActionModel, event: Event) -> bool {
    exists|i: int| saw(m, events, i, action, event)
}

/// Whether a launch asked for an operation on files, and it succeeded.
pub open spec fn has_done(
    m: LaunchModel,
    events: Seq<Event>,
    op: FileOp<Seq<u8>, Seq<char>>,
) -> bool {
    seen(m, events, ActionModel::Perform(op), Event::Performed(None))
}

/// Whether a launch passes a stage on its way to the guest.
#[verifier::opaque]
spec fn required(c: Control, stage: Stage) -> bool {
    match stage {
        Stage::Inspecting => c.load,
        Stage::Realising => !c.load || c.with_flake,
        Stage::ReadingSidecar => c.load && !c.with_flake,
        Stage::ProbingToplevel => c.load,
        Stage::ProbingClosure => c.load,
        Stage::ReadingBoot => true,
        Stage::ProbingImage => c.save,
        Stage::Copying => !c.load,
        Stage::Recording => c.save || (c.load && c.with_flake),
        Stage::Hashing => c.load || c.save,
        Stage::Rooting => true,
        Stage::Detaching => c.detach,
        Stage::StartingNet => true,
        Stage::EnteringTty => true,
        _ => false,
    }
}

/// The place of a stage on the way to the guest.
#[verifier::opaque]
spec fn order(c: Control, stage: Stage) -> int {
    match stage {
        Stage::Inspecting => 0,
        Stage::Realising => 1,
        Stage::ReadingSidecar => 1,
        Stage::Recording => if c.load {
            2
        } else {
            8
        },
        Stage::ProbingToplevel => 3,
        Stage::ProbingClosure => 4,
        Stage::ReadingBoot => 5,
        Stage::ProbingImage => 6,
        Stage::Copying => 7,
        Stage::Hashing => 9,
        Stage::Rooting => 10,
        Stage::Detaching => 11,
        Stage::StartingNet => 12,
        Stage::EnteringTty => 13,
        Stage::Running => 14,
        _ => 15,
    }
}

// The following names keep definitions out of sight where only their place in a course matters.

#[verifier::opaque]
spec fn reached(m: LaunchModel, events: Seq<Event>) -> LaunchModel {
    m.after(events)
}

#[verifier::opaque]
spec fn moved(m: LaunchModel, event: Event) -> LaunchModel {
    m.step(event)
}

#[verifier::opaque]
spec fn moved_on(c: Control) -> Control {
    control::next(c, Signal::Went)
}

#[verifier::opaque]
spec fn is_valid(m: LaunchModel) -> bool {
    m.wf()
}

#[verifier::opaque]
spec fn is_open_to(m: LaunchModel, event: Event) -> bool {
    m.expects(event)
}

#[verifier::opaque]
spec fn is_course(m: LaunchModel, events: Seq<Event>) -> bool {
    m.is_course(events)
}

/// Whether two launches were asked for the same kind of thing.
spec fn is_alike(a: Control, b: Control) -> bool {
    &&& a.load == b.load
    &&& a.save == b.save
    &&& a.with_flake == b.with_flake
    &&& a.detach == b.detach
}

proof fn lemma_unfold(m: LaunchModel, events: Seq<Event>)
    requires
        events.len() > 0,
        is_course(m, events),
    ensures
        is_course(m, events.drop_last()),
        is_open_to(reached(m, events.drop_last()), events.last()),
        reached(m, events) == moved(reached(m, events.drop_last()), events.last()),
{
    reveal(is_course);
    reveal(is_open_to);
    reveal(reached);
    reveal(moved);
}

proof fn lemma_valid(m: LaunchModel, events: Seq<Event>)
    requires
        is_valid(m),
        is_course(m, events),
    ensures
        is_valid(reached(m, events)),
        is_alike(m.control, reached(m, events).control),
        course::is_same_launch(m, reached(m, events)),
{
    reveal(is_course);
    reveal(is_valid);
    reveal(reached);
    course::lemma_course(m, events);
}

proof fn lemma_start(m: LaunchModel, events: Seq<Event>)
    requires
        events.len() == 0,
    ensures
        reached(m, events) == m,
{
    reveal(reached);
}

/// An event leaves the control as it is, moves it on, or ends the launch.
proof fn lemma_moves(m: LaunchModel, event: Event)
    requires
        is_valid(m),
        is_open_to(m, event),
        moved(m, event).verdict is None,
    ensures
        m.verdict is None,
        moved(m, event).control == m.control || moved(m, event).control == moved_on(m.control),
        !control::is_closing(moved(m, event).control.stage),
{
    reveal(is_valid);
    reveal(is_open_to);
    reveal(moved);
    reveal(moved_on);
    course::lemma_step_keeps_wf(m, event);
}

/// What moving on does to the place on the way to the guest.
proof fn lemma_order_step(asked: Control, m: LaunchModel, x: Stage)
    requires
        is_valid(m),
        is_alike(asked, m.control),
        !control::is_closing(moved_on(m.control).stage),
    ensures
        ({
            let here = m.control.stage;
            let there = moved_on(m.control).stage;
            &&& here != there
            &&& order(asked, here) < order(asked, there)
            &&& required(asked, here)
            &&& required(asked, x) && order(asked, x) < order(asked, there) ==> x == here || order(
                asked,
                x,
            ) < order(asked, here)
        }),
{
    reveal(is_valid);
    reveal(moved_on);
    reveal(order);
    reveal(required);
}

/// Whether the work of a stage was done at the event `i`.
spec fn finished(m: LaunchModel, events: Seq<Event>, i: int, stage: Stage) -> bool {
    &&& 0 <= i < events.len()
    &&& reached(m, events.take(i)).control.stage == stage
    &&& reached(m, events.take(i + 1)).control == moved_on(reached(m, events.take(i)).control)
    &&& reached(m, events.take(i + 1)).verdict is None
}

spec fn has_finished(m: LaunchModel, events: Seq<Event>, stage: Stage) -> bool {
    exists|i: int| finished(m, events, i, stage)
}

proof fn lemma_finished_prefix(m: LaunchModel, events: Seq<Event>, i: int, stage: Stage)
    requires
        0 <= i < events.len() - 1,
    ensures
        finished(m, events.drop_last(), i, stage) <==> finished(m, events, i, stage),
{
    let front = events.drop_last();
    assert(front.take(i) =~= events.take(i));
    assert(front.take(i + 1) =~= events.take(i + 1));
}

/// A launch on its way to the guest has passed exactly those stages that it has to pass and that lie
/// behind it.
proof fn lemma_passed(m: LaunchModel, events: Seq<Event>, x: Stage)
    requires
        is_valid(m),
        is_course(m, events),
        order(m.control, m.control.stage) <= 1,
        required(m.control, x) ==> order(m.control, m.control.stage) <= order(m.control, x),
        reached(m, events).verdict is None,
    ensures
        has_finished(m, events, x) <==> required(m.control, x) && order(m.control, x) < order(
            m.control,
            reached(m, events).control.stage,
        ),
    decreases events.len(),
{
    if events.len() == 0 {
        lemma_start(m, events);
        assert(!has_finished(m, events, x));
    } else {
        let front = events.drop_last();
        let before = reached(m, front);
        let after = reached(m, events);
        let k = events.len() - 1;
        lemma_unfold(m, events);
        lemma_valid(m, front);
        lemma_moves(before, events.last());
        lemma_passed(m, front, x);
        assert(events.take(k) =~= front);
        assert(events.take(k + 1) =~= events);
        if has_finished(m, front, x) {
            let i = choose|i: int| finished(m, front, i, x);
            lemma_finished_prefix(m, events, i, x);
        }
        if after.control == moved_on(before.control) {
            lemma_order_step(m.control, before, x);
            if x == before.control.stage {
                assert(finished(m, events, k, x));
            }
        }
        if has_finished(m, events, x) {
            let i = choose|i: int| finished(m, events, i, x);
            if i < k {
                lemma_finished_prefix(m, events, i, x);
            } else {
                assert(x == before.control.stage);
            }
        }
    }
}

proof fn lemma_prefix(m: LaunchModel, events: Seq<Event>, i: int)
    requires
        is_valid(m),
        is_course(m, events),
        0 <= i < events.len(),
    ensures
        is_course(m, events.take(i)),
        is_valid(reached(m, events.take(i))),
        is_alike(m.control, reached(m, events.take(i)).control),
        is_open_to(reached(m, events.take(i)), events[i]),
        reached(m, events.take(i + 1)) == moved(reached(m, events.take(i)), events[i]),
    decreases events.len(),
{
    let front = events.drop_last();
    lemma_unfold(m, events);
    if i == events.len() - 1 {
        assert(events.take(i) =~= front);
        assert(events.take(i + 1) =~= events);
        lemma_valid(m, front);
    } else {
        lemma_prefix(m, front, i);
        assert(front.take(i) =~= events.take(i));
        assert(front.take(i + 1) =~= events.take(i + 1));
    }
}

/// A stage that lies behind a launch was finished by an event that came when the launch stood there.
proof fn lemma_milestone(m: LaunchModel, events: Seq<Event>, x: Stage) -> (i: int)
    requires
        saving::is_fresh(m),
        m.is_course(events),
        m.after(events).verdict is None,
        required(m.control, x),
        order(m.control, x) < order(m.control, m.after(events).control.stage),
    ensures
        0 <= i < events.len(),
        m.is_course(events.take(i)),
        at(m, events, i).wf(),
        at(m, events, i).control.stage == x,
        at(m, events, i).expects(events[i]),
        at(m, events, i + 1) == at(m, events, i).step(events[i]),
        at(m, events, i).step(events[i]).verdict is None,
        at(m, events, i).step(events[i]).control == control::next(
            at(m, events, i).control,
            Signal::Went,
        ),
        course::is_same_launch(m, at(m, events, i)),
{
    lemma_fresh(m, x);
    assert(is_valid(m) && is_course(m, events) && reached(m, events) == m.after(events)) by {
        reveal(is_valid);
        reveal(is_course);
        reveal(reached);
    }
    lemma_passed(m, events, x);
    let i = choose|i: int| finished(m, events, i, x);
    lemma_prefix(m, events, i);
    lemma_revealed(m, events, i, x);
    i
}

proof fn lemma_revealed(m: LaunchModel, events: Seq<Event>, i: int, x: Stage)
    requires
        m.wf(),
        is_course(m, events.take(i)),
        is_open_to(reached(m, events.take(i)), events[i]),
        reached(m, events.take(i + 1)) == moved(reached(m, events.take(i)), events[i]),
        finished(m, events, i, x),
    ensures
        m.is_course(events.take(i)),
        at(m, events, i).wf(),
        at(m, events, i).control.stage == x,
        at(m, events, i).expects(events[i]),
        at(m, events, i + 1) == at(m, events, i).step(events[i]),
        at(m, events, i).step(events[i]).verdict is None,
        at(m, events, i).step(events[i]).control == control::next(
            at(m, events, i).control,
            Signal::Went,
        ),
        course::is_same_launch(m, at(m, events, i)),
{
    reveal(is_course);
    reveal(is_open_to);
    reveal(reached);
    reveal(moved);
    reveal(moved_on);
    course::lemma_course(m, events.take(i));
}

proof fn lemma_fresh(m: LaunchModel, x: Stage)
    requires
        saving::is_fresh(m),
    ensures
        order(m.control, m.control.stage) <= 1,
        required(m.control, x) ==> order(m.control, m.control.stage) <= order(m.control, x),
{
    reveal(order);
    reveal(required);
}

/// A launch that was asked to detach comes to starting the network, to taking over the terminal or to
/// running the guest only after it has asked for detaching and was told that this succeeded.  A launch
/// that was not asked for that never asks for it.
#[verifier::rlimit(40)]
pub proof fn law_launches_detach_as_they_were_asked_to(m: LaunchModel, events: Seq<Event>)
    requires
        saving::is_fresh(m),
        m.is_course(events),
    ensures
        ({
            let action = m.after(events).action();
            &&& m.control.detach && (action is StartNet || action is EnterTty || action is RunGuest)
                ==> seen(m, events, ActionModel::Detach, Event::Detached(None))
            &&& !m.control.detach ==> !(action is Detach)
        }),
{
    let n = m.after(events);
    course::lemma_course(m, events);
    if m.control.detach && (n.action() is StartNet || n.action() is EnterTty || n.action()
        is RunGuest) {
        lemma_place(m, n.control.stage);
        lemma_place(m, Stage::Detaching);
        let i = lemma_milestone(m, events, Stage::Detaching);
        lemma_detached(at(m, events, i), events[i]);
        assert(saw(m, events, i, ActionModel::Detach, Event::Detached(None)));
    }
}

proof fn lemma_place(m: LaunchModel, x: Stage)
    ensures
        x is Detaching ==> order(m.control, x) == 11 && required(m.control, x) == m.control.detach,
        x is StartingNet || x is EnteringTty || x is Running ==> order(m.control, x) > 11,
{
    reveal(order);
    reveal(required);
}

proof fn lemma_detached(m: LaunchModel, event: Event)
    requires
        m.wf(),
        m.expects(event),
        m.control.stage is Detaching,
        m.step(event).verdict is None,
    ensures
        event == Event::Detached(None),
{
}

// What happens in a stage that is a plan.

/// Whether a step of a plan has been carried out, as far as it matters: it succeeded, or its failure is of
/// no account.
pub open spec fn is_settled(m: LaunchModel, events: Seq<Event>, step: host::FileStep) -> bool {
    step.1 is Ignore || has_done(m, events, step.0)
}

spec fn is_under_way(m: LaunchModel, events: Seq<Event>, n: LaunchModel) -> bool {
    forall|j: int|
        0 <= j < n.plan->0.next ==> is_settled(m, events, #[trigger] n.plan->0.steps[j])
}

proof fn lemma_plan_step(m: LaunchModel, event: Event)
    requires
        is_valid(m),
        is_open_to(m, event),
        moved(m, event).verdict is None,
    ensures
        control::is_planned(m.control.stage) ==> {
            &&& event matches Event::Performed(failure) && (failure is None || m.plan->0.steps[
                m.plan->0.next
            ].1 is Ignore)
            &&& m.action() == ActionModel::Perform(m.plan->0.steps[m.plan->0.next].0)
            &&& 0 <= m.plan->0.next < m.plan->0.steps.len()
            &&& moved(m, event).control == m.control ==> moved(m, event).plan->0.steps
                == m.plan->0.steps && moved(m, event).plan->0.next == m.plan->0.next + 1
            &&& moved(m, event).control != m.control ==> m.plan->0.next + 1
                == m.plan->0.steps.len()
        },
        control::is_planned(moved(m, event).control.stage) && moved(m, event).control != m.control
            ==> moved(m, event).plan->0.next == 0,
        !control::is_planned(m.control.stage) && moved(m, event).control == m.control
            ==> !control::is_planned(moved(m, event).control.stage),
{
    reveal(is_valid);
    reveal(is_open_to);
    reveal(moved);
    course::lemma_step_keeps_wf(m, event);
}

proof fn lemma_settled_later(m: LaunchModel, events: Seq<Event>, step: host::FileStep)
    requires
        events.len() > 0,
        is_settled(m, events.drop_last(), step),
    ensures
        is_settled(m, events, step),
{
    if !(step.1 is Ignore) {
        lemma_saw_later(m, events, ActionModel::Perform(step.0), Event::Performed(None));
    }
}

proof fn lemma_saw_later(m: LaunchModel, events: Seq<Event>, action: ActionModel, event: Event)
    requires
        events.len() > 0,
        seen(m, events.drop_last(), action, event),
    ensures
        seen(m, events, action, event),
{
    let front = events.drop_last();
    let i = choose|i: int| saw(m, front, i, action, event);
    assert(front.take(i) =~= events.take(i));
    assert(saw(m, events, i, action, event));
}

/// The current operation of a plan is settled by the event that answers it.
proof fn lemma_settles(m: LaunchModel, events: Seq<Event>, n: LaunchModel)
    requires
        events.len() > 0,
        n == reached(m, events.drop_last()),
        n.action() == ActionModel::Perform(n.plan->0.steps[n.plan->0.next].0),
        events.last() matches Event::Performed(failure) && (failure is None || n.plan->0.steps[
            n.plan->0.next
        ].1 is Ignore),
    ensures
        is_settled(m, events, n.plan->0.steps[n.plan->0.next]),
{
    let k = events.len() - 1;
    let step = n.plan->0.steps[n.plan->0.next];
    lemma_reached_is_after(m, events.drop_last());
    assert(events.take(k) =~= events.drop_last());
    if !(step.1 is Ignore) {
        assert(saw(m, events, k, ActionModel::Perform(step.0), Event::Performed(None)));
    }
}

proof fn lemma_reached_is_after(m: LaunchModel, events: Seq<Event>)
    ensures
        reached(m, events) == m.after(events),
{
    reveal(reached);
}

proof fn lemma_under_way(m: LaunchModel, events: Seq<Event>)
    requires
        is_valid(m),
        is_course(m, events),
        !control::is_planned(m.control.stage),
        reached(m, events).verdict is None,
        control::is_planned(reached(m, events).control.stage),
    ensures
        is_under_way(m, events, reached(m, events)),
    decreases events.len(),
{
    if events.len() == 0 {
        lemma_start(m, events);
    } else {
        let front = events.drop_last();
        let before = reached(m, front);
        let after = reached(m, events);
        lemma_unfold(m, events);
        lemma_valid(m, front);
        lemma_moves(before, events.last());
        lemma_plan_step(before, events.last());
        if after.control == before.control {
            lemma_under_way(m, front);
            lemma_settles(m, events, before);
            assert forall|j: int| 0 <= j < after.plan->0.next implies is_settled(
                m,
                events,
                #[trigger] after.plan->0.steps[j],
            ) by {
                if j < before.plan->0.next {
                    assert(is_settled(m, front, before.plan->0.steps[j]));
                    lemma_settled_later(m, events, before.plan->0.steps[j]);
                }
            }
        }
    }
}

/// A plan that was finished by the last event has been carried out.
proof fn lemma_plan_done(m: LaunchModel, events: Seq<Event>, n: LaunchModel, j: int)
    requires
        is_valid(m),
        is_course(m, events),
        events.len() > 0,
        n == reached(m, events.drop_last()),
        !control::is_planned(m.control.stage),
        control::is_planned(n.control.stage),
        reached(m, events).verdict is None,
        reached(m, events).control != n.control,
        0 <= j < n.plan->0.steps.len(),
    ensures
        is_settled(m, events, n.plan->0.steps[j]),
{
    let front = events.drop_last();
    lemma_unfold(m, events);
    lemma_valid(m, front);
    lemma_moves(n, events.last());
    lemma_under_way(m, front);
    lemma_plan_step(n, events.last());
    let step = n.plan->0.steps[j];
    if j < n.plan->0.next {
        assert(is_settled(m, front, step));
        lemma_settled_later(m, events, step);
    } else {
        lemma_settles(m, events, n);
    }
}

proof fn lemma_settled_from(m: LaunchModel, events: Seq<Event>, k: int, step: host::FileStep)
    requires
        0 <= k <= events.len(),
        is_settled(m, events.take(k), step),
    ensures
        is_settled(m, events, step),
{
    if !(step.1 is Ignore) {
        let action = ActionModel::Perform(step.0);
        let event = Event::Performed(None);
        let i = choose|i: int| saw(m, events.take(k), i, action, event);
        assert(events.take(k).take(i) =~= events.take(i));
        assert(saw(m, events, i, action, event));
    }
}

// What a launch keeps once it has it.

proof fn lemma_keeps(m: LaunchModel, event: Event)
    requires
        is_valid(m),
        is_open_to(m, event),
        moved(m, event).verdict is None,
    ensures
        saving::is_past_finding(m.control) ==> saving::is_past_finding(moved(m, event).control)
            && moved(m, event).system == m.system,
        course::has_boot(m.control) ==> course::has_boot(moved(m, event).control) && moved(
            m,
            event,
        ).boot == m.boot,
        m.control.stage is EnteringTty || m.control.stage is Running ==> (moved(
            m,
            event,
        ).control.stage is EnteringTty || moved(m, event).control.stage is Running) && moved(
            m,
            event,
        ).params == m.params,
        m.control.stage is Rooting ==> (m.root == moved(m, event).root),
{
    reveal(is_valid);
    reveal(is_open_to);
    reveal(moved);
}

proof fn lemma_kept(m: LaunchModel, events: Seq<Event>, i: int)
    requires
        is_valid(m),
        is_course(m, events),
        0 <= i <= events.len(),
        reached(m, events).verdict is None,
    ensures
        reached(m, events.take(i)).verdict is None,
        saving::is_past_finding(reached(m, events.take(i)).control) ==> saving::is_past_finding(
            reached(m, events).control,
        ) && reached(m, events).system == reached(m, events.take(i)).system,
        course::has_boot(reached(m, events.take(i)).control) ==> course::has_boot(
            reached(m, events).control,
        ) && reached(m, events).boot == reached(m, events.take(i)).boot,
        reached(m, events.take(i)).control.stage is EnteringTty ==> (reached(
            m,
            events,
        ).control.stage is EnteringTty || reached(m, events).control.stage is Running) && reached(
            m,
            events,
        ).params == reached(m, events.take(i)).params,
    decreases events.len(),
{
    if i == events.len() {
        assert(events.take(i) =~= events);
    } else {
        let front = events.drop_last();
        lemma_unfold(m, events);
        lemma_valid(m, front);
        lemma_moves(reached(m, front), events.last());
        lemma_keeps(reached(m, front), events.last());
        lemma_kept(m, front, i);
        assert(front.take(i) =~= events.take(i));
    }
}

// The milestones, one by one.

/// Whether a launch is at its beginning.
spec fn is_begun(m: LaunchModel) -> bool {
    &&& is_valid(m)
    &&& !control::is_planned(m.control.stage)
    &&& order(m.control, m.control.stage) <= 1
    &&& forall|x: Stage| #[trigger]
        required(m.control, x) ==> order(m.control, m.control.stage) <= order(m.control, x)
}

proof fn lemma_begun(m: LaunchModel)
    requires
        saving::is_fresh(m),
    ensures
        is_begun(m),
{
    reveal(is_valid);
    reveal(order);
    reveal(required);
}

/// Whether a launch is on its way, and a stage lies behind it.
spec fn is_behind(m: LaunchModel, events: Seq<Event>, x: Stage) -> bool {
    &&& is_begun(m)
    &&& is_course(m, events)
    &&& reached(m, events).verdict is None
    &&& required(m.control, x)
    &&& order(m.control, x) < order(m.control, reached(m, events).control.stage)
}

/// Whether `n` is where a launch stood when the event `i` finished the stage `x`.
spec fn is_finishing(m: LaunchModel, events: Seq<Event>, i: int, n: LaunchModel, x: Stage) -> bool {
    &&& 0 <= i < events.len()
    &&& n == reached(m, events.take(i))
    &&& is_valid(n)
    &&& is_open_to(n, events[i])
    &&& n.control.stage == x
    &&& reached(m, events.take(i + 1)) == moved(n, events[i])
    &&& moved(n, events[i]).verdict is None
    &&& moved(n, events[i]).control == moved_on(n.control)
    &&& course::is_same_launch(m, n)
}

proof fn lemma_done(m: LaunchModel, events: Seq<Event>, x: Stage) -> (i: int)
    requires
        is_behind(m, events, x),
    ensures
        is_finishing(m, events, i, reached(m, events.take(i)), x),
{
    lemma_passed(m, events, x);
    let i = choose|i: int| finished(m, events, i, x);
    lemma_prefix(m, events, i);
    lemma_valid(m, events.take(i));
    i
}

proof fn lemma_saw(m: LaunchModel, events: Seq<Event>, i: int, n: LaunchModel, x: Stage)
    requires
        is_finishing(m, events, i, n, x),
    ensures
        seen(m, events, n.action(), events[i]),
{
    lemma_reached_is_after(m, events.take(i));
    assert(saw(m, events, i, n.action(), events[i]));
}

/// What was there when a stage was finished is still there.
proof fn lemma_since(m: LaunchModel, events: Seq<Event>, i: int, n: LaunchModel, x: Stage)
    requires
        is_behind(m, events, x),
        is_finishing(m, events, i, n, x),
    ensures
        saving::is_past_finding(moved(n, events[i]).control) ==> reached(m, events).system == moved(
            n,
            events[i],
        ).system,
        course::has_boot(moved(n, events[i]).control) ==> reached(m, events).boot == moved(
            n,
            events[i],
        ).boot,
        moved(n, events[i]).control.stage is EnteringTty ==> reached(m, events).params == moved(
            n,
            events[i],
        ).params,
{
    lemma_kept(m, events, i + 1);
}

proof fn lemma_finding(n: LaunchModel, event: Event)
    requires
        is_valid(n),
        is_open_to(n, event),
        moved(n, event).verdict is None,
        moved(n, event).control == moved_on(n.control),
    ensures
        n.control.stage is Inspecting ==> n.action() == ActionModel::Inspect(n.image) && (
        event matches Event::Inspected(Some(Ok(mode))) && mode & 0o200 != 0),
        n.control.stage is Realising ==> n.action() is Realise && moved(n, event).system is Some
            && event == Event::Realised(Ok(moved(n, event).system->0)) && saving::is_past_finding(
            moved(n, event).control,
        ),
        n.control.stage is ReadingSidecar ==> n.action() == ActionModel::ReadText(
            sidecar::sidecar_of(n.image),
        ) && (event matches Event::SidecarRead(Ok(body)) && sidecar::recorded_for(n.image, Ok(body))
            == Ok::<(Seq<char>, Seq<char>), Seq<char>>(
            (moved(n, event).system->0.toplevel, moved(n, event).system->0.closure_info),
        )) && moved(n, event).system is Some && saving::is_past_finding(moved(n, event).control),
        n.control.stage is ProbingToplevel ==> n.action() == ActionModel::Probe(
            path::utf8(moved(n, event).system->0.toplevel),
        ) && event == Event::Probed(true) && saving::is_past_finding(moved(n, event).control),
        n.control.stage is ProbingClosure ==> n.action() == ActionModel::Probe(
            path::utf8(moved(n, event).system->0.closure_info),
        ) && event == Event::Probed(true) && saving::is_past_finding(moved(n, event).control),
{
    reveal(is_valid);
    reveal(is_open_to);
    reveal(moved);
    reveal(moved_on);
}

/// The system that is booted from a directory was read from there.
pub open spec fn boots_from(
    m: LaunchModel,
    events: Seq<Event>,
    toplevel: Seq<char>,
    closure_info: Seq<char>,
    boot: BootModel,
) -> bool {
    exists|params: Seq<char>, term: Option<Seq<char>>| #[trigger]
        boots_with(m, events, toplevel, closure_info, boot, params, term)
}

/// What a launch boots was read from its system, with these parameters and on a host with this terminal.
pub open spec fn boots_with(
    m: LaunchModel,
    events: Seq<Event>,
    toplevel: Seq<char>,
    closure_info: Seq<char>,
    boot: BootModel,
    params: Seq<char>,
    term: Option<Seq<char>>,
) -> bool {
    let dir = path::utf8(toplevel);
    &&& boot.cmdline == boot::cmdline(toplevel, closure_info, params, term)
    &&& seen(
        m,
        events,
        ActionModel::ReadBoot {
            kernel: path::join(dir, path::utf8("kernel"@)),
            initrd: path::join(dir, path::utf8("initrd"@)),
            params: path::join(dir, path::utf8("kernel-params"@)),
        },
        Event::BootRead {
            kernel: Ok(boot.kernel),
            initrd: Ok(boot.initrd),
            params: Ok(params),
            term,
        },
    )
}

proof fn lemma_booting(n: LaunchModel, event: Event)
    requires
        is_valid(n),
        is_open_to(n, event),
        moved(n, event).verdict is None,
        moved(n, event).control == moved_on(n.control),
        n.control.stage is ReadingBoot,
    ensures
        ({
            let dir = path::utf8(n.system->0.toplevel);
            let boot = moved(n, event).boot->0;
            &&& n.action() == ActionModel::ReadBoot {
                kernel: path::join(dir, path::utf8("kernel"@)),
                initrd: path::join(dir, path::utf8("initrd"@)),
                params: path::join(dir, path::utf8("kernel-params"@)),
            }
            &&& event is BootRead
            &&& event->kernel == Ok::<Seq<u8>, Seq<char>>(boot.kernel)
            &&& event->initrd == Ok::<Seq<u8>, Seq<char>>(boot.initrd)
            &&& event->BootRead_params is Ok
            &&& boot.cmdline == boot::cmdline(
                n.system->0.toplevel,
                n.system->0.closure_info,
                event->BootRead_params->Ok_0,
                event->term,
            )
            &&& moved(n, event).boot is Some
            &&& moved(n, event).system == n.system
            &&& course::has_boot(moved(n, event).control)
            &&& saving::is_past_finding(moved(n, event).control)
        }),
{
    reveal(is_valid);
    reveal(is_open_to);
    reveal(moved);
    reveal(moved_on);
}

proof fn lemma_boots(m: LaunchModel, events: Seq<Event>)
    requires
        is_behind(m, events, Stage::ReadingBoot),
    ensures
        ({
            let n = reached(m, events);
            boots_from(m, events, n.system->0.toplevel, n.system->0.closure_info, n.boot->0)
        }),
{
    let i = lemma_done(m, events, Stage::ReadingBoot);
    let n = reached(m, events.take(i));
    lemma_booting(n, events[i]);
    lemma_saw(m, events, i, n, Stage::ReadingBoot);
    lemma_since(m, events, i, n, Stage::ReadingBoot);
    let end = reached(m, events);
    assert(boots_with(
        m,
        events,
        end.system->0.toplevel,
        end.system->0.closure_info,
        end.boot->0,
        events[i]->BootRead_params->Ok_0,
        events[i]->term,
    ));
}

/// Whether a launch that saves its image looked at the place for it, and copies over what it found there.
spec fn copies_over(m: LaunchModel, events: Seq<Event>, n: LaunchModel, occupied: bool) -> bool {
    &&& seen(m, events, ActionModel::Probe(m.image), Event::ImageProbed(occupied))
    &&& n.plan->0.steps == n.copying(occupied)
    &&& occupied ==> n.force
}

proof fn lemma_copy_step(n: LaunchModel, event: Event)
    requires
        is_valid(n),
        is_open_to(n, event),
        moved(n, event).verdict is None,
        moved(n, event).control.stage is Copying,
    ensures
        n.control.stage is Copying ==> moved(n, event).plan->0.steps == n.plan->0.steps && moved(
            n,
            event,
        ).copying(true) == n.copying(true) && moved(n, event).copying(false) == n.copying(false),
        n.control.stage is Copying || n.control.stage is ProbingImage || n.control.stage
            is ReadingBoot,
        n.control.stage is ReadingBoot ==> !n.control.save,
        n.control.stage is ProbingImage ==> {
            &&& n.action() == ActionModel::Probe(n.image)
            &&& event matches Event::ImageProbed(occupied) && (occupied ==> n.force) && moved(
                n,
                event,
            ).plan->0.steps == moved(n, event).copying(occupied)
        },
        moved(n, event).force == n.force,
{
    reveal(is_valid);
    reveal(is_open_to);
    reveal(moved);
}

proof fn lemma_copies(m: LaunchModel, events: Seq<Event>) -> (occupied: bool)
    requires
        is_begun(m),
        is_course(m, events),
        m.control.save,
        reached(m, events).verdict is None,
        reached(m, events).control.stage is Copying,
    ensures
        copies_over(m, events, reached(m, events), occupied),
    decreases events.len(),
{
    if events.len() == 0 {
        lemma_start(m, events);
        true
    } else {
        let front = events.drop_last();
        let before = reached(m, front);
        let event = events.last();
        let k = events.len() - 1;
        lemma_unfold(m, events);
        lemma_valid(m, front);
        lemma_moves(before, event);
        lemma_copy_step(before, event);
        if before.control.stage is Copying {
            let occupied = lemma_copies(m, front);
            lemma_saw_later(
                m,
                events,
                ActionModel::Probe(m.image),
                Event::ImageProbed(occupied),
            );
            occupied
        } else {
            let occupied = event->ImageProbed_0;
            assert(events.take(k) =~= front);
            lemma_reached_is_after(m, front);
            assert(saw(m, events, k, ActionModel::Probe(m.image), Event::ImageProbed(occupied)));
            occupied
        }
    }
}

proof fn lemma_seen_from(m: LaunchModel, events: Seq<Event>, k: int, action: ActionModel, event: Event)
    requires
        0 <= k <= events.len(),
        seen(m, events.take(k), action, event),
    ensures
        seen(m, events, action, event),
{
    let i = choose|i: int| saw(m, events.take(k), i, action, event);
    assert(events.take(k).take(i) =~= events.take(i));
    assert(saw(m, events, i, action, event));
}

/// Every step of the plan of a stage that lies behind a launch has been carried out.
proof fn lemma_all_settled(m: LaunchModel, events: Seq<Event>, i: int, n: LaunchModel, x: Stage, j: int)
    requires
        is_behind(m, events, x),
        is_finishing(m, events, i, n, x),
        control::is_planned(x),
        0 <= j < n.plan->0.steps.len(),
    ensures
        is_settled(m, events, n.plan->0.steps[j]),
{
    let upto = events.take(i + 1);
    assert(upto.drop_last() =~= events.take(i));
    assert(is_course(m, upto)) by {
        if i + 1 < events.len() {
            lemma_prefix(m, events, i + 1);
        } else {
            assert(upto =~= events);
        }
    }
    lemma_went_elsewhere(n);
    lemma_plan_done(m, upto, n, j);
    lemma_settled_from(m, events, i + 1, n.plan->0.steps[j]);
}

proof fn lemma_went_elsewhere(n: LaunchModel)
    requires
        is_valid(n),
        control::is_planned(n.control.stage),
    ensures
        moved_on(n.control) != n.control,
{
    reveal(moved_on);
}

/// Whether a launch has made a writable copy of its system's image at `image`.
pub open spec fn has_copied(m: LaunchModel, events: Seq<Event>, from: Seq<char>, image: Seq<u8>) -> bool {
    &&& has_done(m, events, FileOp::CopyFile { from: path::utf8(from), to: image })
    &&& has_done(m, events, FileOp::SetMode { of: image, mode: 0o600 })
}

/// The steps that make a copy are among those of the plan, behind those that clear the place.
proof fn lemma_copying_steps(n: LaunchModel, occupied: bool)
    ensures
        ({
            let steps = n.copying(occupied);
            let k = if occupied {
                2int
            } else {
                0int
            };
            &&& steps.len() == k + 3
            &&& steps[k].0 == (FileOp::<Seq<u8>, Seq<char>>::CopyFile {
                from: path::utf8(n.system->0.image_file),
                to: n.image,
            })
            &&& !(steps[k].1 is Ignore)
            &&& steps[k + 2].0 == (FileOp::<Seq<u8>, Seq<char>>::SetMode {
                of: n.image,
                mode: 0o600,
            })
            &&& !(steps[k + 2].1 is Ignore)
            &&& occupied ==> steps[0].0 == FileOp::<Seq<u8>, Seq<char>>::RemoveFile(n.image) && !(
            steps[0].1 is Ignore)
        }),
{
}

proof fn lemma_planned_stage(n: LaunchModel)
    requires
        is_valid(n),
        control::is_planned(n.control.stage),
    ensures
        n.control.stage is Copying ==> n.plan->0.steps == n.copying(false) || (n.control.save
            && n.plan->0.steps == n.copying(true)),
        n.control.stage is Recording ==> n.plan->0.steps == sidecar::sidecar_steps(
            n.image,
            n.system->0.toplevel,
            n.system->0.closure_info,
        ),
        n.control.stage is Rooting ==> n.plan->0.steps == gc_root::root_steps(
            n.system->0.closure_info,
            n.root->0.dir,
        ),
        saving::is_past_finding(n.control),
{
    reveal(is_valid);
}

/// A launch that makes an image has copied it before it goes on; where it saves the image, it has looked
/// at the place before, and cleared it if the user wanted that.
proof fn lemma_copied(m: LaunchModel, events: Seq<Event>)
    requires
        is_behind(m, events, Stage::Copying),
    ensures
        has_copied(m, events, reached(m, events).system->0.image_file, m.image),
        m.control.save ==> {
            ||| seen(m, events, ActionModel::Probe(m.image), Event::ImageProbed(false))
            ||| m.force && has_done(m, events, FileOp::RemoveFile(m.image)) && seen(
                m,
                events,
                ActionModel::Probe(m.image),
                Event::ImageProbed(true),
            )
        },
{
    let x = Stage::Copying;
    let i = lemma_done(m, events, x);
    let n = reached(m, events.take(i));
    lemma_planned_stage(n);
    lemma_keeps(n, events[i]);
    lemma_since(m, events, i, n, x);
    lemma_prefix(m, events, i);
    lemma_moves(n, events[i]);
    let occupied = if m.control.save {
        let occupied = lemma_copies(m, events.take(i));
        lemma_seen_from(
            m,
            events,
            i,
            ActionModel::Probe(m.image),
            Event::ImageProbed(occupied),
        );
        occupied
    } else {
        false
    };
    let k = if occupied {
        2int
    } else {
        0int
    };
    lemma_copying_steps(n, occupied);
    assert(n.plan->0.steps == n.copying(occupied));
    lemma_all_settled(m, events, i, n, x, k);
    lemma_all_settled(m, events, i, n, x, k + 2);
    lemma_all_settled(m, events, i, n, x, 0);
}

proof fn lemma_recorded(m: LaunchModel, events: Seq<Event>)
    requires
        is_behind(m, events, Stage::Recording),
    ensures
        has_done(
            m,
            events,
            FileOp::WriteText {
                to: sidecar::sidecar_of(m.image),
                text: saving::body_of(reached(m, events).system->0),
            },
        ),
{
    let x = Stage::Recording;
    let i = lemma_done(m, events, x);
    let n = reached(m, events.take(i));
    lemma_planned_stage(n);
    lemma_keeps(n, events[i]);
    lemma_since(m, events, i, n, x);
    lemma_all_settled(m, events, i, n, x, 0);
}

/// Whether a launch has had the system registered in `closure_info` kept by a link in `dir`.
pub open spec fn has_rooted(
    m: LaunchModel,
    events: Seq<Event>,
    closure_info: Seq<char>,
    dir: Seq<u8>,
) -> bool {
    &&& has_done(m, events, FileOp::MakeDirs(dir))
    &&& has_done(
        m,
        events,
        FileOp::AddRoot {
            closure_info: path::utf8(closure_info),
            link: path::join(dir, path::utf8("closure-info"@)),
        },
    )
}

proof fn lemma_rooted(m: LaunchModel, events: Seq<Event>) -> (dir: Seq<u8>)
    requires
        is_behind(m, events, Stage::Rooting),
    ensures
        has_rooted(m, events, reached(m, events).system->0.closure_info, dir),
        is_root(m, events, dir),
{
    let x = Stage::Rooting;
    let i = lemma_done(m, events, x);
    let n = reached(m, events.take(i));
    lemma_rooted_at(m, events, i, n);
    lemma_prefix(m, events, i);
    lemma_moves(n, events[i]);
    lemma_roots(m, events.take(i));
    lemma_root_from(m, events, i, n.root->0.dir);
    n.root->0.dir
}

proof fn lemma_rooted_at(m: LaunchModel, events: Seq<Event>, i: int, n: LaunchModel)
    requires
        is_behind(m, events, Stage::Rooting),
        is_finishing(m, events, i, n, Stage::Rooting),
    ensures
        has_rooted(m, events, reached(m, events).system->0.closure_info, n.root->0.dir),
{
    let x = Stage::Rooting;
    lemma_planned_stage(n);
    lemma_keeps(n, events[i]);
    lemma_since(m, events, i, n, x);
    lemma_all_settled(m, events, i, n, x, 0);
    lemma_all_settled(m, events, i, n, x, 1);
}

/// Whether `dir` is where the root of a launch belongs: with the launch, or with the image whose path was
/// hashed.
pub open spec fn is_root(m: LaunchModel, events: Seq<Event>, dir: Seq<u8>) -> bool {
    if m.control.load || m.control.save {
        exists|hash: u64| #[trigger]
            seen(m, events, ActionModel::Hash(m.image), Event::Hashed(hash)) && dir
                == state::persistent_root_of(m.state, hash)
    } else {
        dir == state::transient_root_of(m.state, m.id)
    }
}

proof fn lemma_root_from(m: LaunchModel, events: Seq<Event>, k: int, dir: Seq<u8>)
    requires
        0 <= k <= events.len(),
        is_root(m, events.take(k), dir),
    ensures
        is_root(m, events, dir),
{
    if m.control.load || m.control.save {
        let hash = choose|hash: u64| #[trigger]
            seen(m, events.take(k), ActionModel::Hash(m.image), Event::Hashed(hash)) && dir
                == state::persistent_root_of(m.state, hash);
        lemma_seen_from(m, events, k, ActionModel::Hash(m.image), Event::Hashed(hash));
    }
}

proof fn lemma_root_step(n: LaunchModel, event: Event)
    requires
        is_valid(n),
        is_open_to(n, event),
        moved(n, event).verdict is None,
        moved(n, event).control.stage is Rooting,
    ensures
        n.control.stage is Rooting ==> moved(n, event).root == n.root,
        n.control.stage is Rooting || n.control.stage is Hashing || n.control.stage is Copying,
        n.control.stage is Hashing <==> (n.control.load || n.control.save) && !(n.control.stage
            is Rooting),
        n.control.stage is Hashing ==> n.action() == ActionModel::Hash(n.image) && (
        event matches Event::Hashed(hash) && moved(n, event).root->0.dir
            == state::persistent_root_of(n.state, hash)),
        n.control.stage is Copying ==> moved(n, event).root->0.dir == state::transient_root_of(
            n.state,
            n.id,
        ),
{
    reveal(is_valid);
    reveal(is_open_to);
    reveal(moved);
}

proof fn lemma_roots(m: LaunchModel, events: Seq<Event>)
    requires
        is_begun(m),
        is_course(m, events),
        reached(m, events).verdict is None,
        reached(m, events).control.stage is Rooting,
    ensures
        is_root(m, events, reached(m, events).root->0.dir),
    decreases events.len(),
{
    if events.len() == 0 {
        lemma_start(m, events);
    } else {
        let front = events.drop_last();
        let before = reached(m, front);
        let event = events.last();
        let k = events.len() - 1;
        lemma_unfold(m, events);
        lemma_valid(m, front);
        lemma_moves(before, event);
        lemma_root_step(before, event);
        if before.control.stage is Rooting {
            lemma_roots(m, front);
            assert(events.take(k) =~= front);
            lemma_root_from(m, events, k, before.root->0.dir);
        } else if before.control.stage is Hashing {
            let hash = event->Hashed_0;
            assert(events.take(k) =~= front);
            lemma_reached_is_after(m, front);
            assert(saw(m, events, k, ActionModel::Hash(m.image), Event::Hashed(hash)));
            assert(seen(m, events, ActionModel::Hash(m.image), Event::Hashed(hash)));
        }
    }
}

proof fn lemma_opening(n: LaunchModel, event: Event)
    requires
        is_valid(n),
        is_open_to(n, event),
        moved(n, event).verdict is None,
        moved(n, event).control == moved_on(n.control),
    ensures
        n.control.stage is Detaching ==> n.action() is Detach && event == Event::Detached(None),
        n.control.stage is StartingNet ==> n.action() is StartNet && moved(n, event).params is Some
            && event == Event::NetStarted(Ok(moved(n, event).params->0)) && moved(
            n,
            event,
        ).control.stage is EnteringTty,
        n.control.stage is EnteringTty ==> n.action() is EnterTty && event is TtyEntered,
{
    reveal(is_valid);
    reveal(is_open_to);
    reveal(moved);
    reveal(moved_on);
}

/// Whether the network of a launch was started with these parameters, and the terminal taken over.
pub open spec fn has_opened(m: LaunchModel, events: Seq<Event>, params: StartParams) -> bool {
    &&& seen(m, events, ActionModel::StartNet, Event::NetStarted(Ok(params)))
    &&& seen(m, events, ActionModel::EnterTty, Event::TtyEntered)
}

proof fn lemma_opened(m: LaunchModel, events: Seq<Event>)
    requires
        is_behind(m, events, Stage::StartingNet),
        is_behind(m, events, Stage::EnteringTty),
    ensures
        has_opened(m, events, reached(m, events).params->0),
{
    let i = lemma_done(m, events, Stage::StartingNet);
    let n = reached(m, events.take(i));
    lemma_opening(n, events[i]);
    lemma_saw(m, events, i, n, Stage::StartingNet);
    lemma_since(m, events, i, n, Stage::StartingNet);
    let j = lemma_done(m, events, Stage::EnteringTty);
    let t = reached(m, events.take(j));
    lemma_opening(t, events[j]);
    lemma_saw(m, events, j, t, Stage::EnteringTty);
}

proof fn lemma_running(m: LaunchModel, events: Seq<Event>)
    requires
        saving::is_fresh(m),
        m.is_course(events),
        m.after(events).action() is RunGuest,
    ensures
        is_begun(m),
        is_course(m, events),
        reached(m, events) == m.after(events),
        reached(m, events).verdict is None,
        reached(m, events).control.stage is Running,
        course::is_same_launch(m, m.after(events)),
        m.after(events).overlay matches Some(o) && o.path == m.image,
{
    lemma_begun(m);
    course::lemma_course(m, events);
    reveal(is_course);
    reveal(reached);
}

proof fn lemma_behind(m: LaunchModel, events: Seq<Event>, x: Stage)
    requires
        is_begun(m),
        is_course(m, events),
        reached(m, events).verdict is None,
        reached(m, events).control.stage is Running,
    ensures
        required(m.control, x) ==> is_behind(m, events, x),
        required(m.control, x) == (match x {
            Stage::Inspecting => m.control.load,
            Stage::Realising => !m.control.load || m.control.with_flake,
            Stage::ReadingSidecar => m.control.load && !m.control.with_flake,
            Stage::ProbingToplevel => m.control.load,
            Stage::ProbingClosure => m.control.load,
            Stage::Copying => !m.control.load,
            Stage::Recording => saving::records(m.control),
            Stage::Detaching => m.control.detach,
            Stage::ReadingBoot => true,
            Stage::Rooting => true,
            Stage::StartingNet => true,
            Stage::EnteringTty => true,
            _ => required(m.control, x),
        }),
{
    reveal(order);
    reveal(required);
}

/// What every launch has done by the time that its guest runs.
proof fn lemma_common(m: LaunchModel, events: Seq<Event>) -> (dir: Seq<u8>)
    requires
        is_begun(m),
        is_course(m, events),
        reached(m, events).verdict is None,
        reached(m, events).control.stage is Running,
    ensures
        ({
            let n = reached(m, events);
            let system = n.system->0;
            &&& boots_from(m, events, system.toplevel, system.closure_info, n.boot->0)
            &&& has_rooted(m, events, system.closure_info, dir)
            &&& is_root(m, events, dir)
            &&& has_opened(m, events, n.params->0)
            &&& m.control.detach ==> seen(m, events, ActionModel::Detach, Event::Detached(None))
            &&& saving::records(m.control) ==> has_done(
                m,
                events,
                FileOp::WriteText {
                    to: sidecar::sidecar_of(m.image),
                    text: saving::body_of(system),
                },
            )
        }),
{
    lemma_behind(m, events, Stage::ReadingBoot);
    lemma_boots(m, events);
    lemma_behind(m, events, Stage::StartingNet);
    lemma_behind(m, events, Stage::EnteringTty);
    lemma_opened(m, events);
    lemma_behind(m, events, Stage::Detaching);
    if m.control.detach {
        let x = Stage::Detaching;
        let i = lemma_done(m, events, x);
        lemma_opening(reached(m, events.take(i)), events[i]);
        lemma_saw(m, events, i, reached(m, events.take(i)), x);
    }
    lemma_behind(m, events, Stage::Recording);
    if saving::records(m.control) {
        lemma_recorded(m, events);
    }
    lemma_behind(m, events, Stage::Rooting);
    lemma_rooted(m, events)
}

proof fn lemma_found(m: LaunchModel, events: Seq<Event>, x: Stage) -> (i: int)
    requires
        is_behind(m, events, x),
        x is Realising || x is ReadingSidecar || x is ProbingToplevel || x is ProbingClosure,
    ensures
        is_finishing(m, events, i, reached(m, events.take(i)), x),
        seen(m, events, reached(m, events.take(i)).action(), events[i]),
        reached(m, events).system == moved(reached(m, events.take(i)), events[i]).system,
{
    let i = lemma_done(m, events, x);
    let n = reached(m, events.take(i));
    lemma_finding(n, events[i]);
    lemma_saw(m, events, i, n, x);
    lemma_since(m, events, i, n, x);
    i
}

/// When the guest of a run runs, the flake output was realised, and everything that the guest is booted
/// with is that of this output: a writable copy of its image was made, where the user wants to save it or
/// in a place of the launch's own; what stood there was removed only where the user wanted that; for a
/// saved image the system was recorded next to it; the system is kept from being collected; the launch has
/// detached if that was asked for; the network is up and the terminal taken over.
#[verifier::rlimit(40)]
pub proof fn law_runs_come_to_the_guest_in_order(
    args: RunArgs,
    id: LaunchId,
    temp: Seq<u8>,
    state: Seq<u8>,
    events: Seq<Event>,
) -> (root: Seq<u8>)
    requires
        session::run_model(args, id, temp, state).is_course(events),
        session::run_model(args, id, temp, state).after(events).action() is RunGuest,
    ensures
        ({
            let m = session::run_model(args, id, temp, state);
            let n = m.after(events);
            let system = n.system->0;
            let image = m.image;
            &&& args.persist is Some ==> image == args.persist->0@
            &&& args.persist is None ==> image == state::image_of(temp, id)
            &&& n.system is Some && n.boot is Some && n.params is Some
            &&& seen(m, events, ActionModel::Realise, Event::Realised(Ok(system)))
            &&& boots_from(m, events, system.toplevel, system.closure_info, n.boot->0)
            &&& has_copied(m, events, system.image_file, image)
            &&& n.overlay matches Some(o) && o.path == image
            &&& has_rooted(m, events, system.closure_info, root)
            &&& args.persist is None ==> root == state::transient_root_of(state, id)
            &&& args.persist is Some ==> {
                &&& has_done(
                    m,
                    events,
                    FileOp::WriteText {
                        to: sidecar::sidecar_of(image),
                        text: sidecar::sidecar_body(system.toplevel, system.closure_info),
                    },
                )
                &&& exists|hash: u64| #[trigger]
                    seen(m, events, ActionModel::Hash(image), Event::Hashed(hash)) && root
                        == state::persistent_root_of(state, hash)
                &&& {
                    ||| seen(m, events, ActionModel::Probe(image), Event::ImageProbed(false))
                    ||| args.force && has_done(m, events, FileOp::RemoveFile(image)) && seen(
                        m,
                        events,
                        ActionModel::Probe(image),
                        Event::ImageProbed(true),
                    )
                }
            }
            &&& args.detach ==> seen(m, events, ActionModel::Detach, Event::Detached(None))
            &&& has_opened(m, events, n.params->0)
        }),
{
    let m = session::run_model(args, id, temp, state);
    assert(saving::is_fresh(m));
    lemma_running(m, events);
    lemma_known(m, events);
    lemma_made(m, events);
    lemma_common(m, events)
}

proof fn lemma_made(m: LaunchModel, events: Seq<Event>)
    requires
        is_begun(m),
        is_course(m, events),
        reached(m, events).verdict is None,
        reached(m, events).control.stage is Running,
        !m.control.load,
    ensures
        seen(m, events, ActionModel::Realise, Event::Realised(Ok(reached(m, events).system->0))),
        has_copied(m, events, reached(m, events).system->0.image_file, m.image),
        m.control.save ==> {
            ||| seen(m, events, ActionModel::Probe(m.image), Event::ImageProbed(false))
            ||| m.force && has_done(m, events, FileOp::RemoveFile(m.image)) && seen(
                m,
                events,
                ActionModel::Probe(m.image),
                Event::ImageProbed(true),
            )
        },
{
    lemma_behind(m, events, Stage::Realising);
    let i = lemma_found(m, events, Stage::Realising);
    lemma_finding(reached(m, events.take(i)), events[i]);
    lemma_behind(m, events, Stage::Copying);
    lemma_copied(m, events);
}

proof fn lemma_known(m: LaunchModel, events: Seq<Event>)
    requires
        saving::is_fresh(m),
        m.is_course(events),
        m.after(events).action() is RunGuest,
    ensures
        m.after(events).system is Some,
        m.after(events).boot is Some,
        m.after(events).params is Some,
{
    course::lemma_course(m, events);
}

/// When the guest of a load runs, the image was found and can be written to; the system is that of the
/// flake where the user named one, which was recorded next to the image then, and else the one that the
/// sidecar was read to record; both its parts were found to exist; it is kept from being collected; the
/// launch has detached if that was asked for; the network is up and the terminal taken over.
#[verifier::rlimit(40)]
pub proof fn law_loads_come_to_the_guest_in_order(
    args: LoadArgs,
    id: LaunchId,
    temp: Seq<u8>,
    state: Seq<u8>,
    events: Seq<Event>,
) -> (root: Seq<u8>)
    requires
        session::load_model(args, id, temp, state).is_course(events),
        session::load_model(args, id, temp, state).after(events).action() is RunGuest,
    ensures
        ({
            let m = session::load_model(args, id, temp, state);
            let n = m.after(events);
            let system = n.system->0;
            let image = args.path@;
            &&& n.system is Some && n.boot is Some && n.params is Some
            &&& exists|mode: u32|
                mode & 0o200 != 0 && #[trigger] seen(
                    m,
                    events,
                    ActionModel::Inspect(image),
                    Event::Inspected(Some(Ok(mode))),
                )
            &&& args.flake_ref is Some ==> {
                &&& seen(m, events, ActionModel::Realise, Event::Realised(Ok(system)))
                &&& has_done(
                    m,
                    events,
                    FileOp::WriteText {
                        to: sidecar::sidecar_of(image),
                        text: sidecar::sidecar_body(system.toplevel, system.closure_info),
                    },
                )
            }
            &&& args.flake_ref is None ==> exists|body: Seq<char>|
                sidecar::recorded_for(image, Ok(body)) == Ok::<(Seq<char>, Seq<char>), Seq<char>>(
                    (system.toplevel, system.closure_info),
                ) && #[trigger] seen(
                    m,
                    events,
                    ActionModel::ReadText(sidecar::sidecar_of(image)),
                    Event::SidecarRead(Ok(body)),
                )
            &&& seen(
                m,
                events,
                ActionModel::Probe(path::utf8(system.toplevel)),
                Event::Probed(true),
            )
            &&& seen(
                m,
                events,
                ActionModel::Probe(path::utf8(system.closure_info)),
                Event::Probed(true),
            )
            &&& boots_from(m, events, system.toplevel, system.closure_info, n.boot->0)
            &&& n.overlay matches Some(o) && o.path == image
            &&& has_rooted(m, events, system.closure_info, root)
            &&& exists|hash: u64| #[trigger]
                seen(m, events, ActionModel::Hash(image), Event::Hashed(hash)) && root
                    == state::persistent_root_of(state, hash)
            &&& args.detach ==> seen(m, events, ActionModel::Detach, Event::Detached(None))
            &&& has_opened(m, events, n.params->0)
        }),
{
    let m = session::load_model(args, id, temp, state);
    assert(saving::is_fresh(m));
    lemma_running(m, events);
    lemma_known(m, events);
    lemma_behind(m, events, Stage::Inspecting);
    lemma_inspected(m, events);
    lemma_behind(m, events, Stage::Realising);
    lemma_behind(m, events, Stage::ReadingSidecar);
    lemma_behind(m, events, Stage::ProbingToplevel);
    lemma_behind(m, events, Stage::ProbingClosure);
    if args.flake_ref is Some {
        let i = lemma_found(m, events, Stage::Realising);
        lemma_finding(reached(m, events.take(i)), events[i]);
    } else {
        let i = lemma_found(m, events, Stage::ReadingSidecar);
        lemma_finding(reached(m, events.take(i)), events[i]);
    }
    let i = lemma_found(m, events, Stage::ProbingToplevel);
    lemma_finding(reached(m, events.take(i)), events[i]);
    let j = lemma_found(m, events, Stage::ProbingClosure);
    lemma_finding(reached(m, events.take(j)), events[j]);
    lemma_common(m, events)
}

proof fn lemma_inspected(m: LaunchModel, events: Seq<Event>)
    requires
        is_behind(m, events, Stage::Inspecting),
    ensures
        exists|mode: u32|
            mode & 0o200 != 0 && #[trigger] seen(
                m,
                events,
                ActionModel::Inspect(m.image),
                Event::Inspected(Some(Ok(mode))),
            ),
{
    let x = Stage::Inspecting;
    let i = lemma_done(m, events, x);
    let n = reached(m, events.take(i));
    lemma_finding(n, events[i]);
    lemma_saw(m, events, i, n, x);
}

/// A run that was asked to detach comes to starting the network, to taking over the terminal or to running
/// the guest only after it has asked for detaching and was told that this succeeded; one that was not
/// asked for that never asks for it.
pub proof fn law_runs_detach_as_they_were_asked_to(
    args: RunArgs,
    id: LaunchId,
    temp: Seq<u8>,
    state: Seq<u8>,
    events: Seq<Event>,
)
    requires
        session::run_model(args, id, temp, state).is_course(events),
    ensures
        ({
            let m = session::run_model(args, id, temp, state);
            let action = m.after(events).action();
            &&& args.detach && (action is StartNet || action is EnterTty || action is RunGuest)
                ==> seen(m, events, ActionModel::Detach, Event::Detached(None))
            &&& !args.detach ==> !(action is Detach)
        }),
{
    law_launches_detach_as_they_were_asked_to(
        session::run_model(args, id, temp, state),
        events,
    );
}

/// A load that was asked to detach comes to starting the network, to taking over the terminal or to
/// running the guest only after it has asked for detaching and was told that this succeeded; one that was
/// not asked for that never asks for it.
pub proof fn law_loads_detach_as_they_were_asked_to(
    args: LoadArgs,
    id: LaunchId,
    temp: Seq<u8>,
    state: Seq<u8>,
    events: Seq<Event>,
)
    requires
        session::load_model(args, id, temp, state).is_course(events),
    ensures
        ({
            let m = session::load_model(args, id, temp, state);
            let action = m.after(events).action();
            &&& args.detach && (action is StartNet || action is EnterTty || action is RunGuest)
                ==> seen(m, events, ActionModel::Detach, Event::Detached(None))
            &&& !args.detach ==> !(action is Detach)
        }),
{
    law_launches_detach_as_they_were_asked_to(
        session::load_model(args, id, temp, state),
        events,
    );
}

/// Whether an operation configures the guest of a launch with what belongs to the launch.
#[verifier::opaque]
spec fn is_fitted(
    m: LaunchModel,
    events: Seq<Event>,
    socket: i32,
    op: KrunOp<Seq<char>>,
) -> bool {
    &&& op matches KrunOp::AddNetwork { socket: wired, mac, features, flags } ==> wired == socket
        && exists|params: StartParams| #[trigger]
        has_opened(m, events, params) && mac == params.mac
    &&& op matches KrunOp::SetVmConfig { cpus, memory_mib } ==> cpus == m.cpus && memory_mib
        == m.memory_mib
    &&& op matches KrunOp::SetRootDisk { disk } ==> path::utf8(disk) == m.image
}

proof fn lemma_fits(
    m: LaunchModel,
    n: LaunchModel,
    events: Seq<Event>,
    s: Session,
    socket: i32,
    k: int,
)
    requires
        s@ == n,
        n.wf(),
        n.control.stage is Running,
        course::is_same_launch(m, n),
        has_opened(m, events, n.params->0),
        0 <= k < krun::krun_steps(s.boot->0@, s.image@, s.config_for(socket)).len(),
    ensures
        is_fitted(
            m,
            events,
            socket,
            krun::krun_steps(s.boot->0@, s.image@, s.config_for(socket))[k].0,
        ),
{
    reveal(is_fitted);
    session::law_launches_are_told_whole(s);
    session::law_guests_get_what_belongs_to_them(s, socket, k);
}

proof fn lemma_guest_fits(m: LaunchModel, events: Seq<Event>, s: Session, socket: i32, k: int)
    requires
        saving::is_fresh(m),
        m.is_course(events),
        m.after(events).action() is RunGuest,
        s@ == m.after(events),
        0 <= k < krun::krun_steps(s.boot->0@, s.image@, s.config_for(socket)).len(),
    ensures
        is_fitted(
            m,
            events,
            socket,
            krun::krun_steps(s.boot->0@, s.image@, s.config_for(socket))[k].0,
        ),
{
    lemma_running(m, events);
    course::lemma_course(m, events);
    let dir = lemma_common(m, events);
    lemma_fits(m, reached(m, events), events, s, socket, k);
}

proof fn lemma_run_begins(args: RunArgs, id: LaunchId, temp: Seq<u8>, state: Seq<u8>)
    ensures
        ({
            let m = session::run_model(args, id, temp, state);
            &&& saving::is_fresh(m)
            &&& m.cpus == args.cpus
            &&& m.memory_mib == args.memory_mib
            &&& args.persist matches Some(p) ==> m.image == p.bytes@
            &&& args.persist is None ==> m.image == state::image_of(temp, id)
        }),
{
}

proof fn lemma_load_begins(args: LoadArgs, id: LaunchId, temp: Seq<u8>, state: Seq<u8>)
    ensures
        ({
            let m = session::load_model(args, id, temp, state);
            &&& saving::is_fresh(m)
            &&& m.cpus == args.cpus
            &&& m.memory_mib == args.memory_mib
            &&& m.image == args.path.bytes@
        }),
{
}

/// The guest of a run has as many processors and as much memory as the arguments ask for; its network is
/// wired to the socket that was given, with the hardware address that vmnet reported when the network of
/// this very launch was started; and its disk is the image that the user wants saved, or else the copy that
/// the launch made for itself.
pub proof fn law_guests_of_runs_get_what_was_asked(
    args: RunArgs,
    id: LaunchId,
    temp: Seq<u8>,
    state: Seq<u8>,
    events: Seq<Event>,
    s: Session,
    socket: i32,
    k: int,
)
    requires
        session::run_model(args, id, temp, state).is_course(events),
        session::run_model(args, id, temp, state).after(events).action() is RunGuest,
        s@ == session::run_model(args, id, temp, state).after(events),
        0 <= k < krun::krun_steps(s.boot->0@, s.image@, s.config_for(socket)).len(),
    ensures
        ({
            let m = session::run_model(args, id, temp, state);
            let op = krun::krun_steps(s.boot->0@, s.image@, s.config_for(socket))[k].0;
            &&& op matches KrunOp::AddNetwork { socket: wired, mac, features, flags } ==> wired
                == socket && exists|params: StartParams| #[trigger]
                has_opened(m, events, params) && mac == params.mac
            &&& op matches KrunOp::SetVmConfig { cpus, memory_mib } ==> cpus == args.cpus
                && memory_mib == args.memory_mib
            &&& op matches KrunOp::SetRootDisk { disk } ==> path::utf8(disk) == (
            if args.persist is Some {
                args.persist->0.bytes@
            } else {
                state::image_of(temp, id)
            })
        }),
{
    let m = session::run_model(args, id, temp, state);
    lemma_run_begins(args, id, temp, state);
    lemma_guest_fits(m, events, s, socket, k);
    reveal(is_fitted);
}

/// The guest of a load has as many processors and as much memory as the arguments ask for; its network is
/// wired to the socket that was given, with the hardware address that vmnet reported when the network of
/// this very launch was started; and its disk is the image that was named.
pub proof fn law_guests_of_loads_get_what_was_asked(
    args: LoadArgs,
    id: LaunchId,
    temp: Seq<u8>,
    state: Seq<u8>,
    events: Seq<Event>,
    s: Session,
    socket: i32,
    k: int,
)
    requires
        session::load_model(args, id, temp, state).is_course(events),
        session::load_model(args, id, temp, state).after(events).action() is RunGuest,
        s@ == session::load_model(args, id, temp, state).after(events),
        0 <= k < krun::krun_steps(s.boot->0@, s.image@, s.config_for(socket)).len(),
    ensures
        ({
            let m = session::load_model(args, id, temp, state);
            let op = krun::krun_steps(s.boot->0@, s.image@, s.config_for(socket))[k].0;
            &&& op matches KrunOp::AddNetwork { socket: wired, mac, features, flags } ==> wired
                == socket && exists|params: StartParams| #[trigger]
                has_opened(m, events, params) && mac == params.mac
            &&& op matches KrunOp::SetVmConfig { cpus, memory_mib } ==> cpus == args.cpus
                && memory_mib == args.memory_mib
            &&& op matches KrunOp::SetRootDisk { disk } ==> path::utf8(disk) == args.path.bytes@
        }),
{
    let m = session::load_model(args, id, temp, state);
    lemma_load_begins(args, id, temp, state);
    lemma_guest_fits(m, events, s, socket, k);
    reveal(is_fitted);
}

} // verus!
