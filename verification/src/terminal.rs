//! The host's terminal, which the guest takes over while it runs.

use vstd::prelude::*;

verus! {

/// The attributes of a terminal.
#[verifier::external_type_specification]
#[verifier::external_body]
pub struct DeclaredTermios(rustix::termios::Termios);

/// What `Termios::make_raw` makes of the attributes of a terminal.
pub uninterp spec fn raw_of(attributes: rustix::termios::Termios) -> rustix::termios::Termios;

/// `Termios::make_raw`, on a copy: the attributes that hand every byte through as it comes.  They depend
/// on the given attributes alone.  Which of the platform's modes that clears and sets is left to the
/// name: the value is opaque here.
#[verifier::external_body]
fn made_raw(attributes: &rustix::termios::Termios) -> (raw: rustix::termios::Termios)
    ensures
        raw == raw_of(*attributes),
{
    let mut raw = attributes.clone();
    raw.make_raw();
    raw
}

/// An operation that taking over the terminal asks of the host.
#[derive(Clone, Copy, PartialEq, Eq, Structural, Debug)]
pub enum TtyOp {
    /// Asking whether the standard input is a terminal.
    AskTerminal,
    /// Duplicating the standard input, which is redirected later on.
    Duplicate,
    /// Reading the attributes of the duplicate.
    ReadAttributes,
    /// Making the raw attributes those of the duplicate.
    ApplyRaw,
}

/// What came of an operation.
pub enum TtyEvent {
    Yes,
    No,
    /// The attributes that were read.
    Attributes(rustix::termios::Termios),
}

/// How far taking over the terminal has come.
#[derive(Clone, Copy, PartialEq, Eq, Structural, Debug)]
pub enum TtyStage {
    Asking,
    Duplicating,
    Reading,
    Applying,
    /// The terminal is taken over.
    Entered,
    /// There is no terminal to take over.
    Absent,
}

/// The operation of a stage, where it has one.
pub open spec fn op_of(stage: TtyStage) -> Option<TtyOp> {
    match stage {
        TtyStage::Asking => Some(TtyOp::AskTerminal),
        TtyStage::Duplicating => Some(TtyOp::Duplicate),
        TtyStage::Reading => Some(TtyOp::ReadAttributes),
        TtyStage::Applying => Some(TtyOp::ApplyRaw),
        TtyStage::Entered => None,
        TtyStage::Absent => None,
    }
}

/// Whether the operation of a stage can come to an event.
pub open spec fn can_come(stage: TtyStage, event: TtyEvent) -> bool {
    match stage {
        TtyStage::Reading => event is Attributes || event is No,
        TtyStage::Entered => false,
        TtyStage::Absent => false,
        _ => event is Yes || event is No,
    }
}

/// The stage that follows a stage whose operation came to an event.  That the raw attributes could not
/// be applied is ignored.
pub open spec fn next_stage(stage: TtyStage, event: TtyEvent) -> TtyStage {
    match stage {
        TtyStage::Asking => if event is Yes {
            TtyStage::Duplicating
        } else {
            TtyStage::Absent
        },
        TtyStage::Duplicating => if event is Yes {
            TtyStage::Reading
        } else {
            TtyStage::Absent
        },
        TtyStage::Reading => if event is Attributes {
            TtyStage::Applying
        } else {
            TtyStage::Absent
        },
        TtyStage::Applying => TtyStage::Entered,
        TtyStage::Entered => TtyStage::Entered,
        TtyStage::Absent => TtyStage::Absent,
    }
}

/// The terminal while it is taken over.
pub struct RawTerminal {
    pub stage: TtyStage,
    /// The attributes that the terminal had before.
    pub saved: Option<rustix::termios::Termios>,
}

impl RawTerminal {
    /// Whether the attributes are known exactly where they have been read.
    pub open spec fn wf(&self) -> bool {
        self.saved is Some <==> (self.stage is Applying || self.stage is Entered)
    }

    /// A terminal that is about to be taken over.
    pub fn enter() -> (t: RawTerminal)
        ensures
            t.wf(),
            t.stage is Asking,
    {
        RawTerminal { stage: TtyStage::Asking, saved: None }
    }

    /// The operation to carry out now.  There is none once the terminal is taken over, or there is none
    /// to take over.
    pub fn current(&self) -> (op: Option<TtyOp>)
        ensures
            op == op_of(self.stage),
    {
        match self.stage {
            TtyStage::Asking => Some(TtyOp::AskTerminal),
            TtyStage::Duplicating => Some(TtyOp::Duplicate),
            TtyStage::Reading => Some(TtyOp::ReadAttributes),
            TtyStage::Applying => Some(TtyOp::ApplyRaw),
            TtyStage::Entered => None,
            TtyStage::Absent => None,
        }
    }

    /// The attributes that the terminal is to have while the guest runs.
    pub fn raw(&self) -> (raw: rustix::termios::Termios)
        requires
            self.wf(),
            self.stage is Applying,
        ensures
            self.saved matches Some(saved) && raw == raw_of(saved),
    {
        made_raw(self.saved.as_ref().unwrap())
    }

    /// Takes note of what came of the current operation.
    pub fn answered(&mut self, event: TtyEvent)
        requires
            old(self).wf(),
            can_come(old(self).stage, event),
        ensures
            final(self).wf(),
            final(self).stage == next_stage(old(self).stage, event),
            final(self).saved == (match event {
                TtyEvent::Attributes(attributes) => Some(attributes),
                _ => old(self).saved,
            }),
    {
        match event {
            TtyEvent::Attributes(attributes) => {
                self.saved = Some(attributes);
                self.stage = TtyStage::Applying;
            },
            TtyEvent::Yes => {
                self.stage = match self.stage {
                    TtyStage::Asking => TtyStage::Duplicating,
                    TtyStage::Duplicating => TtyStage::Reading,
                    _ => TtyStage::Entered,
                };
            },
            TtyEvent::No => {
                self.stage = match self.stage {
                    TtyStage::Applying => TtyStage::Entered,
                    _ => TtyStage::Absent,
                };
            },
        }
    }

    /// The attributes to give the terminal back, if it was taken over.
    pub fn restoration(&self) -> (r: Option<&rustix::termios::Termios>)
        requires
            self.wf(),
        ensures
            r is Some <==> self.saved is Some,
            r matches Some(attributes) ==> self.saved == Some(*attributes),
    {
        self.saved.as_ref()
    }
}

/// The stage after events, and the attributes that are to be given back.
pub open spec fn course_of(events: Seq<TtyEvent>) -> (TtyStage, Option<rustix::termios::Termios>)
    decreases events.len(),
{
    if events.len() == 0 {
        (TtyStage::Asking, None)
    } else {
        let before = course_of(events.drop_last());
        (
            next_stage(before.0, events.last()),
            match events.last() {
                TtyEvent::Attributes(attributes) => Some(attributes),
                _ => before.1,
            },
        )
    }
}

/// Whether events can be those of taking over a terminal, in their order.
pub open spec fn is_course(events: Seq<TtyEvent>) -> bool
    decreases events.len(),
{
    events.len() == 0 || (is_course(events.drop_last()) && can_come(
        course_of(events.drop_last()).0,
        events.last(),
    ))
}

/// The terminal is taken over exactly if its attributes could be read, and what it is given back are
/// those attributes.
pub proof fn law_terminal_gets_its_attributes_back(events: Seq<TtyEvent>)
    requires
        is_course(events),
        op_of(course_of(events).0) is None,
    ensures
        course_of(events).0 is Entered <==> course_of(events).1 is Some,
        course_of(events).0 is Entered <==> (events.len() == 4 && events[2] is Attributes),
        course_of(events).0 is Entered ==> course_of(events).1 == Some(events[2]->Attributes_0),
{
    lemma_course(events);
}

proof fn lemma_course(events: Seq<TtyEvent>)
    requires
        is_course(events),
    ensures
        match course_of(events).0 {
            TtyStage::Asking => events.len() == 0 && course_of(events).1 is None,
            TtyStage::Duplicating => events.len() == 1 && course_of(events).1 is None,
            TtyStage::Reading => events.len() == 2 && course_of(events).1 is None,
            TtyStage::Applying => events.len() == 3 && events[2] is Attributes && course_of(
                events,
            ).1 == Some(events[2]->Attributes_0),
            TtyStage::Entered => events.len() == 4 && events[2] is Attributes && course_of(
                events,
            ).1 == Some(events[2]->Attributes_0),
            TtyStage::Absent => events.len() <= 3 && course_of(events).1 is None,
        },
    decreases events.len(),
{
    if events.len() > 0 {
        lemma_course(events.drop_last());
    }
}

/// Taking over a terminal asks whether there is one, duplicates it, reads its attributes and applies the raw
/// ones, in this order, as long as nothing fails before.
pub proof fn law_terminals_are_taken_over_step_by_step(events: Seq<TtyEvent>)
    requires
        is_course(events),
        forall|i: int| 0 <= i < events.len() ==> !((#[trigger] events[i]) is No),
    ensures
        op_of(course_of(events).0) == (if events.len() == 0 {
            Some(TtyOp::AskTerminal)
        } else if events.len() == 1 {
            Some(TtyOp::Duplicate)
        } else if events.len() == 2 {
            Some(TtyOp::ReadAttributes)
        } else if events.len() == 3 {
            Some(TtyOp::ApplyRaw)
        } else {
            None
        }),
    decreases events.len(),
{
    if events.len() > 0 {
        let front = events.drop_last();
        assert forall|i: int| 0 <= i < front.len() implies !((#[trigger] front[i]) is No) by {
            assert(events[i] == front[i]);
        }
        law_terminals_are_taken_over_step_by_step(front);
        assert(!(events[events.len() - 1] is No));
        lemma_course(front);
    }
}

/// A terminal that is not there, or cannot be duplicated or read, is left alone: nothing more is asked for,
/// and there are no attributes to give back.  That the raw attributes could not be applied changes nothing.
pub proof fn law_missing_terminals_are_left_alone(events: Seq<TtyEvent>)
    requires
        is_course(events),
        events.len() > 0,
        events.last() is No,
    ensures
        events.len() <= 3 ==> op_of(course_of(events).0) is None && course_of(events).1 is None,
        events.len() == 4 ==> course_of(events).0 is Entered && course_of(events).1 == Some(
            events[2]->Attributes_0,
        ),
        events.len() <= 4,
{
    lemma_course(events);
    lemma_course(events.drop_last());
}

} // verus!
