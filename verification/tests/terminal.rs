use nixvm::terminal::{RawTerminal, TtyEvent, TtyOp, TtyStage};
use rustix::pty::{openpt, OpenptFlags};
use rustix::termios::{tcgetattr, LocalModes, Termios};

fn attributes() -> Termios {
    let terminal = openpt(OpenptFlags::RDWR | OpenptFlags::NOCTTY).unwrap();
    tcgetattr(&terminal).unwrap()
}

#[test]
fn no_terminal() {
    let mut t = RawTerminal::enter();
    assert_eq!(t.current(), Some(TtyOp::AskTerminal));
    t.answered(TtyEvent::No);
    assert_eq!(t.stage, TtyStage::Absent);
    assert!(t.current().is_none());
    assert!(t.restoration().is_none());
}

#[test]
fn a_terminal_that_cannot_be_read() {
    let mut t = RawTerminal::enter();
    t.answered(TtyEvent::Yes);
    assert_eq!(t.current(), Some(TtyOp::Duplicate));
    t.answered(TtyEvent::Yes);
    assert_eq!(t.current(), Some(TtyOp::ReadAttributes));
    t.answered(TtyEvent::No);
    assert!(t.restoration().is_none());
    let mut t = RawTerminal::enter();
    t.answered(TtyEvent::Yes);
    t.answered(TtyEvent::No);
    assert_eq!(t.stage, TtyStage::Absent);
}

#[test]
fn a_terminal_that_is_taken_over() {
    let found = attributes();
    assert!(found.local_modes.contains(LocalModes::ISIG));
    let local = found.local_modes;
    let mut t = RawTerminal::enter();
    t.answered(TtyEvent::Yes);
    t.answered(TtyEvent::Yes);
    t.answered(TtyEvent::Attributes(found));
    assert_eq!(t.current(), Some(TtyOp::ApplyRaw));
    let raw = t.raw();
    assert!(!raw.local_modes.contains(LocalModes::ISIG));
    assert!(!raw.local_modes.contains(LocalModes::ICANON));
    assert!(!raw.local_modes.contains(LocalModes::ECHO));
    t.answered(TtyEvent::No);
    assert_eq!(t.stage, TtyStage::Entered);
    assert_eq!(t.restoration().unwrap().local_modes, local);
}
