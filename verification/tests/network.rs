use nixvm::vmnet::{
    judge_write, packet_read, parse_hex_octet, parse_mac, parse_start_params, stop_vmnet,
    succeeded, AfterWrite, Buffer, Drain, DrainOp, End, NetEvent, NetOp, NetStage, Pump, PumpOp,
    StartParams, VmnetStart,
};

fn params() -> StartParams {
    parse_start_params(Some("52:54:00:12:34:56"), 1500, 1514)
}

#[test]
fn hardware_addresses() {
    assert_eq!(parse_mac("aa:bb:cc:dd:ee:ff"), [0xaa, 0xbb, 0xcc, 0xdd, 0xee, 0xff]);
    assert_eq!(parse_mac("AA:b:00:7f:1:0"), [0xaa, 0x0b, 0, 0x7f, 1, 0]);
    assert_eq!(parse_mac("1:2:3:4:5:6:7"), [1, 2, 3, 4, 5, 6]);
    assert_eq!(parse_mac("1:2"), [1, 2, 0, 0, 0, 0]);
    assert_eq!(parse_mac(""), [0; 6]);
    assert_eq!(parse_mac("xx::100:-1:+f:000f"), [0, 0, 0, 0, 0x0f, 0x0f]);
}

#[test]
fn octets_match_the_standard_library() {
    for s in [
        "", "+", "-", "0", "f", "ff", "FF", "100", "0ff", "00000000000000000000ff",
        "ffffffffffffffffffffffff", "+1f", "-0", "++1", "g", "1g", " 1", "1 ", "\u{e4}",
    ] {
        assert_eq!(parse_hex_octet(s), u8::from_str_radix(s, 16).ok(), "{:?}", s);
    }
}

#[test]
fn start_parameters() {
    let p = params();
    assert_eq!(p.mac, [0x52, 0x54, 0, 0x12, 0x34, 0x56]);
    assert_eq!(p.mtu, 1500);
    assert_eq!(p.max_packet_size, 1514);
    let q = parse_start_params(None, 0x1_0005, 7);
    assert_eq!(q.mac, [0; 6]);
    assert_eq!(q.mtu, 5);
}

fn op_list(start: &mut VmnetStart, events: Vec<NetEvent<String>>) -> Vec<NetOp> {
    let mut ops = Vec::new();
    for event in events {
        ops.push(start.current().unwrap());
        start.answered(event);
    }
    ops
}

fn up_to_the_queue() -> Vec<NetEvent<String>> {
    vec![
        NetEvent::Done,
        NetEvent::Done,
        NetEvent::Failed("ENOBUFS".to_string()),
        NetEvent::Done,
        NetEvent::Done,
    ]
}

fn up_to_the_interface() -> Vec<NetEvent<String>> {
    let mut events = up_to_the_queue();
    events.push(NetEvent::Done);
    events.push(NetEvent::Done);
    events.push(NetEvent::Done);
    events
}

#[test]
fn a_network_that_starts() {
    let mut start = VmnetStart::start();
    let mut events = up_to_the_interface();
    events.push(NetEvent::Done);
    events.push(NetEvent::Done);
    events.push(NetEvent::Started(params()));
    events.push(NetEvent::Status(1000));
    events.push(NetEvent::Done);
    let ops = op_list(&mut start, events);
    let size = |end, buffer| NetOp::SizeBuffer { end, buffer, bytes: 4 * 1024 * 1024 };
    assert_eq!(
        ops,
        vec![
            NetOp::PairSockets,
            size(End::Pump, Buffer::Sending),
            size(End::Pump, Buffer::Receiving),
            size(End::Guest, Buffer::Sending),
            size(End::Guest, Buffer::Receiving),
            NetOp::CreateQueue,
            NetOp::CreateDescription,
            NetOp::DescribeMode { mode: 1001 },
            NetOp::StartInterface,
            NetOp::ReleaseDescription,
            NetOp::AwaitStart,
            NetOp::SetEventCallback,
            NetOp::SpawnPump,
        ]
    );
    assert!(start.current().is_none());
    assert_eq!(start.stage, NetStage::Running);
    assert_eq!(start.finish().unwrap().mac, params().mac);
}

fn failing(events: Vec<NetEvent<String>>) -> (Vec<NetOp>, String) {
    let mut start = VmnetStart::start();
    let ops = op_list(&mut start, events);
    assert!(start.current().is_none());
    (ops, start.finish().err().unwrap().text)
}

#[test]
fn sockets_that_cannot_be_paired() {
    let (ops, text) = failing(vec![NetEvent::Failed("EMFILE".to_string())]);
    assert_eq!(ops, vec![NetOp::PairSockets]);
    assert_eq!(text, "socketpair: EMFILE");
}

#[test]
fn objects_that_cannot_be_made() {
    let mut events = up_to_the_queue();
    events.push(NetEvent::Null);
    assert_eq!(failing(events).1, "dispatch_queue_create returned NULL");
    let mut events = up_to_the_queue();
    events.push(NetEvent::Done);
    events.push(NetEvent::Null);
    assert_eq!(failing(events).1, "xpc_dictionary_create returned NULL");
}

#[test]
fn an_interface_that_is_not_given() {
    let mut events = up_to_the_interface();
    events.push(NetEvent::Null);
    events.push(NetEvent::Done);
    events.push(NetEvent::Done);
    let (ops, text) = failing(events);
    assert_eq!(text, "vmnet_start_interface returned NULL");
    assert_eq!(ops[8..], [NetOp::StartInterface, NetOp::ReleaseDescription, NetOp::ReleaseQueue]);
}

#[test]
fn an_interface_that_is_refused() {
    let mut events = up_to_the_interface();
    events.push(NetEvent::Done);
    events.push(NetEvent::Done);
    events.push(NetEvent::Status(1001));
    events.push(NetEvent::Done);
    let (ops, text) = failing(events);
    assert_eq!(
        text,
        "vmnet_start_interface failed: status 1001 \
         (macOS 26+ is required for unprivileged vmnet)"
    );
    assert_eq!(ops[10..], [NetOp::AwaitStart, NetOp::ReleaseQueue]);
}

#[test]
fn events_that_cannot_be_listened_to() {
    let mut events = up_to_the_interface();
    events.push(NetEvent::Done);
    events.push(NetEvent::Done);
    events.push(NetEvent::Started(params()));
    events.push(NetEvent::Status(1005));
    events.push(NetEvent::Done);
    events.push(NetEvent::Done);
    let (ops, text) = failing(events);
    assert_eq!(text, "vmnet_interface_set_event_callback failed: 1005");
    assert_eq!(
        ops[11..],
        [NetOp::SetEventCallback, NetOp::StopInterface, NetOp::ReleaseQueue]
    );
}

#[test]
fn a_pump_that_cannot_be_spawned() {
    let mut events = up_to_the_interface();
    events.push(NetEvent::Done);
    events.push(NetEvent::Done);
    events.push(NetEvent::Started(params()));
    events.push(NetEvent::Status(1000));
    events.push(NetEvent::Failed("EAGAIN".to_string()));
    assert_eq!(failing(events).1, "spawn vmnet pump thread: EAGAIN");
}

#[test]
fn the_pump_ends_before_the_interface() {
    assert_eq!(
        stop_vmnet(),
        vec![
            NetOp::ClosePump,
            NetOp::JoinPump,
            NetOp::StopInterface,
            NetOp::ReleaseQueue
        ]
    );
}

#[test]
fn packets_from_the_interface() {
    assert_eq!(packet_read(1000, 1, 60), Some(60));
    assert_eq!(packet_read(1000, 0, 60), None);
    assert_eq!(packet_read(1001, 1, 60), None);
    assert!(succeeded(1000));
    assert!(!succeeded(0));
}

#[test]
fn packets_to_the_socket() {
    assert_eq!(judge_write(60, None, 11), AfterWrite::GoOn);
    assert_eq!(judge_write(0, Some(11), 11), AfterWrite::GoOn);
    assert_eq!(judge_write(-1, Some(11), 11), AfterWrite::Stop);
    assert_eq!(judge_write(-1, Some(9), 11), AfterWrite::StopAndWarn);
    assert_eq!(judge_write(-1, None, 11), AfterWrite::StopAndWarn);
}

fn drained(rounds: &[(u32, i32, usize, isize)]) -> (Vec<DrainOp>, Vec<usize>) {
    let mut drain = Drain::drain_vmnet_to_socket();
    let mut ops = Vec::new();
    let mut taken = Vec::new();
    let mut at = 0;
    while let Some(op) = drain.current() {
        ops.push(op);
        let (status, count, size, written) = rounds[at];
        match op {
            DrainOp::Read => drain.read(status, count, size),
            DrainOp::Write { size } => {
                assert!(!drain.written(written, Some(35), 35));
                if written >= 0 {
                    taken.push(size);
                }
                at += 1;
            }
        }
    }
    (ops, taken)
}

#[test]
fn everything_that_waits_is_drained() {
    let (ops, taken) =
        drained(&[(1000, 1, 60, 60), (1000, 1, 1514, 1514), (1000, 0, 9, 0), (1000, 1, 7, 7)]);
    assert_eq!(taken, [60, 1514]);
    assert_eq!(
        ops,
        [
            DrainOp::Read,
            DrainOp::Write { size: 60 },
            DrainOp::Read,
            DrainOp::Write { size: 1514 },
            DrainOp::Read,
        ]
    );
    assert_eq!(drained(&[(1001, 1, 60, 60)]), (vec![DrainOp::Read], vec![]));
}

#[test]
fn a_failed_write_ends_the_drain() {
    let (ops, taken) = drained(&[(1000, 1, 60, 60), (1000, 1, 42, -1), (1000, 1, 7, 7)]);
    assert_eq!(taken, [60]);
    assert_eq!(ops.len(), 4);
    assert_eq!(ops[3], DrainOp::Write { size: 42 });
}

#[test]
fn which_failed_writes_are_worth_a_warning() {
    let sent = |written: isize, code: Option<i32>| {
        let mut drain = Drain::drain_vmnet_to_socket();
        drain.read(1000, 1, 60);
        let warn = drain.sent(written, code);
        (warn, drain.current())
    };
    assert_eq!(sent(60, None), (false, Some(DrainOp::Read)));
    assert_eq!(sent(-1, Some(libc::EAGAIN)), (false, None));
    assert_eq!(sent(-1, Some(libc::EBADF)), (true, None));
    assert_eq!(sent(-1, None), (true, None));
}

#[test]
fn packets_from_the_socket() {
    let mut pump = Pump::pump_socket_to_vmnet();
    for (size, status) in [(60, 1000), (1514, 1001), (1, 1000)] {
        assert_eq!(pump.current(), Some(PumpOp::Receive));
        pump.received(size);
        assert_eq!(pump.current(), Some(PumpOp::Forward { size: size as usize }));
        assert_eq!(pump.forwarded(status), status != 1000);
    }
    assert_eq!(pump.current(), Some(PumpOp::Receive));
    pump.received(0);
    assert_eq!(pump.current(), None);
    let mut pump = Pump::pump_socket_to_vmnet();
    pump.received(-1);
    assert_eq!(pump.current(), None);
}
