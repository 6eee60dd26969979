//! The guest's network: starting the interface of vmnet.framework, and pumping packets between it and
//! the socket that the virtual machine monitor reads.

use crate::error;
use crate::error::Error;
use crate::text;
use vstd::prelude::*;
use vstd::string::StringExecFns;

verus! {

/// The value of a hexadecimal digit, in either case.
pub open spec fn hex_value(c: char) -> Option<nat> {
    if '0' <= c <= '9' {
        Some((c as int - 48) as nat)
    } else if 'a' <= c <= 'f' {
        Some((c as int - 87) as nat)
    } else if 'A' <= c <= 'F' {
        Some((c as int - 55) as nat)
    } else {
        None
    }
}

/// Whether every character is a hexadecimal digit.
pub open spec fn is_hex(s: Seq<char>) -> bool {
    forall|i: int| 0 <= i < s.len() ==> hex_value(#[trigger] s[i]) is Some
}

/// The number that hexadecimal digits write.
pub open spec fn hex_number(s: Seq<char>) -> nat
    decreases s.len(),
{
    if s.len() == 0 {
        0
    } else {
        16 * hex_number(s.drop_last()) + hex_value(s.last()).unwrap_or(0)
    }
}

/// The digits of a number, behind the plus sign that may stand in front of them.
pub open spec fn unsigned_digits(s: Seq<char>) -> Seq<char> {
    if s.len() > 0 && s.first() == '+' {
        s.drop_first()
    } else {
        s
    }
}

/// The byte that a text writes in hexadecimal, if it writes one.
pub open spec fn hex_octet(s: Seq<char>) -> Option<u8> {
    let digits = unsigned_digits(s);
    if digits.len() > 0 && is_hex(digits) && hex_number(digits) <= 255 {
        Some(hex_number(digits) as u8)
    } else {
        None
    }
}

fn hex_digit_value(c: char) -> (r: Option<u32>)
    ensures
        match r {
            Some(v) => hex_value(c) == Some(v as nat) && v < 16,
            None => hex_value(c) is None,
        },
{
    if '0' <= c && c <= '9' {
        Some(c as u32 - 48)
    } else if 'a' <= c && c <= 'f' {
        Some(c as u32 - 87)
    } else if 'A' <= c && c <= 'F' {
        Some(c as u32 - 55)
    } else {
        None
    }
}

/// The byte that a text writes in hexadecimal, if it writes one.
pub fn parse_hex_octet(s: &str) -> (r: Option<u8>)
    ensures
        r == hex_octet(s@),
{
    let v = text::chars_of(s);
    let n: usize = v.len();
    let start: usize = if n > 0 && v[0] == '+' {
        1
    } else {
        0
    };
    let ghost digits = unsigned_digits(s@);
    assert(digits =~= v@.skip(start as int));
    if start == n {
        return None;
    }
    let mut i: usize = start;
    // The number so far, as long as it is below 256, else 256.
    let mut acc: u32 = 0;
    assert(digits.take(0) =~= Seq::empty());
    while i < n
        invariant
            start <= i <= n == v@.len(),
            digits == unsigned_digits(s@),
            digits == v@.skip(start as int),
            is_hex(digits.take(i - start)),
            acc <= 256,
            acc < 256 ==> acc == hex_number(digits.take(i - start)),
            acc == 256 ==> hex_number(digits.take(i - start)) >= 256,
        decreases n - i,
    {
        let ghost before = digits.take(i - start);
        assert(digits[i - start] == v@[i as int]);
        match hex_digit_value(v[i]) {
            None => {
                assert(hex_value(digits[i - start]) is None);
                return None;
            },
            Some(d) => {
                let next: u32 = acc * 16 + d;
                acc = if next < 256 {
                    next
                } else {
                    256
                };
            },
        }
        i = i + 1;
        let ghost now = digits.take(i - start);
        assert(now.drop_last() =~= before);
        assert(now.last() == digits[i - 1 - start]);
        assert forall|j: int| 0 <= j < now.len() implies hex_value(#[trigger] now[j]) is Some by {
            if j < before.len() {
                assert(before[j] == now[j]);
            }
        }
    }
    assert(digits.take(n - start) =~= digits);
    if acc < 256 {
        Some(acc as u8)
    } else {
        None
    }
}

/// The byte of a hardware address at `i`: what the part at `i` writes, or zero.
pub open spec fn mac_byte(s: Seq<char>, i: int) -> u8 {
    let parts = text::split(s, ':');
    if i < parts.len() {
        match hex_octet(parts[i]) {
            Some(b) => b,
            None => 0,
        }
    } else {
        0
    }
}

/// The hardware address that a text writes: six bytes in hexadecimal, parted by colons.  What is not
/// such a byte counts as zero, and what follows the sixth part is ignored.
pub fn parse_mac(s: &str) -> (mac: [u8; 6])
    ensures
        forall|i: int| 0 <= i < 6 ==> mac@[i] == mac_byte(s@, i),
{
    let parts = text::split_text(s, ':');
    let ghost model = text::split(s@, ':');
    let mut mac: [u8; 6] = [0u8;6];
    let mut i: usize = 0;
    while i < 6
        invariant
            i <= 6,
            model == text::split(s@, ':'),
            text::texts(parts@) == model,
            forall|j: int| 0 <= j < i ==> mac@[j] == mac_byte(s@, j),
            forall|j: int| i <= j < 6 ==> mac@[j] == 0,
        decreases 6 - i,
    {
        assert(text::texts(parts@).len() == parts@.len());
        if i < parts.len() {
            assert(text::texts(parts@)[i as int] == parts@[i as int]@);
            if let Some(b) = parse_hex_octet(parts[i].as_str()) {
                mac[i] = b;
            }
        }
        i = i + 1;
    }
    mac
}

/// A byte in hexadecimal, with two digits.
pub open spec fn octet_text(b: u8) -> Seq<char> {
    seq![text::digit_char((b / 16) as nat), text::digit_char((b % 16) as nat)]
}

/// Bytes in hexadecimal, parted by colons.
pub open spec fn octets_text(bytes: Seq<u8>) -> Seq<char>
    decreases bytes.len(),
{
    if bytes.len() == 0 {
        Seq::empty()
    } else if bytes.len() == 1 {
        octet_text(bytes[0])
    } else {
        octets_text(bytes.drop_last()).push(':') + octet_text(bytes.last())
    }
}

proof fn lemma_octet_is_read_back(b: u8)
    ensures
        hex_octet(octet_text(b)) == Some(b),
        !octet_text(b).contains(':'),
{
    let s = octet_text(b);
    let high = (b / 16) as nat;
    let low = (b % 16) as nat;
    assert(hex_value(s[0]) == Some(high));
    assert(hex_value(s[1]) == Some(low));
    assert(unsigned_digits(s) == s);
    assert(s.drop_last() =~= seq![s[0]]);
    assert(s.drop_last().drop_last() =~= Seq::<char>::empty());
    assert(hex_number(s.drop_last().drop_last()) == 0);
    assert(hex_number(s.drop_last()) == high);
    assert(hex_number(s) == 16 * high + low);
}

proof fn lemma_octets_split(bytes: Seq<u8>)
    requires
        bytes.len() > 0,
    ensures
        text::split(octets_text(bytes), ':') == bytes.map_values(|b: u8| octet_text(b)),
    decreases bytes.len(),
{
    lemma_octet_is_read_back(bytes.last());
    text::lemma_split_single(octet_text(bytes.last()), ':');
    if bytes.len() == 1 {
        assert(bytes.map_values(|b: u8| octet_text(b)) =~= seq![octet_text(bytes[0])]);
    } else {
        lemma_octets_split(bytes.drop_last());
        text::lemma_split_concat(octets_text(bytes.drop_last()), ':', octet_text(bytes.last()));
        assert(bytes.map_values(|b: u8| octet_text(b)) =~= bytes.drop_last().map_values(
            |b: u8| octet_text(b),
        ) + seq![octet_text(bytes.last())]);
    }
}

/// The text of a hardware address is read back as that address, and what stands behind its sixth byte
/// does not matter.
pub proof fn law_hardware_addresses_are_read_back(bytes: Seq<u8>, i: int)
    requires
        bytes.len() >= 6,
        0 <= i < 6,
    ensures
        mac_byte(octets_text(bytes), i) == bytes[i],
{
    lemma_octets_split(bytes);
    lemma_octet_is_read_back(bytes[i]);
}

/// What vmnet.framework says of an interface that it started.
#[derive(Clone, Copy, Debug)]
pub struct StartParams {
    pub mac: [u8; 6],
    pub mtu: u16,
    pub max_packet_size: usize,
}

/// Reads what vmnet.framework says of an interface: the hardware address as text, if it has one, and
/// two numbers, of which those low bits count that fit.
pub fn parse_start_params(mac: Option<&str>, mtu: u64, max_packet_size: u64) -> (p: StartParams)
    ensures
        forall|i: int|
            0 <= i < 6 ==> p.mac@[i] == (match mac {
                Some(s) => mac_byte(s@, i),
                None => 0,
            }),
        p.mtu == mtu % 0x1_0000,
        p.max_packet_size == max_packet_size as usize,
{
    assert(mtu as u16 == mtu % 0x1_0000) by (bit_vector);
    StartParams {
        mac: match mac {
            Some(s) => parse_mac(s),
            None => [0u8;6],
        },
        mtu: mtu as u16,
        max_packet_size: max_packet_size as usize,
    }
}

/// What the functions of vmnet.framework return where they succeed.
pub const VMNET_SUCCESS: u32 = 1000;

/// The mode of an interface that shares the network of the host.
pub const VMNET_SHARED_MODE: u64 = 1001;

/// The size that is asked for the buffers of both sockets, in bytes.
pub const SOCKET_BUFFER: i32 = 4_194_304;

/// Whether a function of vmnet.framework succeeded.
pub fn succeeded(status: u32) -> (b: bool)
    ensures
        b == (status == VMNET_SUCCESS),
{
    status == VMNET_SUCCESS
}

/// One end of the pair of sockets.
#[derive(Clone, Copy, PartialEq, Eq, Structural, Debug)]
pub enum End {
    /// The end that the packets are pumped through.
    Pump,
    /// The end that the virtual machine monitor gets.
    Guest,
}

/// One of the buffers of a socket.
#[derive(Clone, Copy, PartialEq, Eq, Structural, Debug)]
pub enum Buffer {
    Sending,
    Receiving,
}

/// An operation that starting or stopping the network asks of the host.
#[derive(Clone, Copy, PartialEq, Eq, Structural, Debug)]
pub enum NetOp {
    /// `socketpair`, for datagrams.
    PairSockets,
    /// `setsockopt`, for the size of a buffer.
    SizeBuffer { end: End, buffer: Buffer, bytes: i32 },
    /// `dispatch_queue_create`.
    CreateQueue,
    /// `xpc_dictionary_create`.
    CreateDescription,
    /// `xpc_dictionary_set_uint64`, for the mode of the interface.
    DescribeMode { mode: u64 },
    /// `vmnet_start_interface`.
    StartInterface,
    /// `xpc_release`.
    ReleaseDescription,
    /// Waiting for the answer to `vmnet_start_interface`.
    AwaitStart,
    /// `vmnet_interface_set_event_callback`.
    SetEventCallback,
    /// Starting the thread that pumps packets from the socket to the interface.
    SpawnPump,
    /// Closing the pump's end of the pair of sockets.
    ClosePump,
    /// Waiting for the thread that pumps packets.
    JoinPump,
    /// `vmnet_stop_interface`, and waiting for the answer to it.
    StopInterface,
    /// `dispatch_release`.
    ReleaseQueue,
}

/// What came of an operation.
pub enum NetEvent<S> {
    Done,
    /// The operation was to give an object and gave none.
    Null,
    /// The operation failed for this reason.
    Failed(S),
    /// A function of vmnet.framework returned this.
    Status(u32),
    /// The interface was started, with these parameters.
    Started(StartParams),
}

impl View for NetEvent<String> {
    type V = NetEvent<Seq<char>>;

    open spec fn view(&self) -> NetEvent<Seq<char>> {
        match self {
            NetEvent::Done => NetEvent::Done,
            NetEvent::Null => NetEvent::Null,
            NetEvent::Failed(cause) => NetEvent::Failed(cause@),
            NetEvent::Status(status) => NetEvent::Status(*status),
            NetEvent::Started(params) => NetEvent::Started(*params),
        }
    }
}

/// How far the start of the network has come.
#[derive(Clone, Copy, PartialEq, Eq, Structural, Debug)]
pub enum NetStage {
    Pairing,
    /// The buffers of the sockets are sized, of which so many have been.
    Sizing(u8),
    Queueing,
    Describing,
    ChoosingMode,
    Starting,
    /// The description is released, and whether the interface was given is known.
    Undescribing { given: bool },
    Awaiting,
    Listening,
    Spawning,
    /// The interface is stopped because its events cannot be listened to.
    Stopping,
    /// The queue is released because the start failed.
    Unqueueing,
    Failed,
    Running,
}

/// The operation of a stage, where it has one.
pub open spec fn op_of(stage: NetStage) -> Option<NetOp> {
    match stage {
        NetStage::Pairing => Some(NetOp::PairSockets),
        NetStage::Sizing(done) => Some(
            NetOp::SizeBuffer {
                end: if done < 2 {
                    End::Pump
                } else {
                    End::Guest
                },
                buffer: if done % 2 == 0 {
                    Buffer::Sending
                } else {
                    Buffer::Receiving
                },
                bytes: SOCKET_BUFFER,
            },
        ),
        NetStage::Queueing => Some(NetOp::CreateQueue),
        NetStage::Describing => Some(NetOp::CreateDescription),
        NetStage::ChoosingMode => Some(NetOp::DescribeMode { mode: VMNET_SHARED_MODE }),
        NetStage::Starting => Some(NetOp::StartInterface),
        NetStage::Undescribing { given } => Some(NetOp::ReleaseDescription),
        NetStage::Awaiting => Some(NetOp::AwaitStart),
        NetStage::Listening => Some(NetOp::SetEventCallback),
        NetStage::Spawning => Some(NetOp::SpawnPump),
        NetStage::Stopping => Some(NetOp::StopInterface),
        NetStage::Unqueueing => Some(NetOp::ReleaseQueue),
        NetStage::Failed => None,
        NetStage::Running => None,
    }
}

/// Whether the operation of a stage can come to an event.
pub open spec fn can_come(stage: NetStage, event: NetEvent<Seq<char>>) -> bool {
    match stage {
        NetStage::Pairing => event is Done || event is Failed,
        NetStage::Sizing(done) => event is Done || event is Failed,
        NetStage::Queueing => event is Done || event is Null,
        NetStage::Describing => event is Done || event is Null,
        NetStage::ChoosingMode => event is Done,
        NetStage::Starting => event is Done || event is Null,
        NetStage::Undescribing { given } => event is Done,
        NetStage::Awaiting => match event {
            NetEvent::Status(status) => status != VMNET_SUCCESS,
            NetEvent::Started(_) => true,
            _ => false,
        },
        NetStage::Listening => event is Status,
        NetStage::Spawning => event is Done || event is Failed,
        NetStage::Stopping => event is Done,
        NetStage::Unqueueing => event is Done,
        NetStage::Failed => false,
        NetStage::Running => false,
    }
}

/// The stage that follows a stage whose operation came to an event.
pub open spec fn next_stage(stage: NetStage, event: NetEvent<Seq<char>>) -> NetStage {
    match stage {
        NetStage::Pairing => if event is Failed {
            NetStage::Failed
        } else {
            NetStage::Sizing(0)
        },
        NetStage::Sizing(done) => if done < 3 {
            NetStage::Sizing((done + 1) as u8)
        } else {
            NetStage::Queueing
        },
        NetStage::Queueing => if event is Null {
            NetStage::Failed
        } else {
            NetStage::Describing
        },
        NetStage::Describing => if event is Null {
            NetStage::Failed
        } else {
            NetStage::ChoosingMode
        },
        NetStage::ChoosingMode => NetStage::Starting,
        NetStage::Starting => NetStage::Undescribing { given: event is Done },
        NetStage::Undescribing { given } => if given {
            NetStage::Awaiting
        } else {
            NetStage::Unqueueing
        },
        NetStage::Awaiting => if event is Started {
            NetStage::Listening
        } else {
            NetStage::Unqueueing
        },
        NetStage::Listening => if event == NetEvent::<Seq<char>>::Status(VMNET_SUCCESS) {
            NetStage::Spawning
        } else {
            NetStage::Stopping
        },
        NetStage::Spawning => if event is Failed {
            NetStage::Failed
        } else {
            NetStage::Running
        },
        NetStage::Stopping => NetStage::Unqueueing,
        NetStage::Unqueueing => NetStage::Failed,
        NetStage::Failed => NetStage::Failed,
        NetStage::Running => NetStage::Running,
    }
}

/// The error that an event means for the start, if it means one.
pub open spec fn net_error(stage: NetStage, event: NetEvent<Seq<char>>) -> Option<Seq<char>> {
    match (stage, event) {
        (NetStage::Pairing, NetEvent::Failed(cause)) => Some(
            error::within("socketpair"@, cause),
        ),
        (NetStage::Queueing, NetEvent::Null) => Some("dispatch_queue_create returned NULL"@),
        (NetStage::Describing, NetEvent::Null) => Some("xpc_dictionary_create returned NULL"@),
        (NetStage::Starting, NetEvent::Null) => Some("vmnet_start_interface returned NULL"@),
        (NetStage::Awaiting, NetEvent::Status(status)) => Some(
            "vmnet_start_interface failed: status "@ + text::decimal(status as nat)
                + " (macOS 26+ is required for unprivileged vmnet)"@,
        ),
        (NetStage::Listening, NetEvent::Status(status)) => if status != VMNET_SUCCESS {
            Some(
                "vmnet_interface_set_event_callback failed: "@ + text::decimal(status as nat),
            )
        } else {
            None
        },
        (NetStage::Spawning, NetEvent::Failed(cause)) => Some(
            error::within("spawn vmnet pump thread"@, cause),
        ),
        _ => None,
    }
}

/// Whether a stage lies on the way to failure.
pub open spec fn is_failing(stage: NetStage) -> bool {
    match stage {
        NetStage::Undescribing { given } => !given,
        NetStage::Stopping => true,
        NetStage::Unqueueing => true,
        NetStage::Failed => true,
        _ => false,
    }
}

/// Whether the parameters of the interface are known in a stage that does not fail.
pub open spec fn is_started(stage: NetStage) -> bool {
    stage is Listening || stage is Spawning || stage is Running
}

/// The start of the network.
pub struct VmnetStart {
    pub stage: NetStage,
    pub error: Option<Error>,
    pub params: Option<StartParams>,
}

impl VmnetStart {
    /// Whether the parts of the start fit each other.
    pub open spec fn wf(&self) -> bool {
        &&& self.error is Some <==> is_failing(self.stage)
        &&& is_started(self.stage) ==> self.params is Some
        &&& self.stage matches NetStage::Sizing(done) ==> done < 4
    }

    /// A start that is about to begin.
    pub fn start() -> (v: VmnetStart)
        ensures
            v.wf(),
            v.stage is Pairing,
            v.params is None,
    {
        VmnetStart { stage: NetStage::Pairing, error: None, params: None }
    }

    /// The operation to carry out now.  There is none once the start is over.
    pub fn current(&self) -> (op: Option<NetOp>)
        requires
            self.wf(),
        ensures
            op == op_of(self.stage),
    {
        match self.stage {
            NetStage::Pairing => Some(NetOp::PairSockets),
            NetStage::Sizing(done) => Some(
                NetOp::SizeBuffer {
                    end: if done < 2 {
                        End::Pump
                    } else {
                        End::Guest
                    },
                    buffer: if done % 2 == 0 {
                        Buffer::Sending
                    } else {
                        Buffer::Receiving
                    },
                    bytes: SOCKET_BUFFER,
                },
            ),
            NetStage::Queueing => Some(NetOp::CreateQueue),
            NetStage::Describing => Some(NetOp::CreateDescription),
            NetStage::ChoosingMode => Some(NetOp::DescribeMode { mode: VMNET_SHARED_MODE }),
            NetStage::Starting => Some(NetOp::StartInterface),
            NetStage::Undescribing { given } => Some(NetOp::ReleaseDescription),
            NetStage::Awaiting => Some(NetOp::AwaitStart),
            NetStage::Listening => Some(NetOp::SetEventCallback),
            NetStage::Spawning => Some(NetOp::SpawnPump),
            NetStage::Stopping => Some(NetOp::StopInterface),
            NetStage::Unqueueing => Some(NetOp::ReleaseQueue),
            NetStage::Failed => None,
            NetStage::Running => None,
        }
    }

    /// Takes note of what came of the current operation.
    pub fn answered(&mut self, event: NetEvent<String>)
        requires
            old(self).wf(),
            can_come(old(self).stage, event@),
        ensures
            final(self).wf(),
            final(self).stage == next_stage(old(self).stage, event@),
            match net_error(old(self).stage, event@) {
                Some(text) => final(self).error matches Some(e) && e@ == text,
                None => final(self).error == old(self).error,
            },
            final(self).params == (match event {
                NetEvent::Started(params) => Some(params),
                _ => old(self).params,
            }),
    {
        match self.stage {
            NetStage::Pairing => match event {
                NetEvent::Failed(cause) => {
                    self.error = Some(Error::of("socketpair", cause.as_str()));
                    self.stage = NetStage::Failed;
                },
                _ => {
                    self.stage = NetStage::Sizing(0);
                },
            },
            NetStage::Sizing(done) => {
                self.stage = if done < 3 {
                    NetStage::Sizing(done + 1)
                } else {
                    NetStage::Queueing
                };
            },
            NetStage::Queueing => match event {
                NetEvent::Null => {
                    self.error = Some(
                        Error::new("dispatch_queue_create returned NULL".to_owned()),
                    );
                    self.stage = NetStage::Failed;
                },
                _ => {
                    self.stage = NetStage::Describing;
                },
            },
            NetStage::Describing => match event {
                NetEvent::Null => {
                    self.error = Some(
                        Error::new("xpc_dictionary_create returned NULL".to_owned()),
                    );
                    self.stage = NetStage::Failed;
                },
                _ => {
                    self.stage = NetStage::ChoosingMode;
                },
            },
            NetStage::ChoosingMode => {
                self.stage = NetStage::Starting;
            },
            NetStage::Starting => match event {
                NetEvent::Null => {
                    self.error = Some(
                        Error::new("vmnet_start_interface returned NULL".to_owned()),
                    );
                    self.stage = NetStage::Undescribing { given: false };
                },
                _ => {
                    self.stage = NetStage::Undescribing { given: true };
                },
            },
            NetStage::Undescribing { given } => {
                self.stage = if given {
                    NetStage::Awaiting
                } else {
                    NetStage::Unqueueing
                };
            },
            NetStage::Awaiting => match event {
                NetEvent::Started(params) => {
                    self.params = Some(params);
                    self.stage = NetStage::Listening;
                },
                NetEvent::Status(status) => {
                    self.error = Some(
                        Error::new(
                            "vmnet_start_interface failed: status ".to_owned().concat(
                                text::decimal_text(status as u64).as_str(),
                            ).concat(" (macOS 26+ is required for unprivileged vmnet)"),
                        ),
                    );
                    self.stage = NetStage::Unqueueing;
                },
                _ => {},
            },
            NetStage::Listening => match event {
                NetEvent::Status(status) => {
                    if status == VMNET_SUCCESS {
                        self.stage = NetStage::Spawning;
                    } else {
                        self.error = Some(
                            Error::new(
                                "vmnet_interface_set_event_callback failed: ".to_owned().concat(
                                    text::decimal_text(status as u64).as_str(),
                                ),
                            ),
                        );
                        self.stage = NetStage::Stopping;
                    }
                },
                _ => {},
            },
            NetStage::Spawning => match event {
                NetEvent::Failed(cause) => {
                    self.error = Some(Error::of("spawn vmnet pump thread", cause.as_str()));
                    self.stage = NetStage::Failed;
                },
                _ => {
                    self.stage = NetStage::Running;
                },
            },
            NetStage::Stopping => {
                self.stage = NetStage::Unqueueing;
            },
            NetStage::Unqueueing => {
                self.stage = NetStage::Failed;
            },
            NetStage::Failed => {},
            NetStage::Running => {},
        }
    }

    /// The parameters of the interface, or why the network could not be started.
    pub fn finish(self) -> (r: Result<StartParams, Error>)
        requires
            self.wf(),
            self.stage is Running || self.stage is Failed,
        ensures
            self.stage is Running ==> r is Ok && self.params == Some(r->Ok_0),
            self.stage is Failed ==> r is Err && self.error == Some(r->Err_0),
    {
        match self.error {
            Some(e) => Err(e),
            None => Ok(self.params.unwrap()),
        }
    }
}

/// The operations that stop a running network, in their order.
pub open spec fn stopping_ops() -> Seq<NetOp> {
    seq![NetOp::ClosePump, NetOp::JoinPump, NetOp::StopInterface, NetOp::ReleaseQueue]
}

/// The operations that stop a running network, in their order: first those that end the pump, then
/// those that end the interface.
pub fn stop_vmnet() -> (ops: Vec<NetOp>)
    ensures
        ops@ == stopping_ops(),
{
    let mut ops: Vec<NetOp> = Vec::new();
    ops.push(NetOp::ClosePump);
    ops.push(NetOp::JoinPump);
    ops.push(NetOp::StopInterface);
    ops.push(NetOp::ReleaseQueue);
    assert(ops@ =~= stopping_ops());
    ops
}

/// The objects that exist while the network is started, runs and is stopped.
pub struct NetObjects {
    pub queue: bool,
    pub description: bool,
    /// Whether the interface runs, or is about to.
    pub interface: bool,
    pub pump: bool,
}

/// What exists before the network is started.
pub open spec fn no_objects() -> NetObjects {
    NetObjects { queue: false, description: false, interface: false, pump: false }
}

/// Whether an operation finds the objects that it takes, and takes none away that another one needs:
/// the queue is released only when no interface runs on it.
pub open spec fn op_fits(op: NetOp, objects: NetObjects) -> bool {
    match op {
        NetOp::CreateQueue => !objects.queue,
        NetOp::CreateDescription => !objects.description,
        NetOp::DescribeMode { mode } => objects.description,
        NetOp::StartInterface => objects.description && objects.queue && !objects.interface,
        NetOp::ReleaseDescription => objects.description,
        NetOp::AwaitStart => objects.interface && objects.queue,
        NetOp::SetEventCallback => objects.interface && objects.queue,
        NetOp::SpawnPump => objects.interface && !objects.pump,
        NetOp::JoinPump => objects.pump,
        NetOp::StopInterface => objects.interface && objects.queue && !objects.pump,
        NetOp::ReleaseQueue => objects.queue && !objects.interface,
        _ => true,
    }
}

/// The objects after an operation that came to an event.
pub open spec fn objects_next(
    objects: NetObjects,
    op: NetOp,
    event: NetEvent<Seq<char>>,
) -> NetObjects {
    match op {
        NetOp::CreateQueue => NetObjects { queue: event is Done, ..objects },
        NetOp::CreateDescription => NetObjects { description: event is Done, ..objects },
        NetOp::StartInterface => NetObjects { interface: event is Done, ..objects },
        NetOp::ReleaseDescription => NetObjects { description: false, ..objects },
        NetOp::AwaitStart => NetObjects { interface: event is Started, ..objects },
        NetOp::SpawnPump => NetObjects { pump: event is Done, ..objects },
        NetOp::JoinPump => NetObjects { pump: false, ..objects },
        NetOp::StopInterface => NetObjects { interface: false, ..objects },
        NetOp::ReleaseQueue => NetObjects { queue: false, ..objects },
        _ => objects,
    }
}

/// The stage after the events of a start.
pub open spec fn stage_after(events: Seq<NetEvent<Seq<char>>>) -> NetStage
    decreases events.len(),
{
    if events.len() == 0 {
        NetStage::Pairing
    } else {
        next_stage(stage_after(events.drop_last()), events.last())
    }
}

/// Whether events can be those of a start, in their order.
pub open spec fn is_course(events: Seq<NetEvent<Seq<char>>>) -> bool
    decreases events.len(),
{
    events.len() == 0 || (is_course(events.drop_last()) && can_come(
        stage_after(events.drop_last()),
        events.last(),
    ))
}

/// The objects after the events of a start.
pub open spec fn objects_after(events: Seq<NetEvent<Seq<char>>>) -> NetObjects
    decreases events.len(),
{
    if events.len() == 0 {
        no_objects()
    } else {
        let before = objects_after(events.drop_last());
        match op_of(stage_after(events.drop_last())) {
            Some(op) => objects_next(before, op, events.last()),
            None => before,
        }
    }
}

/// The objects in a stage that is not over.
spec fn objects_in(stage: NetStage) -> NetObjects {
    match stage {
        NetStage::Pairing => no_objects(),
        NetStage::Sizing(_) => no_objects(),
        NetStage::Queueing => no_objects(),
        NetStage::Describing => NetObjects { queue: true, ..no_objects() },
        NetStage::ChoosingMode => NetObjects { queue: true, description: true, ..no_objects() },
        NetStage::Starting => NetObjects { queue: true, description: true, ..no_objects() },
        NetStage::Undescribing { given } => NetObjects {
            queue: true,
            description: true,
            interface: given,
            pump: false,
        },
        NetStage::Awaiting => NetObjects { queue: true, interface: true, ..no_objects() },
        NetStage::Listening => NetObjects { queue: true, interface: true, ..no_objects() },
        NetStage::Spawning => NetObjects { queue: true, interface: true, ..no_objects() },
        NetStage::Stopping => NetObjects { queue: true, interface: true, ..no_objects() },
        NetStage::Unqueueing => NetObjects { queue: true, ..no_objects() },
        NetStage::Failed => no_objects(),
        NetStage::Running => NetObjects {
            queue: true,
            interface: true,
            pump: true,
            description: false,
        },
    }
}

proof fn lemma_objects_in(events: Seq<NetEvent<Seq<char>>>)
    requires
        is_course(events),
    ensures
        !(stage_after(events) is Failed) ==> objects_after(events) == objects_in(
            stage_after(events),
        ),
        stage_after(events) is Failed ==> events.len() > 0,
    decreases events.len(),
{
    if events.len() > 0 {
        lemma_objects_in(events.drop_last());
    }
}

/// Whatever the operations of a start come to, each operation finds the objects that it takes, and the
/// queue is never released while the interface runs on it.
pub proof fn law_start_operations_fit(events: Seq<NetEvent<Seq<char>>>)
    requires
        is_course(events),
    ensures
        op_of(stage_after(events)) matches Some(op) ==> op_fits(op, objects_after(events)),
{
    lemma_objects_in(events);
}

/// A start that fails leaves no object behind, unless the description could not be created or the pump
/// could not be spawned.
pub proof fn law_failed_start_leaves_nothing(events: Seq<NetEvent<Seq<char>>>)
    requires
        is_course(events),
        stage_after(events) is Failed,
        !(stage_after(events.drop_last()) is Describing),
        !(stage_after(events.drop_last()) is Spawning),
    ensures
        objects_after(events) == no_objects(),
{
    lemma_objects_in(events);
    lemma_objects_in(events.drop_last());
}

/// The objects after the first `k` operations that stop a running network.
pub open spec fn objects_stopping(objects: NetObjects, k: nat) -> NetObjects
    decreases k,
{
    if k == 0 {
        objects
    } else {
        objects_next(
            objects_stopping(objects, (k - 1) as nat),
            stopping_ops()[k - 1],
            NetEvent::Done,
        )
    }
}

/// Stopping a running network finds every object that it takes, ends the pump before the interface and
/// the interface before the queue, and leaves nothing behind.
pub proof fn law_stop_leaves_nothing(events: Seq<NetEvent<Seq<char>>>, k: nat)
    requires
        is_course(events),
        stage_after(events) is Running,
    ensures
        k < stopping_ops().len() ==> op_fits(
            stopping_ops()[k as int],
            objects_stopping(objects_after(events), k),
        ),
        objects_stopping(objects_after(events), stopping_ops().len()) == no_objects(),
{
    lemma_objects_in(events);
    reveal_with_fuel(objects_stopping, 5);
}

/// The packet that the interface gave, if it gave one, as far as its size goes.
pub open spec fn packet_given(status: u32, count: i32, size: usize) -> Option<usize> {
    if status == VMNET_SUCCESS && count >= 1 {
        Some(size)
    } else {
        None
    }
}

/// How many of the bytes that the interface gave are to be sent on, if it gave a packet.
pub fn packet_read(status: u32, count: i32, size: usize) -> (r: Option<usize>)
    ensures
        r == packet_given(status, count, size),
{
    if status != VMNET_SUCCESS || count < 1 {
        None
    } else {
        Some(size)
    }
}

/// What follows when a packet has been written to the socket.
#[derive(Clone, Copy, PartialEq, Eq, Structural, Debug)]
pub enum AfterWrite {
    /// The next packet is read.
    GoOn,
    /// The socket takes no more for now.
    Stop,
    /// The write failed, which is worth a warning.
    StopAndWarn,
}

/// Whether there is a platform where this is the code of the error that an operation would block: it is
/// 35 on macOS and the BSDs, and 11 on Linux and most others.
pub open spec fn can_mean_blocked(code: i32) -> bool {
    ||| code == 35
    ||| code == 11
    ||| code == 6
    ||| code == 36
    ||| code == 1073741859
    ||| code == -2147483637
}

/// The constant `EAGAIN` of libc: the code of the error that an operation would block.  It has one of
/// these values, on every platform that libc knows; which of them it is depends on the platform.
#[verifier::external_body]
fn eagain() -> (code: i32)
    ensures
        can_mean_blocked(code),
{
    libc::EAGAIN
}

/// What follows a write that returned `written`, and that left the error `code` where it failed, if
/// `blocked` is the code of the error that an operation would block.
pub open spec fn write_verdict(written: isize, code: Option<i32>, blocked: i32) -> AfterWrite {
    if written >= 0 {
        AfterWrite::GoOn
    } else if code == Some(blocked) {
        AfterWrite::Stop
    } else {
        AfterWrite::StopAndWarn
    }
}

/// What follows a write that returned `written`, and that left the error `code` where it failed, if
/// `blocked` is the code of the error that an operation would block.
pub fn judge_write(written: isize, code: Option<i32>, blocked: i32) -> (r: AfterWrite)
    ensures
        r == write_verdict(written, code, blocked),
{
    if written >= 0 {
        AfterWrite::GoOn
    } else {
        match code {
            Some(c) => if c == blocked {
                AfterWrite::Stop
            } else {
                AfterWrite::StopAndWarn
            },
            None => AfterWrite::StopAndWarn,
        }
    }
}

/// An operation of the drain that hands packets from the interface to the socket.
#[derive(Clone, Copy, PartialEq, Eq, Structural, Debug)]
pub enum DrainOp {
    /// `vmnet_read`, of one packet.
    Read,
    /// `write`, of so many of the bytes that were read, to the socket.
    Write { size: usize },
}

/// Where the drain stands.
#[derive(Clone, Copy, PartialEq, Eq, Structural, Debug)]
pub enum DrainStage {
    Reading,
    Writing { size: usize },
    Over,
}

/// The operation of a stage, where it has one.
pub open spec fn drain_op(stage: DrainStage) -> Option<DrainOp> {
    match stage {
        DrainStage::Reading => Some(DrainOp::Read),
        DrainStage::Writing { size } => Some(DrainOp::Write { size }),
        DrainStage::Over => None,
    }
}

/// The stage after the interface gave this: a packet of so many bytes, or nothing.
pub open spec fn after_reading(status: u32, count: i32, size: usize) -> DrainStage {
    match packet_given(status, count, size) {
        Some(size) => DrainStage::Writing { size },
        None => DrainStage::Over,
    }
}

/// The stage after a write that returned `written`.  Once a write has failed, nothing more is read.
pub open spec fn after_writing(written: isize) -> DrainStage {
    if written >= 0 {
        DrainStage::Reading
    } else {
        DrainStage::Over
    }
}

/// The drain that hands every packet that the interface holds to the socket.
pub struct Drain {
    pub stage: DrainStage,
}

impl Drain {
    /// A drain that is about to begin.
    pub fn drain_vmnet_to_socket() -> (d: Drain)
        ensures
            d.stage is Reading,
    {
        Drain { stage: DrainStage::Reading }
    }

    /// The operation to carry out now.  There is none once the drain has come to its end.
    pub fn current(&self) -> (op: Option<DrainOp>)
        ensures
            op == drain_op(self.stage),
    {
        match self.stage {
            DrainStage::Reading => Some(DrainOp::Read),
            DrainStage::Writing { size } => Some(DrainOp::Write { size }),
            DrainStage::Over => None,
        }
    }

    /// Takes note of what the interface gave.
    pub fn read(&mut self, status: u32, count: i32, size: usize)
        requires
            old(self).stage is Reading,
        ensures
            final(self).stage == after_reading(status, count, size),
    {
        self.stage = match packet_read(status, count, size) {
            Some(size) => DrainStage::Writing { size },
            None => DrainStage::Over,
        };
    }

    /// Takes note of a write that returned `written`, and that left the error `code` where it failed, if
    /// `blocked` is the code of the error that an operation would block.  Tells whether that is worth a
    /// warning.
    pub fn written(&mut self, written: isize, code: Option<i32>, blocked: i32) -> (warn: bool)
        requires
            old(self).stage is Writing,
        ensures
            final(self).stage == after_writing(written),
            warn == (write_verdict(written, code, blocked) is StopAndWarn),
    {
        match judge_write(written, code, blocked) {
            AfterWrite::GoOn => {
                self.stage = DrainStage::Reading;
                false
            },
            AfterWrite::Stop => {
                self.stage = DrainStage::Over;
                false
            },
            AfterWrite::StopAndWarn => {
                self.stage = DrainStage::Over;
                true
            },
        }
    }

    /// Takes note of a write that returned `written`, and that left the error `code` where it failed.
    /// Tells whether that is worth a warning: which error is not, because it means that the socket takes
    /// no more for now, depends on the platform.
    pub fn sent(&mut self, written: isize, code: Option<i32>) -> (warn: bool)
        requires
            old(self).stage is Writing,
        ensures
            final(self).stage == after_writing(written),
            exists|blocked: i32|
                can_mean_blocked(blocked) && warn == (#[trigger] write_verdict(
                    written,
                    code,
                    blocked,
                ) is StopAndWarn),
    {
        let blocked: i32 = eagain();
        let warn = self.written(written, code, blocked);
        assert(warn == (write_verdict(written, code, blocked) is StopAndWarn));
        warn
    }
}

/// What the interface gives for a read, and what the write of the packet returns, if there is one.
pub struct DrainRound {
    pub status: u32,
    pub count: i32,
    pub size: usize,
    pub written: isize,
}

impl DrainRound {
    /// Whether the interface gives a packet.
    pub open spec fn gives(self) -> bool {
        packet_given(self.status, self.count, self.size) is Some
    }
}

/// What a drain has carried out, and where it stands.
pub struct DrainCourse {
    pub ops: Seq<DrainOp>,
    /// The packets that the socket took, as far as their sizes go.
    pub taken: Seq<usize>,
    pub stage: DrainStage,
}

/// The course of a drain in these rounds.
pub open spec fn drain_course(rounds: Seq<DrainRound>) -> DrainCourse
    decreases rounds.len(),
{
    if rounds.len() == 0 {
        DrainCourse { ops: Seq::empty(), taken: Seq::empty(), stage: DrainStage::Reading }
    } else {
        let before = drain_course(rounds.drop_last());
        let round = rounds.last();
        match drain_op(before.stage) {
            None => before,
            Some(op) => {
                let ops = before.ops.push(op);
                let stage = after_reading(round.status, round.count, round.size);
                match drain_op(stage) {
                    Some(DrainOp::Write { size }) => DrainCourse {
                        ops: ops.push(DrainOp::Write { size }),
                        taken: if round.written >= 0 {
                            before.taken.push(size)
                        } else {
                            before.taken
                        },
                        stage: after_writing(round.written),
                    },
                    _ => DrainCourse { ops, taken: before.taken, stage },
                }
            },
        }
    }
}

/// The operations that read a packet in each round and write it.
pub open spec fn handing_on(rounds: Seq<DrainRound>) -> Seq<DrainOp>
    decreases rounds.len(),
{
    if rounds.len() == 0 {
        Seq::empty()
    } else {
        handing_on(rounds.drop_last()).push(DrainOp::Read).push(
            DrainOp::Write { size: rounds.last().size },
        )
    }
}

/// The operations of the round that ends a drain: the packet that was read, if there is one, is written
/// in vain.
pub open spec fn ending(round: DrainRound) -> Seq<DrainOp> {
    if round.gives() {
        seq![DrainOp::Read, DrainOp::Write { size: round.size }]
    } else {
        seq![DrainOp::Read]
    }
}

/// If the interface gives `k` packets that the socket takes, before it gives none or the socket fails to
/// take one, the socket has taken exactly these `k` packets, each whole, once and in its turn.  Every
/// packet that was read has been written, at its own size, before anything else was read; the drain ends
/// with the first read that gives none or the first write that fails, and not before, and reads nothing
/// after it.
pub proof fn law_drain_hands_every_packet_on(rounds: Seq<DrainRound>, k: nat)
    requires
        k <= rounds.len(),
        forall|i: int| 0 <= i < k ==> (#[trigger] rounds[i]).gives() && rounds[i].written >= 0,
        k < rounds.len() ==> !rounds[k as int].gives() || rounds[k as int].written < 0,
    ensures
        drain_course(rounds).taken == Seq::new(k, |i: int| rounds[i].size),
        drain_course(rounds).ops == handing_on(rounds.take(k as int)) + (if k < rounds.len() {
            ending(rounds[k as int])
        } else {
            Seq::empty()
        }),
        drain_course(rounds).stage is Over <==> k < rounds.len(),
        !(drain_course(rounds).stage is Writing),
    decreases rounds.len(),
{
    if rounds.len() > 0 {
        let front = rounds.drop_last();
        let before = drain_course(front);
        let round = rounds.last();
        let taken = Seq::new(k, |i: int| rounds[i].size);
        if k < rounds.len() {
            assert forall|i: int| 0 <= i < k implies (#[trigger] front[i]).gives()
                && front[i].written >= 0 by {
                assert(front[i] == rounds[i]);
            }
            law_drain_hands_every_packet_on(front, k);
            assert(taken =~= Seq::new(k, |i: int| front[i].size));
            assert(front.take(k as int) =~= rounds.take(k as int));
        } else {
            let earlier = (k - 1) as nat;
            assert forall|i: int| 0 <= i < earlier implies (#[trigger] front[i]).gives()
                && front[i].written >= 0 by {
                assert(front[i] == rounds[i]);
            }
            law_drain_hands_every_packet_on(front, earlier);
            assert(rounds[k - 1].gives());
            assert(rounds.take(k as int) =~= rounds);
            assert(front.take(earlier as int) =~= front);
            assert(taken =~= Seq::new(earlier, |i: int| front[i].size).push(round.size));
        }
    }
}

/// An operation of the pump that hands packets from the socket to the interface.
#[derive(Clone, Copy, PartialEq, Eq, Structural, Debug)]
pub enum PumpOp {
    /// `read`, from the socket.
    Receive,
    /// `vmnet_write`, of one packet that holds so many of the bytes that were received.
    Forward { size: usize },
}

/// Where the pump stands.
#[derive(Clone, Copy, PartialEq, Eq, Structural, Debug)]
pub enum PumpStage {
    Receiving,
    Forwarding { size: usize },
    Over,
}

/// The operation of a stage, where it has one.
pub open spec fn pump_op(stage: PumpStage) -> Option<PumpOp> {
    match stage {
        PumpStage::Receiving => Some(PumpOp::Receive),
        PumpStage::Forwarding { size } => Some(PumpOp::Forward { size }),
        PumpStage::Over => None,
    }
}

/// The stage after the socket gave `n`: a packet of so many bytes, or an end or an error where that is
/// not positive.
pub open spec fn after_receiving(n: isize) -> PumpStage {
    if n <= 0 {
        PumpStage::Over
    } else {
        PumpStage::Forwarding { size: n as usize }
    }
}

/// The stage after a packet was handed to the interface, which returned `status`.  A packet that the
/// interface does not take is lost, and the pump goes on.
pub open spec fn after_forwarding(status: u32) -> PumpStage {
    PumpStage::Receiving
}

/// The pump that hands packets from the socket to the interface.
pub struct Pump {
    pub stage: PumpStage,
}

impl Pump {
    /// A pump that is about to begin.
    pub fn pump_socket_to_vmnet() -> (p: Pump)
        ensures
            p.stage is Receiving,
    {
        Pump { stage: PumpStage::Receiving }
    }

    /// The operation to carry out now.  There is none once the pump has come to its end.
    pub fn current(&self) -> (op: Option<PumpOp>)
        ensures
            op == pump_op(self.stage),
    {
        match self.stage {
            PumpStage::Receiving => Some(PumpOp::Receive),
            PumpStage::Forwarding { size } => Some(PumpOp::Forward { size }),
            PumpStage::Over => None,
        }
    }

    /// Takes note of what the socket gave.
    pub fn received(&mut self, n: isize)
        requires
            old(self).stage is Receiving,
        ensures
            final(self).stage == after_receiving(n),
    {
        self.stage = if n <= 0 {
            PumpStage::Over
        } else {
            PumpStage::Forwarding { size: n as usize }
        };
    }

    /// Takes note of what the interface returned for a packet, and tells whether the packet was lost,
    /// which is worth a warning.
    pub fn forwarded(&mut self, status: u32) -> (lost: bool)
        requires
            old(self).stage is Forwarding,
        ensures
            final(self).stage == after_forwarding(status),
            lost == (status != VMNET_SUCCESS),
    {
        self.stage = PumpStage::Receiving;
        !succeeded(status)
    }
}

/// What a pump has carried out, and where it stands.
pub struct PumpCourse {
    pub ops: Seq<PumpOp>,
    pub stage: PumpStage,
}

/// The course of a pump to which the socket gave the first number of each round, and for whose packet the
/// interface returned the second.
pub open spec fn pump_course(rounds: Seq<(isize, u32)>) -> PumpCourse
    decreases rounds.len(),
{
    if rounds.len() == 0 {
        PumpCourse { ops: Seq::empty(), stage: PumpStage::Receiving }
    } else {
        let before = pump_course(rounds.drop_last());
        let (n, status) = rounds.last();
        match pump_op(before.stage) {
            None => before,
            Some(op) => {
                let ops = before.ops.push(op);
                match pump_op(after_receiving(n)) {
                    None => PumpCourse { ops, stage: after_receiving(n) },
                    Some(op) => PumpCourse { ops: ops.push(op), stage: after_forwarding(status) },
                }
            },
        }
    }
}

/// The packets that were handed to the interface, as far as their sizes go.
pub open spec fn packets_in(ops: Seq<PumpOp>) -> Seq<usize>
    decreases ops.len(),
{
    if ops.len() == 0 {
        Seq::empty()
    } else {
        match ops.last() {
            PumpOp::Receive => packets_in(ops.drop_last()),
            PumpOp::Forward { size } => packets_in(ops.drop_last()).push(size),
        }
    }
}

proof fn lemma_packets_push(ops: Seq<PumpOp>, op: PumpOp)
    ensures
        packets_in(ops.push(op)) == (match op {
            PumpOp::Receive => packets_in(ops),
            PumpOp::Forward { size } => packets_in(ops).push(size),
        }),
{
    assert(ops.push(op).drop_last() =~= ops);
}

/// If the socket gives `k` packets before it first gives none, the pump hands exactly these `k` packets
/// on, each whole, once and in its turn, whatever the interface returns: a packet that is lost takes no
/// other with it.  The pump ends with the first read that gives none, and not before.
pub proof fn law_pump_hands_every_packet_on(rounds: Seq<(isize, u32)>, k: nat)
    requires
        k <= rounds.len(),
        forall|i: int| 0 <= i < k ==> rounds[i].0 > 0,
        k < rounds.len() ==> rounds[k as int].0 <= 0,
    ensures
        packets_in(pump_course(rounds).ops) == Seq::new(k, |i: int| rounds[i].0 as usize),
        pump_course(rounds).stage is Over <==> k < rounds.len(),
        !(pump_course(rounds).stage is Forwarding),
    decreases rounds.len(),
{
    if rounds.len() > 0 {
        let front = rounds.drop_last();
        let before = pump_course(front);
        let (n, status) = rounds.last();
        let packets = Seq::new(k, |i: int| rounds[i].0 as usize);
        if k < rounds.len() {
            law_pump_hands_every_packet_on(front, k);
            assert(packets =~= Seq::new(k, |i: int| front[i].0 as usize));
            lemma_packets_push(before.ops, PumpOp::Receive);
        } else {
            let earlier = (k - 1) as nat;
            law_pump_hands_every_packet_on(front, earlier);
            assert(packets =~= Seq::new(earlier, |i: int| front[i].0 as usize).push(n as usize));
            lemma_packets_push(before.ops, PumpOp::Receive);
            lemma_packets_push(
                before.ops.push(PumpOp::Receive),
                PumpOp::Forward { size: n as usize },
            );
        }
    }
}

/// Whether the operations of a start have come to what leads on to a running network.
pub open spec fn leads_on(events: Seq<NetEvent<Seq<char>>>) -> bool {
    forall|i: int|
        0 <= i < events.len() ==> match (#[trigger] events[i]) {
            NetEvent::Done => i != 10 && i != 11,
            NetEvent::Failed(_) => 1 <= i <= 4,
            NetEvent::Started(_) => i == 10,
            NetEvent::Status(status) => i == 11 && status == 1000,
            NetEvent::Null => false,
        }
}

/// A network is started step by step: a pair of sockets is made and all four of their buffers are sized,
/// whether or not that works; a queue and a description are made; the interface shares the host's network;
/// it is started, the description is released, and the answer awaited; then its events are listened to and
/// the pump is spawned.
pub proof fn law_networks_are_started_step_by_step(events: Seq<NetEvent<Seq<char>>>)
    requires
        events.len() <= 13,
        leads_on(events),
    ensures
        is_course(events),
        op_of(stage_after(events)) == (if events.len() == 0 {
            Some(NetOp::PairSockets)
        } else if events.len() == 1 {
            Some(
                NetOp::SizeBuffer { end: End::Pump, buffer: Buffer::Sending, bytes: 4_194_304 },
            )
        } else if events.len() == 2 {
            Some(
                NetOp::SizeBuffer { end: End::Pump, buffer: Buffer::Receiving, bytes: 4_194_304 },
            )
        } else if events.len() == 3 {
            Some(
                NetOp::SizeBuffer { end: End::Guest, buffer: Buffer::Sending, bytes: 4_194_304 },
            )
        } else if events.len() == 4 {
            Some(
                NetOp::SizeBuffer { end: End::Guest, buffer: Buffer::Receiving, bytes: 4_194_304 },
            )
        } else if events.len() == 5 {
            Some(NetOp::CreateQueue)
        } else if events.len() == 6 {
            Some(NetOp::CreateDescription)
        } else if events.len() == 7 {
            Some(NetOp::DescribeMode { mode: 1001 })
        } else if events.len() == 8 {
            Some(NetOp::StartInterface)
        } else if events.len() == 9 {
            Some(NetOp::ReleaseDescription)
        } else if events.len() == 10 {
            Some(NetOp::AwaitStart)
        } else if events.len() == 11 {
            Some(NetOp::SetEventCallback)
        } else if events.len() == 12 {
            Some(NetOp::SpawnPump)
        } else {
            None
        }),
        events.len() == 13 ==> stage_after(events) is Running,
{
    lemma_leading(events);
}

proof fn lemma_leading(events: Seq<NetEvent<Seq<char>>>)
    requires
        events.len() <= 13,
        leads_on(events),
    ensures
        is_course(events),
        stage_after(events) == (if events.len() == 0 {
            NetStage::Pairing
        } else if events.len() <= 4 {
            NetStage::Sizing((events.len() - 1) as u8)
        } else if events.len() == 5 {
            NetStage::Queueing
        } else if events.len() == 6 {
            NetStage::Describing
        } else if events.len() == 7 {
            NetStage::ChoosingMode
        } else if events.len() == 8 {
            NetStage::Starting
        } else if events.len() == 9 {
            NetStage::Undescribing { given: true }
        } else if events.len() == 10 {
            NetStage::Awaiting
        } else if events.len() == 11 {
            NetStage::Listening
        } else if events.len() == 12 {
            NetStage::Spawning
        } else {
            NetStage::Running
        }),
    decreases events.len(),
{
    if events.len() > 0 {
        let front = events.drop_last();
        assert forall|i: int| 0 <= i < front.len() implies match (#[trigger] front[i]) {
            NetEvent::Done => i != 10 && i != 11,
            NetEvent::Failed(_) => 1 <= i <= 4,
            NetEvent::Started(_) => i == 10,
            NetEvent::Status(status) => i == 11 && status == 1000,
            NetEvent::Null => false,
        } by {
            assert(events[i] == front[i]);
        }
        lemma_leading(front);
        assert(events.last() == events[events.len() - 1]);
    }
}

/// What a start cannot do without ends it in an error: the pair of sockets, the queue, the description, the
/// interface, that it starts and can be listened to, and the pump.  The sizes of the buffers do not.
pub proof fn law_failed_starts_are_told(stage: NetStage, event: NetEvent<Seq<char>>)
    requires
        can_come(stage, event),
        !is_failing(stage),
    ensures
        net_error(stage, event) is Some <==> is_failing(next_stage(stage, event)),
        net_error(stage, event) is Some <==> match event {
            NetEvent::Failed(_) => !(stage is Sizing),
            NetEvent::Null => true,
            NetEvent::Status(status) => status != 1000,
            _ => false,
        },
        event is Failed && !(stage is Sizing) ==> {
            let cause = event->Failed_0;
            let e = net_error(stage, event)->0;
            e.len() > cause.len() && e.skip(e.len() - cause.len()) == cause
        },
{
    if let NetEvent::Failed(cause) = event {
        error::law_causes_are_told_whole("socketpair"@, cause);
        error::law_causes_are_told_whole("spawn vmnet pump thread"@, cause);
    }
}

/// A hexadecimal number is worth what its digits are worth: a further digit counts once, and those before it
/// sixteen times as much; zeros in front, the case of letters, and one plus sign count for nothing.
pub proof fn law_octets_are_read_digit_by_digit(s: Seq<char>, c: char, v: nat)
    requires
        s.len() > 0,
        is_hex(s),
        hex_value(c) == Some(v),
    ensures
        hex_number(s.push(c)) == 16 * hex_number(s) + v,
        hex_number(seq!['0'] + s) == hex_number(s),
        hex_octet(s) is Some <==> hex_number(s) < 256,
        hex_octet(s) matches Some(b) ==> b == hex_number(s),
        hex_octet(seq!['+'] + s) == hex_octet(s),
        v < 16,
        v == text::digit_of(c) || v == text::digit_of((c as int + 32) as char),
{
    assert(s.push(c).drop_last() =~= s);
    lemma_leading_zero(s);
    assert(hex_value(s[0]) is Some);
    assert((seq!['+'] + s).drop_first() =~= s);
}

proof fn lemma_leading_zero(s: Seq<char>)
    ensures
        hex_number(seq!['0'] + s) == hex_number(s),
    decreases s.len(),
{
    let t = seq!['0'] + s;
    if s.len() == 0 {
        assert(t.drop_last() =~= Seq::<char>::empty());
        assert(hex_number(t.drop_last()) == 0);
    } else {
        assert(t.drop_last() =~= seq!['0'] + s.drop_last());
        lemma_leading_zero(s.drop_last());
    }
}

/// The characters that are digits of a hexadecimal number are the ten digits and the first six letters, in
/// either case.  A text with any other character, one plus sign in front aside, writes no byte, and neither
/// does one without digits.
pub proof fn law_other_texts_write_no_byte(s: Seq<char>, i: int)
    ensures
        0 <= i < s.len() ==> (hex_value(s[i]) is Some <==> '0' <= s[i] <= '9' || 'a' <= s[i] <= 'f'
            || 'A' <= s[i] <= 'F'),
        0 <= i < s.len() && hex_value(s[i]) is None && !(i == 0 && s[0] == '+') ==> hex_octet(
            s,
        ) is None,
        s.len() == 0 ==> hex_octet(s) is None,
        s == seq!['+'] ==> hex_octet(s) is None,
{
    let digits = unsigned_digits(s);
    if 0 <= i < s.len() && hex_value(s[i]) is None && !(i == 0 && s[0] == '+') {
        if s.first() == '+' {
            assert(digits[i - 1] == s[i]);
        } else {
            assert(digits[i] == s[i]);
        }
    }
}

/// Each byte of a hardware address is the one that its own part of the text writes; where that part is
/// missing or writes no byte, it is zero, and the other bytes are read all the same.
pub proof fn law_bytes_of_an_address_are_read_by_themselves(s: Seq<char>, i: int)
    requires
        0 <= i < 6,
    ensures
        text::split(s, ':').len() <= i ==> mac_byte(s, i) == 0,
        i < text::split(s, ':').len() ==> match hex_octet(text::split(s, ':')[i]) {
            Some(b) => mac_byte(s, i) == b,
            None => mac_byte(s, i) == 0,
        },
{
}

/// The interface gave a packet exactly if the read succeeded and counts one, and the packet is as long as
/// was said, however long that is.
pub proof fn law_packets_are_recognised(round: DrainRound)
    ensures
        round.gives() <==> round.status == 1000 && round.count > 0,
        packet_given(round.status, round.count, round.size) matches Some(size) ==> size
            == round.size,
{
}

/// A write that succeeds lets the drain go on, however much of the packet was written; one that fails ends
/// it, with a warning unless the socket takes no more for now.
pub proof fn law_writes_are_judged(written: isize, code: Option<i32>, blocked: i32)
    ensures
        write_verdict(written, code, blocked) is GoOn <==> written >= 0,
        write_verdict(written, code, blocked) is StopAndWarn <==> written < 0 && (code is None
            || code->0 != blocked),
        after_writing(written) is Reading <==> write_verdict(written, code, blocked) is GoOn,
        after_writing(written) is Reading || after_writing(written) is Over,
{
}

} // verus!
