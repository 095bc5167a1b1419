//! The course of a trace: which probes are sent, and what becomes of them as
//! completions come in.

use crate::bytes::{native_order, ByteOrder};
use crate::in_flight::{
    slab_contains, slab_contents, slab_insert, slab_new, slab_remove, slab_span,
};
use crate::method::echo::ECHO_HEADER_LEN;
use crate::method::{
    icmp, icmpv6, law_reply_classified, law_reply_identified, Icmp, Icmpv6, Method, ProbeId,
    Replies, Reply, ReplyKind, ReplyQueue, ReplyView, SocketAddr,
};
use crate::net::{
    cmsg_header, cmsg_len, parse_ip_recverr_as, parse_sockaddr_as, recverr, recverr_control_len,
    recverr_control_room, recverr_option, recverr_option_of, sockaddr, Domain, ExtendedErrorView,
    IpAddr, SOCKADDR_IN6_LEN,
};
use crate::platform::{
    ebusy, etime, ip_ttl, ipproto_ip, ipproto_ipv6, ipv6_hoplimit, msg_errqueue, EBUSY, ETIME,
    IPPROTO_IP, IPPROTO_IPV6, IPV6_HOPLIMIT, IP_TTL, MSG_ERRQUEUE,
};
use crate::received::{
    buffer_select, has_more, more, parse_recvmsg, recvmsg_out, selected_buffer, Received,
    ReceivedView, RECVMSG_HEADER_LEN,
};
use crate::user_data::{State, UserData};
use vstd::endian::{endianness, Endian};
use vstd::prelude::*;

verus! {

/// The maximum space needed for the address a reply came from, which is
/// the size of `sockaddr_in6`.
pub const NAME_LEN: usize = SOCKADDR_IN6_LEN;

/// One probe of a trace. Times are in nanoseconds since the trace began.
#[derive(Debug, Clone, Copy, PartialEq, Eq)]
pub struct Probe {
    pub ttl: u8,
    /// When the probe was sent, once the send has completed.
    pub sent_at: Option<u64>,
    pub result: Option<HopResult>,
}

/// The answer to a probe.
#[derive(Debug, Clone, Copy, PartialEq, Eq)]
pub struct HopResult {
    /// Who answered, where that is known.
    pub source: Option<IpAddr>,
    /// The time from send to answer, in nanoseconds. Zero for an answer that
    /// came in before the completion of the send.
    pub rtt: u64,
    pub kind: ReplyKind,
}

/// What becomes of a message that was read.
#[derive(Debug, Clone, Copy, PartialEq, Eq, Structural)]
pub enum ReadOutcome {
    /// The error queue had more control data than there is room for.
    ControlTruncated,
    /// The message answers no probe that still waits for an answer.
    Dropped,
    /// The message was recorded as the answer to the probe at this position.
    Recorded { index: usize },
}

/// The reply that a message is. A message of the error queue that holds no
/// error from an ICMP message is none.
pub open spec fn reply_of(order: Endian, message: ReceivedView, err_queue: bool) -> Option<
    ReplyView,
> {
    if !err_queue {
        Some(
            ReplyView {
                source: sockaddr(order, message.name),
                quoted: message.payload,
                error: None,
            },
        )
    } else if message.control_truncated {
        None
    } else {
        match recverr(order, message.control) {
            None => None,
            Some(extended) => Some(
                ReplyView {
                    source: sockaddr(order, extended.source_bytes),
                    quoted: message.payload,
                    error: Some(extended.error),
                },
            ),
        }
    }
}

/// The probe that a reply answers: the one it identifies, if that has no answer
/// yet.
pub open spec fn answers(probes: Seq<Probe>, queue: ReplyQueue, reply: ReplyView) -> Option<usize> {
    match queue.replies.identified(reply) {
        Some(id) => if id.0 < probes.len() && probes[id.0 as int].result is None {
            Some(id.0 as usize)
        } else {
            None
        },
        None => None,
    }
}

/// The time from `sent_at` to `now`. It counts as zero while the completion of
/// the send is still to come, since the reply then overtook it.
pub open spec fn round_trip(sent_at: Option<u64>, now: u64) -> u64 {
    match sent_at {
        Some(sent_at) => if now >= sent_at {
            (now - sent_at) as u64
        } else {
            0
        },
        None => 0,
    }
}

/// The probes once a reply is taken into account.
pub open spec fn settled(
    probes: Seq<Probe>,
    queue: ReplyQueue,
    reply: ReplyView,
    now: u64,
) -> Seq<Probe> {
    match answers(probes, queue, reply) {
        Some(index) => {
            let probe = probes[index as int];
            let result = HopResult {
                source: reply.source,
                rtt: round_trip(probe.sent_at, now),
                kind: queue.replies.classified(reply),
            };
            probes.update(index as int, Probe { result: Some(result), ..probe })
        },
        None => probes,
    }
}

/// The probes once a message is taken into account.
pub open spec fn after_message(
    order: Endian,
    message: ReceivedView,
    queue: ReplyQueue,
    probes: Seq<Probe>,
    now: u64,
) -> Seq<Probe> {
    match reply_of(order, message, queue.err_queue) {
        Some(reply) => settled(probes, queue, reply, now),
        None => probes,
    }
}

/// What becomes of a message.
pub open spec fn message_outcome(
    order: Endian,
    message: ReceivedView,
    queue: ReplyQueue,
    probes: Seq<Probe>,
) -> ReadOutcome {
    if queue.err_queue && message.control_truncated {
        ReadOutcome::ControlTruncated
    } else {
        match reply_of(order, message, queue.err_queue) {
            Some(reply) => match answers(probes, queue, reply) {
                Some(index) => ReadOutcome::Recorded { index },
                None => ReadOutcome::Dropped,
            },
            None => ReadOutcome::Dropped,
        }
    }
}

/// Record a reply as the result of the probe it answers, unless that probe
/// already has one.
pub fn settle(probes: &mut Vec<Probe>, queue: &ReplyQueue, reply: &Reply<'_>, now: u64) -> (answered:
    Option<usize>)
    ensures
        answered == answers(old(probes)@, *queue, reply@),
        final(probes)@ == settled(old(probes)@, *queue, reply@, now),
{
    let index: usize = match queue.replies.identify(reply) {
        Some(id) => id.index(),
        None => {
            return None;
        },
    };
    if index >= probes.len() {
        return None;
    }
    let mut probe: Probe = probes[index];
    if probe.result.is_some() {
        return None;
    }
    let rtt: u64 = match probe.sent_at {
        Some(sent_at) => now.saturating_sub(sent_at),
        // The reply overtook the completion of the send.
        None => 0,
    };
    probe.result = Some(
        HopResult {
            source: reply.source,
            rtt,
            kind: queue.replies.classify(reply),
        },
    );
    probes.set(index, probe);
    Some(index)
}

/// Process a message that was received on a machine of the given byte order.
pub fn handle_message(
    order: ByteOrder,
    message: &Received,
    queue: &ReplyQueue,
    probes: &mut Vec<Probe>,
    now: u64,
) -> (outcome: ReadOutcome)
    ensures
        outcome == message_outcome(order@, message@, *queue, old(probes)@),
        final(probes)@ == after_message(order@, message@, *queue, old(probes)@, now),
{
    let answered: Option<usize> = if queue.err_queue {
        if message.control_truncated {
            return ReadOutcome::ControlTruncated;
        }
        match parse_ip_recverr_as(order, message.control.as_slice()) {
            Some(extended) => {
                let reply = Reply {
                    source: parse_sockaddr_as(order, extended.source_bytes),
                    quoted: message.payload.as_slice(),
                    error: Some(extended.error),
                };
                settle(probes, queue, &reply, now)
            },
            None => None,
        }
    } else {
        let reply = Reply {
            source: parse_sockaddr_as(order, message.name.as_slice()),
            quoted: message.payload.as_slice(),
            error: None,
        };
        settle(probes, queue, &reply, now)
    };
    match answered {
        Some(index) => ReadOutcome::Recorded { index },
        None => ReadOutcome::Dropped,
    }
}

/// A multishot read kept outstanding for the whole trace.
#[derive(Debug, Clone, Copy)]
pub struct Multishot {
    pub queue: ReplyQueue,
    /// The position of the reader, which its completions name.
    pub slot: u16,
    /// The room for the name in each buffer.
    pub name_room: u32,
    /// The room for control data in each buffer.
    pub control_room: usize,
}

/// What to ask the kernel for to start a multishot read.
#[derive(Debug, Clone, Copy, PartialEq, Eq, Structural)]
pub struct ReadRequest {
    /// Flags of the `recvmsg`.
    pub flags: u32,
    pub user_data: UserData,
}

impl Multishot {
    /// The length of a buffer that holds no payload.
    pub open spec fn overhead(self) -> int {
        RECVMSG_HEADER_LEN + self.name_room + self.control_room
    }

    /// The reader of a queue: there is control data on the error queue only.
    pub open spec fn reads(self, queue: ReplyQueue, slot: u16) -> bool {
        &&& self.queue == queue
        &&& self.slot == slot
        &&& self.name_room == NAME_LEN
        &&& self.control_room == (if queue.err_queue {
            recverr_control_room()
        } else {
            0
        })
    }

    /// The request that starts the reads: it names the reader, and reads the
    /// error queue where that is what the reader is for.
    pub open spec fn requests(self, request: ReadRequest) -> bool {
        &&& request.flags == (if self.queue.err_queue {
            MSG_ERRQUEUE
        } else {
            0
        })
        &&& request.user_data.slot_of() == self.slot
        &&& request.user_data.state_bits() == State::Read.bits()
        &&& request.user_data.state_of() == State::Read
    }

    /// Plan the reads of a queue.
    pub fn new(queue: ReplyQueue, slot: u16) -> (reader: Self)
        ensures
            reader.reads(queue, slot),
    {
        let control_room: usize = if queue.err_queue {
            recverr_control_len()
        } else {
            0
        };
        Multishot { queue, slot, name_room: NAME_LEN as u32, control_room }
    }

    /// The option level and name that the reader needs set on its socket, of
    /// the given family, before it reads: the one that queues errors for a reader
    /// of the error queue, and none for any other.
    pub fn socket_option(&self, domain: Domain) -> (option: Option<(i32, i32)>)
        ensures
            option == (if self.queue.err_queue {
                Some(recverr_option_of(domain))
            } else {
                None
            }),
    {
        if self.queue.err_queue {
            Some(recverr_option(domain))
        } else {
            None
        }
    }

    /// The request for a multishot `recvmsg`.
    ///
    /// It repeatedly posts a completion. It has to be made again when a
    /// completion does not announce more.
    pub fn schedule(&self) -> (request: ReadRequest)
        ensures
            self.requests(request),
    {
        let flags: u32 = if self.queue.err_queue {
            msg_errqueue() as u32
        } else {
            0
        };
        let user_data = UserData::new().with_slot(self.slot).with_state(State::Read);
        ReadRequest { flags, user_data }
    }
}

/// The message that a reader finds in a buffer.
pub open spec fn message_in(order: Endian, buffer: Seq<u8>, reader: Multishot) -> Option<
    ReceivedView,
> {
    recvmsg_out(order, buffer, reader.name_room as int, reader.control_room as int)
}

/// Given the buffer that a successful receive filled, process the response.
///
/// Records a [`HopResult`] for the probe the reply answers, unless that probe
/// already has one.
pub fn handle_read(buffer: &[u8], reader: &Multishot, probes: &mut Vec<Probe>, now: u64) -> (outcome:
    ReadOutcome)
    requires
        buffer.len() >= reader.overhead(),
    ensures
        message_in(endianness(), buffer@, *reader) is Some,
        outcome == message_outcome(
            endianness(),
            message_in(endianness(), buffer@, *reader)->0,
            reader.queue,
            old(probes)@,
        ),
        final(probes)@ == after_message(
            endianness(),
            message_in(endianness(), buffer@, *reader)->0,
            reader.queue,
            old(probes)@,
            now,
        ),
{
    match parse_recvmsg(buffer, reader.name_room, reader.control_room) {
        Some(message) => handle_message(native_order(), &message, &reader.queue, probes, now),
        None => ReadOutcome::Dropped,
    }
}

/// The control message that sets the hop limit of one datagram.
#[derive(Debug, Clone, Copy, PartialEq, Eq, Structural)]
pub struct HopLimitControl {
    pub cmsg_len: usize,
    pub cmsg_level: i32,
    pub cmsg_type: i32,
    pub hop_limit: i32,
}

impl HopLimitControl {
    /// The control message that sets this hop limit on a socket of this family.
    pub open spec fn sets(self, domain: Domain, hop_limit: u8) -> bool {
        &&& self.cmsg_len == cmsg_header() + 4
        &&& self.hop_limit == hop_limit
        &&& match domain {
            Domain::Ipv6 => self.cmsg_level == IPPROTO_IPV6 && self.cmsg_type == IPV6_HOPLIMIT,
            Domain::Ipv4 => self.cmsg_level == IPPROTO_IP && self.cmsg_type == IP_TTL,
        }
    }

    /// The control message that sets `hop_limit` on a socket of `domain`.
    pub fn new(domain: Domain, hop_limit: u8) -> (control: Self)
        ensures
            control.sets(domain, hop_limit),
    {
        let (cmsg_level, cmsg_type) = match domain {
            Domain::Ipv6 => (ipproto_ipv6(), ipv6_hoplimit()),
            Domain::Ipv4 => (ipproto_ip(), ip_ttl()),
        };
        HopLimitControl { cmsg_len: cmsg_len(4), cmsg_level, cmsg_type, hop_limit: hop_limit as i32 }
    }
}

/// A probe ready to be sent, which must outlive the send completion.
#[derive(Debug)]
pub struct Outgoing {
    pub packet: Vec<u8>,
    pub destination: SocketAddr,
    pub control: HopLimitControl,
    pub probe: ProbeId,
    /// The slab key of the send, which its completion names.
    pub slot: u16,
    pub user_data: UserData,
}

impl Outgoing {
    /// The send of a method's probe with this hop limit.
    pub open spec fn carries<M: Method>(self, method: M, id: ProbeId, ttl: u8) -> bool {
        &&& self.packet@ == method.datagram(id)
        &&& self.destination == method.destination()
        &&& self.control.sets(method.destination().ip.domain_of(), ttl)
        &&& self.probe == id
        &&& self.user_data.slot_of() == self.slot
        &&& self.user_data.state_bits() == State::Write.bits()
        &&& self.user_data.state_of() == State::Write
    }
}

/// The probes for a range of hops, before any is sent: one for each time to
/// live from `first` to `last`.
pub open spec fn planned(first: u8, last: u8) -> Seq<Probe> {
    Seq::new(
        if first <= last {
            (last - first + 1) as nat
        } else {
            0
        },
        |i: int| Probe { ttl: (first + i) as u8, sent_at: None, result: None },
    )
}

/// Plan one probe for each hop from `first` to `last`.
pub fn plan_probes(first: u8, last: u8) -> (probes: Vec<Probe>)
    ensures
        probes@ == planned(first, last),
{
    let mut probes: Vec<Probe> = Vec::new();
    if first <= last {
        let mut ttl: u8 = first;
        while ttl < last
            invariant
                first <= ttl <= last,
                probes@ =~= planned(first, last).take(ttl - first),
            decreases last - ttl,
        {
            probes.push(Probe { ttl, sent_at: None, result: None });
            ttl = ttl + 1;
        }
        probes.push(Probe { ttl, sent_at: None, result: None });
    }
    assert(probes@ =~= planned(first, last));
    probes
}

/// The sizes of the ring and of its receive buffers.
#[derive(Debug, Clone, Copy, PartialEq, Eq, Structural)]
pub struct RingPlan {
    /// The number of requests the ring holds.
    pub entries: u32,
    /// The number of receive buffers.
    pub buffers: u16,
    /// The length of each receive buffer.
    pub buffer_len: usize,
}

/// The bytes of a receive buffer in front of the payload, at most.
pub open spec fn recvmsg_overhead() -> int {
    RECVMSG_HEADER_LEN + NAME_LEN + recverr_control_room()
}

/// Size the ring for one read per queue, one send per probe and the timeout,
/// and the buffers for replies of up to `max_reply_len` bytes. There is no plan
/// where the numbers do not fit what the kernel takes.
pub fn plan_ring(queues: usize, probes: usize, max_reply_len: usize) -> (plan: Option<RingPlan>)
    requires
        queues + probes + 1 <= usize::MAX,
        probes <= u16::MAX ==> 2 * probes <= u16::MAX,
        recvmsg_overhead() + max_reply_len <= usize::MAX,
    ensures
        match plan {
            Some(plan) => {
                &&& plan.entries == queues + probes + 1
                &&& plan.buffers == 2 * probes
                &&& plan.buffer_len == recvmsg_overhead() + max_reply_len
            },
            None => queues + probes + 1 > u32::MAX || probes > u16::MAX,
        },
{
    // One send per probe, one read per reader, plus our timeout.
    let entries: usize = queues + probes + 1;
    if entries > u32::MAX as usize || probes > u16::MAX as usize {
        return None;
    }
    // One buffer per probe in theory, but in reality we can require more if
    // buffers can't be recycled before getting queued.
    let buffers: usize = 2 * probes;
    let overhead: usize = RECVMSG_HEADER_LEN + NAME_LEN + recverr_control_len();
    Some(
        RingPlan {
            entries: entries as u32,
            buffers: buffers as u16,
            buffer_len: overhead + max_reply_len,
        },
    )
}

/// A completion that the ring posted.
#[derive(Debug, Clone, Copy)]
pub struct Completion<'a> {
    pub result: i32,
    pub flags: u32,
    pub user_data: UserData,
    /// What the request received, for a read that succeeded.
    pub buffer: &'a [u8],
}

/// What a completion calls for.
#[derive(Debug, Clone, Copy, PartialEq, Eq, Structural)]
pub struct Step {
    /// What the completion is of.
    pub state: State,
    /// The error code of a request that failed in a way that is worth a note.
    pub failed: Option<i32>,
    /// Whether the read has to be requested again.
    pub rearm: bool,
    /// What became of the message that was read.
    pub read: Option<ReadOutcome>,
    /// Whether the trace is over.
    pub done: bool,
}

/// A trace under way.
pub struct Trace {
    probes: Vec<Probe>,
    sending: slab::Slab<u16>,
    readers: Vec<Multishot>,
}

impl View for Trace {
    type V = TraceView;

    closed spec fn view(&self) -> TraceView {
        TraceView {
            probes: self.probes@,
            in_flight: slab_contents(self.sending),
            slots: slab_span(self.sending),
            readers: self.readers@,
        }
    }
}

/// The state of a trace.
#[verifier::ext_equal]
pub struct TraceView {
    /// The probes, in the order of their hops.
    pub probes: Seq<Probe>,
    /// The number of the probe that each send in flight carries, by slot.
    pub in_flight: Map<usize, u16>,
    /// The number of slots that sends have used.
    pub slots: nat,
    /// The readers, one for each queue.
    pub readers: Seq<Multishot>,
}

/// Whether a completion ends the trace: that of the timeout does, and no other,
/// whatever it brings.
pub open spec fn ends_trace(completion: Completion<'_>) -> bool {
    completion.user_data.state_of() is Timeout
}

impl TraceView {
    /// Every send in flight carries a probe of the trace.
    pub open spec fn wf(self) -> bool {
        forall|slot: usize| #[trigger]
            self.in_flight.contains_key(slot) ==> self.in_flight[slot] < self.probes.len()
    }

    /// Whether a completion is one that a request of this trace can have: a
    /// write that is in flight, a read of one of the readers with a buffer that
    /// holds at least its headers if it succeeded, or the timeout.
    pub open spec fn expects(self, completion: Completion<'_>) -> bool {
        let slot = completion.user_data.slot_of();
        &&& completion.user_data.has_state()
        &&& completion.result > i32::MIN
        &&& match completion.user_data.state_of() {
            State::Write => self.in_flight.contains_key(slot as usize),
            State::Read => {
                &&& slot < self.readers.len()
                &&& completion.result >= 0 ==> {
                    &&& completion.result > 0
                    &&& selected_buffer(completion.flags) is Some
                    &&& completion.buffer@.len() >= self.readers[slot as int].overhead()
                }
            },
            State::Timeout => true,
        }
    }

    /// The error code that a completion is noted with. A timeout is expected to
    /// report that it expired. A queue may expect some errors.
    pub open spec fn failure(self, completion: Completion<'_>) -> Option<i32> {
        let failed = match completion.user_data.state_of() {
            State::Timeout => completion.result != -ETIME,
            State::Write => completion.result < 0,
            State::Read => {
                let reader = self.readers[completion.user_data.slot_of() as int];
                completion.result < 0 && !reader.queue.replies.ignored(completion.result)
            },
        };
        if failed {
            Some((-completion.result) as i32)
        } else {
            None
        }
    }

    /// The probes once a send of one of them was completed.
    pub open spec fn after_write(self, completion: Completion<'_>, now: u64) -> Seq<Probe> {
        let index = self.in_flight[completion.user_data.slot_of() as usize] as int;
        if completion.result >= 0 {
            let probe = self.probes[index];
            self.probes.update(index, Probe { sent_at: Some(now), ..probe })
        } else {
            self.probes
        }
    }

    /// The message that a completed read brought, where it succeeded.
    pub open spec fn message_of(self, completion: Completion<'_>) -> Option<ReceivedView> {
        if completion.user_data.state_of() is Read && completion.result >= 0 {
            message_in(
                endianness(),
                completion.buffer@,
                self.readers[completion.user_data.slot_of() as int],
            )
        } else {
            None
        }
    }

    /// The probes once a completion is taken into account.
    pub open spec fn after_completion(self, completion: Completion<'_>, now: u64) -> Seq<Probe> {
        let slot = completion.user_data.slot_of();
        match completion.user_data.state_of() {
            State::Timeout => self.probes,
            State::Write => self.after_write(completion, now),
            State::Read => match self.message_of(completion) {
                Some(message) => after_message(
                    endianness(),
                    message,
                    self.readers[slot as int].queue,
                    self.probes,
                    now,
                ),
                None => self.probes,
            },
        }
    }

    /// The sends in flight once a completion is taken into account.
    pub open spec fn in_flight_after(self, completion: Completion<'_>) -> Map<usize, u16> {
        if completion.user_data.state_of() is Write {
            self.in_flight.remove(completion.user_data.slot_of() as usize)
        } else {
            self.in_flight
        }
    }

    /// What becomes of the message that a completed read brought.
    pub open spec fn read_outcome(self, completion: Completion<'_>) -> Option<ReadOutcome> {
        match self.message_of(completion) {
            Some(message) => Some(
                message_outcome(
                    endianness(),
                    message,
                    self.readers[completion.user_data.slot_of() as int].queue,
                    self.probes,
                ),
            ),
            None => None,
        }
    }

    /// The trace once a completion is taken into account.
    pub open spec fn after(self, completion: Completion<'_>, now: u64) -> TraceView {
        TraceView {
            probes: self.after_completion(completion, now),
            in_flight: self.in_flight_after(completion),
            ..self
        }
    }
}

impl Trace {
    /// Plan a trace over a range of hops whose replies come on these queues.
    pub fn new(first: u8, last: u8, queues: &Vec<ReplyQueue>) -> (trace: Self)
        requires
            queues.len() <= 0x1_0000,
        ensures
            trace@.wf(),
            trace@.probes == planned(first, last),
            trace@.in_flight == Map::<usize, u16>::empty(),
            trace@.slots == 0,
            trace@.readers.len() == queues.len(),
            forall|i: int|
                #![trigger trace@.readers[i]]
                0 <= i < queues.len() ==> trace@.readers[i].reads(queues@[i], i as u16),
    {
        let mut readers: Vec<Multishot> = Vec::new();
        let mut index: usize = 0;
        while index < queues.len()
            invariant
                index <= queues.len() <= 0x1_0000,
                readers.len() == index,
                forall|i: int|
                    #![trigger readers@[i]]
                    0 <= i < index ==> readers@[i].reads(queues@[i], i as u16),
            decreases queues.len() - index,
        {
            readers.push(Multishot::new(queues[index], index as u16));
            index = index + 1;
        }
        Trace { probes: plan_probes(first, last), sending: slab_new(), readers }
    }

    /// Schedule a probe to be written and record it as in flight.
    pub fn schedule_write<M: Method>(&mut self, method: &M, id: ProbeId) -> (outgoing: Outgoing)
        requires
            old(self)@.wf(),
            id.0 < old(self)@.probes.len(),
            old(self)@.slots <= 0xffff,
            method.datagram(id).len() <= isize::MAX,
        ensures
            final(self)@.wf(),
            outgoing.carries(*method, id, old(self)@.probes[id.0 as int].ttl),
            !old(self)@.in_flight.contains_key(outgoing.slot as usize),
            outgoing.slot <= old(self)@.slots,
            final(self)@.in_flight == old(self)@.in_flight.insert(outgoing.slot as usize, id.0),
            final(self)@.slots == (if outgoing.slot == old(self)@.slots {
                old(self)@.slots + 1
            } else {
                old(self)@.slots
            }),
            final(self)@.probes == old(self)@.probes,
            final(self)@.readers == old(self)@.readers,
    {
        let ttl: u8 = self.probes[id.index()].ttl;
        let (packet, destination) = method.probe(id);
        let control = HopLimitControl::new(destination.ip.domain(), ttl);
        let slot: u16 = slab_insert(&mut self.sending, id.0) as u16;
        assert forall|key: usize| #[trigger] self@.in_flight.contains_key(key) implies self@.in_flight[key]
            < self@.probes.len() by {
            if key != slot {
                assert(old(self)@.in_flight.contains_key(key));
            }
        }
        let user_data = UserData::new().with_slot(slot).with_state(State::Write);
        Outgoing { packet, destination, control, probe: id, slot, user_data }
    }

    /// Schedule every probe of the trace.
    pub fn schedule_writes<M: Method>(&mut self, method: &M) -> (outgoing: Vec<Outgoing>)
        requires
            old(self)@.wf(),
            old(self)@.slots == 0,
            old(self)@.in_flight == Map::<usize, u16>::empty(),
            old(self)@.probes.len() <= 0x1_0000,
            forall|id: ProbeId| #[trigger] method.datagram(id).len() <= isize::MAX,
        ensures
            final(self)@.wf(),
            final(self)@.probes == old(self)@.probes,
            final(self)@.readers == old(self)@.readers,
            outgoing.len() == old(self)@.probes.len(),
            forall|i: int|
                #![trigger outgoing@[i]]
                0 <= i < outgoing.len() ==> {
                    &&& outgoing@[i].carries(
                        *method,
                        ProbeId(i as u16),
                        old(self)@.probes[i].ttl,
                    )
                    &&& outgoing@[i].slot == i
                },
            final(self)@.in_flight == Map::<usize, u16>::new(
                |slot: usize| slot < outgoing.len(),
                |slot: usize| slot as u16,
            ),
    {
        let mut outgoing: Vec<Outgoing> = Vec::new();
        let mut index: usize = 0;
        while index < self.probes.len()
            invariant
                index <= self@.probes.len() <= 0x1_0000,
                self@.wf(),
                self@.slots == index,
                self@.probes == old(self)@.probes,
                self@.readers == old(self)@.readers,
                forall|id: ProbeId| #[trigger] method.datagram(id).len() <= isize::MAX,
                outgoing.len() == index,
                forall|i: int|
                    #![trigger outgoing@[i]]
                    0 <= i < outgoing.len() ==> {
                        &&& outgoing@[i].carries(
                            *method,
                            ProbeId(i as u16),
                            old(self)@.probes[i].ttl,
                        )
                        &&& outgoing@[i].slot == i
                    },
                self@.in_flight =~= Map::<usize, u16>::new(
                    |slot: usize| slot < index,
                    |slot: usize| slot as u16,
                ),
            decreases self@.probes.len() - index,
        {
            let id = ProbeId(index as u16);
            assert(method.datagram(id).len() <= isize::MAX);
            let send = self.schedule_write(method, id);
            assert(send.slot >= index);
            outgoing.push(send);
            index = index + 1;
        }
        outgoing
    }

    /// Take back a send that could not be submitted.
    pub fn cancel_write(&mut self, slot: u16) -> (id: ProbeId)
        requires
            old(self)@.wf(),
            old(self)@.in_flight.contains_key(slot as usize),
        ensures
            final(self)@.wf(),
            id.0 == old(self)@.in_flight[slot as usize],
            final(self)@.in_flight == old(self)@.in_flight.remove(slot as usize),
            final(self)@.slots == old(self)@.slots,
            final(self)@.probes == old(self)@.probes,
            final(self)@.readers == old(self)@.readers,
    {
        let id = ProbeId(slab_remove(&mut self.sending, slot as usize));
        assert forall|key: usize| #[trigger] self@.in_flight.contains_key(key) implies self@.in_flight[key]
            < self@.probes.len() by {
            assert(old(self)@.in_flight.contains_key(key));
        }
        id
    }

    /// The requests that start the reads.
    pub fn schedule_reads(&self) -> (requests: Vec<ReadRequest>)
        ensures
            requests.len() == self@.readers.len(),
            forall|i: int|
                #![trigger requests@[i]]
                0 <= i < requests.len() ==> self@.readers[i].requests(requests@[i]),
    {
        let mut requests: Vec<ReadRequest> = Vec::new();
        let mut index: usize = 0;
        while index < self.readers.len()
            invariant
                index <= self@.readers.len(),
                requests.len() == index,
                forall|i: int|
                    #![trigger requests@[i]]
                    0 <= i < index ==> self@.readers[i].requests(requests@[i]),
            decreases self@.readers.len() - index,
        {
            requests.push(self.readers[index].schedule());
            index = index + 1;
        }
        requests
    }

    /// The reader at a position.
    pub fn reader(&self, slot: u16) -> (reader: &Multishot)
        requires
            slot < self@.readers.len(),
        ensures
            *reader == self@.readers[slot as int],
    {
        &self.readers[slot as usize]
    }

    /// The probes and what is known of them.
    pub fn probes(&self) -> (probes: &Vec<Probe>)
        ensures
            probes@ == self@.probes,
    {
        &self.probes
    }

    /// The probes and what is known of them, once the trace is over.
    pub fn into_probes(self) -> (probes: Vec<Probe>)
        ensures
            probes@ == self@.probes,
    {
        self.probes
    }

    /// Tell whether a completion is one that a request of this trace can have.
    pub fn accepts(&self, completion: &Completion<'_>) -> (accepted: bool)
        ensures
            accepted == self@.expects(*completion),
    {
        if !completion.user_data.holds_state() || completion.result == i32::MIN {
            return false;
        }
        let slot: u16 = completion.user_data.slot();
        match completion.user_data.state() {
            State::Write => slab_contains(&self.sending, slot as usize),
            State::Read => {
                if slot as usize >= self.readers.len() {
                    return false;
                }
                if completion.result < 0 {
                    return true;
                }
                let reader: Multishot = self.readers[slot as usize];
                let len: usize = completion.buffer.len();
                completion.result > 0 && buffer_select(completion.flags).is_some() && len
                    >= RECVMSG_HEADER_LEN && len - RECVMSG_HEADER_LEN >= reader.name_room as usize
                    && len - RECVMSG_HEADER_LEN - reader.name_room as usize >= reader.control_room
            },
            State::Timeout => true,
        }
    }

    /// Take a completion into account.
    pub fn complete(&mut self, completion: &Completion<'_>, now: u64) -> (step: Step)
        requires
            old(self)@.wf(),
            old(self)@.expects(*completion),
        ensures
            final(self)@.wf(),
            final(self)@ == old(self)@.after(*completion, now),
            step.state == completion.user_data.state_of(),
            step.failed == old(self)@.failure(*completion),
            step.rearm == (step.state is Read && !has_more(completion.flags)),
            step.read == old(self)@.read_outcome(*completion),
            step.done == ends_trace(*completion),
    {
        let state: State = completion.user_data.state();
        let slot: u16 = completion.user_data.slot();
        let result: i32 = completion.result;
        let mut rearm: bool = false;
        let mut read: Option<ReadOutcome> = None;

        let failed: bool = match state {
            // A successful timeout results in `-ETIME`
            State::Timeout => result != -etime(),
            State::Write => {
                let id = self.cancel_write(slot);
                if result >= 0 {
                    let index: usize = id.index();
                    let mut probe: Probe = self.probes[index];
                    probe.sent_at = Some(now);
                    self.probes.set(index, probe);
                }
                result < 0
            },
            State::Read => {
                let reader: Multishot = self.readers[slot as usize];
                if result >= 0 {
                    read = Some(handle_read(completion.buffer, &reader, &mut self.probes, now));
                }
                rearm = !more(completion.flags);
                // Ignore errors on the receive queue that we expect to see on the
                // error queue. We can observe these if there are queued socket errors
                // we have yet to read from the error queue
                result < 0 && !reader.queue.replies.ignores_read_error(result)
            },
        };
        let failed: Option<i32> = if failed {
            Some(-result)
        } else {
            None
        };
        assert forall|key: usize| #[trigger] self@.in_flight.contains_key(key) implies self@.in_flight[key]
            < self@.probes.len() by {
            assert(old(self)@.in_flight.contains_key(key));
        }
        Step { state, failed, rearm, read, done: matches!(state, State::Timeout) }
    }
}

/// The buffer that a completed read filled, and how much of it: none unless the
/// completion is of a read that succeeded.
pub fn filled_buffer(result: i32, flags: u32, user_data: UserData) -> (buffer: Option<(u16, usize)>)
    requires
        user_data.has_state(),
    ensures
        buffer == (if user_data.state_of() is Read && result >= 0 && selected_buffer(flags) is Some {
            Some((selected_buffer(flags)->0, result as usize))
        } else {
            None
        }),
{
    match user_data.state() {
        State::Read => {
            if result < 0 {
                return None;
            }
            match buffer_select(flags) {
                Some(buffer) => Some((buffer, result as usize)),
                None => None,
            }
        },
        _ => None,
    }
}

/// The tag of the timeout that ends a trace.
pub fn timeout_tag() -> (user_data: UserData)
    ensures
        user_data.state_bits() == State::Timeout.bits(),
        user_data.state_of() == State::Timeout,
        user_data.slot_of() == 0,
{
    UserData::new().with_state(State::Timeout)
}

/// Whether a failure to submit and wait passes when it is tried again: the ring
/// is busy.
pub fn retries_submit(raw_os_error: Option<i32>) -> (retry: bool)
    ensures
        retry == (raw_os_error == Some(EBUSY)),
        retry == (raw_os_error == Some(16i32)),
{
    match raw_os_error {
        Some(code) => code == ebusy(),
        None => false,
    }
}

/// There is one probe for each hop of the range, in order: the probe at each
/// position has the time to live that many hops behind the first, and no two
/// probes share one.
pub proof fn law_one_probe_per_hop(first: u8, last: u8)
    ensures
        forall|i: int|
            0 <= i < planned(first, last).len() ==> (#[trigger] planned(first, last)[i]).ttl == first
                + i,
        forall|ttl: u8|
            first <= ttl <= last ==> 0 <= ttl - first < planned(first, last).len()
                && #[trigger] planned(first, last)[ttl - first].ttl == ttl,
        planned(first, last).len() <= 0x100,
{
}

/// A message never changes which probes there are or when they were sent, and
/// changes the result of at most one of them, which had none. The first answer
/// to a probe stands.
pub proof fn law_first_answer_stands(
    order: Endian,
    message: ReceivedView,
    queue: ReplyQueue,
    probes: Seq<Probe>,
    now: u64,
)
    ensures
        after_message(order, message, queue, probes, now).len() == probes.len(),
        forall|i: int|
            #![trigger after_message(order, message, queue, probes, now)[i]]
            0 <= i < probes.len() ==> {
                let after = after_message(order, message, queue, probes, now)[i];
                &&& after.ttl == probes[i].ttl
                &&& after.sent_at == probes[i].sent_at
                &&& probes[i].result is Some ==> after == probes[i]
            },
        forall|i: int, j: int|
            #![trigger after_message(order, message, queue, probes, now)[i], after_message(order, message, queue, probes, now)[j]]
            0 <= i < probes.len() && 0 <= j < probes.len() && after_message(
                order,
                message,
                queue,
                probes,
                now,
            )[i] != probes[i] && after_message(order, message, queue, probes, now)[j] != probes[j]
                ==> i == j,
{
}

/// A completion keeps the hops of a trace and every answer that was recorded.
pub proof fn law_completion_keeps_answers(trace: TraceView, completion: Completion<'_>, now: u64)
    requires
        trace.wf(),
        trace.expects(completion),
    ensures
        trace.after_completion(completion, now).len() == trace.probes.len(),
        forall|i: int|
            #![trigger trace.after_completion(completion, now)[i]]
            0 <= i < trace.probes.len() ==> {
                let after = trace.after_completion(completion, now)[i];
                &&& after.ttl == trace.probes[i].ttl
                &&& trace.probes[i].result is Some ==> after.result
                    == trace.probes[i].result
                &&& trace.probes[i].sent_at is Some ==> after.sent_at is Some
            },
{
}

/// The round trip of a probe: once its send completes at `sent`, a reply that
/// identifies it at `now` is recorded for it with the time in between, who sent
/// the reply, and what the reply means.
pub proof fn law_round_trip(
    trace: TraceView,
    write: Completion<'_>,
    sent: u64,
    queue: ReplyQueue,
    reply: ReplyView,
    now: u64,
)
    requires
        trace.wf(),
        trace.expects(write),
        write.user_data.state_of() is Write,
        write.result >= 0,
        queue.replies.identified(reply) == Some(
            ProbeId(trace.in_flight[write.user_data.slot_of() as usize]),
        ),
        trace.probes[trace.in_flight[write.user_data.slot_of() as usize] as int].result is None,
        sent <= now,
    ensures
        ({
            let index = trace.in_flight[write.user_data.slot_of() as usize] as int;
            let after = settled(trace.after_completion(write, sent), queue, reply, now);
            &&& after[index].ttl == trace.probes[index].ttl
            &&& after[index].result == Some(
                HopResult {
                    source: reply.source,
                    rtt: (now - sent) as u64,
                    kind: queue.replies.classified(reply),
                },
            )
        }),
{
    assert(trace.in_flight.contains_key(write.user_data.slot_of() as usize));
}

/// Whether a probe has no answer yet.
pub open spec fn waits(probes: Seq<Probe>, id: ProbeId) -> bool {
    &&& id.0 < probes.len()
    &&& probes[id.0 as int].result is None
}

/// Whether `after` is `probes` with a reply recorded as the answer to a probe.
pub open spec fn records(
    probes: Seq<Probe>,
    after: Seq<Probe>,
    queue: ReplyQueue,
    id: ProbeId,
    reply: ReplyView,
    now: u64,
) -> bool {
    let probe = probes[id.0 as int];
    let result = HopResult {
        source: reply.source,
        rtt: round_trip(probe.sent_at, now),
        kind: queue.replies.classified(reply),
    };
    after == probes.update(id.0 as int, Probe { result: Some(result), ..probe })
}

/// A reply that has the bytes of a probe's sequence number, on either queue of
/// the method, is recorded for that probe while it waits for an answer.
pub proof fn law_quoted_probe_answered(
    method: Icmp,
    queue: ReplyQueue,
    probes: Seq<Probe>,
    id: ProbeId,
    reply: ReplyView,
    now: u64,
)
    requires
        method.queues().contains(queue),
        waits(probes, id),
        reply.quoted.len() >= ECHO_HEADER_LEN,
        reply.quoted.subrange(6, 8) == method.datagram(id).subrange(6, 8),
    ensures
        records(probes, settled(probes, queue, reply, now), queue, id, reply, now),
{
    icmp::law_probe_identified(method, id, reply);
}

/// A reply that has the bytes of an IPv6 probe's sequence number, on either
/// queue of the method, is recorded for that probe while it waits for an
/// answer.
pub proof fn law_quoted_probe_answered_v6(
    method: Icmpv6,
    queue: ReplyQueue,
    probes: Seq<Probe>,
    id: ProbeId,
    reply: ReplyView,
    now: u64,
)
    requires
        method.queues().contains(queue),
        waits(probes, id),
        reply.quoted.len() >= ECHO_HEADER_LEN,
        reply.quoted.subrange(6, 8) == method.datagram(id).subrange(6, 8),
    ensures
        records(probes, settled(probes, queue, reply, now), queue, id, reply, now),
{
    icmpv6::law_probe_identified(method, id, reply);
}

/// The answer to a probe.
pub open spec fn answer_to(probes: Seq<Probe>, id: ProbeId) -> Option<HopResult> {
    probes[id.0 as int].result
}

/// When a probe was sent, where that is known.
pub open spec fn send_time(probes: Seq<Probe>, id: ProbeId) -> Option<u64> {
    probes[id.0 as int].sent_at
}

/// A router reveals itself: when a "Time Exceeded" from `router` comes in on the
/// error queue and quotes a probe that waits for an answer, the hop of that
/// probe gets the router's address, the round trip time, and
/// counts as a hop on the way.
pub proof fn law_hop_revealed(
    order: Endian,
    method: Icmp,
    queue: ReplyQueue,
    probes: Seq<Probe>,
    id: ProbeId,
    message: ReceivedView,
    extended: ExtendedErrorView,
    router: IpAddr,
    now: u64,
)
    requires
        queue == method.queues()[1],
        waits(probes, id),
        !message.control_truncated,
        recverr(order, message.control) == Some(extended),
        extended.error.icmp_type == icmp::TIME_EXCEEDED,
        extended.error.icmp_code == 0,
        sockaddr(order, extended.source_bytes) == Some(router),
        message.payload.len() >= ECHO_HEADER_LEN,
        message.payload.subrange(6, 8) == method.datagram(id).subrange(6, 8),
    ensures
        answer_to(after_message(order, message, queue, probes, now), id) == Some(
            HopResult {
                source: Some(router),
                rtt: round_trip(send_time(probes, id), now),
                kind: ReplyKind::Hop,
            },
        ),
{
    let reply = ReplyView {
        source: Some(router),
        quoted: message.payload,
        error: Some(extended.error),
    };
    assert(reply_of(order, message, true) == Some(reply));
    law_quoted_probe_answered(method, queue, probes, id, reply, now);
}

/// The target reveals itself: when an echo reply comes in on the receive queue
/// and has the sequence number of a probe that waits for an answer, the hop of
/// that probe gets the sender's address, the round trip time, and
/// counts as the destination.
pub proof fn law_target_revealed(
    order: Endian,
    method: Icmp,
    queue: ReplyQueue,
    probes: Seq<Probe>,
    id: ProbeId,
    message: ReceivedView,
    now: u64,
)
    requires
        queue == method.queues()[0],
        waits(probes, id),
        message.payload.len() >= ECHO_HEADER_LEN,
        message.payload.subrange(6, 8) == method.datagram(id).subrange(6, 8),
    ensures
        answer_to(after_message(order, message, queue, probes, now), id) == Some(
            HopResult {
                source: sockaddr(order, message.name),
                rtt: round_trip(send_time(probes, id), now),
                kind: ReplyKind::Destination,
            },
        ),
{
    let reply = ReplyView {
        source: sockaddr(order, message.name),
        quoted: message.payload,
        error: None,
    };
    assert(reply_of(order, message, false) == Some(reply));
    law_quoted_probe_answered(method, queue, probes, id, reply, now);
}

/// A router reveals itself over IPv6: when a "Time Exceeded" from `router` comes in on the
/// error queue and quotes a probe that waits for an answer, the hop of that
/// probe gets the router's address, the round trip time, and
/// counts as a hop on the way.
pub proof fn law_hop_revealed_v6(
    order: Endian,
    method: Icmpv6,
    queue: ReplyQueue,
    probes: Seq<Probe>,
    id: ProbeId,
    message: ReceivedView,
    extended: ExtendedErrorView,
    router: IpAddr,
    now: u64,
)
    requires
        queue == method.queues()[1],
        waits(probes, id),
        !message.control_truncated,
        recverr(order, message.control) == Some(extended),
        extended.error.icmp_type == icmpv6::TIME_EXCEEDED,
        extended.error.icmp_code == 0,
        sockaddr(order, extended.source_bytes) == Some(router),
        message.payload.len() >= ECHO_HEADER_LEN,
        message.payload.subrange(6, 8) == method.datagram(id).subrange(6, 8),
    ensures
        answer_to(after_message(order, message, queue, probes, now), id) == Some(
            HopResult {
                source: Some(router),
                rtt: round_trip(send_time(probes, id), now),
                kind: ReplyKind::Hop,
            },
        ),
{
    let reply = ReplyView {
        source: Some(router),
        quoted: message.payload,
        error: Some(extended.error),
    };
    assert(reply_of(order, message, true) == Some(reply));
    law_quoted_probe_answered_v6(method, queue, probes, id, reply, now);
}

/// The target reveals itself over IPv6: when an echo reply comes in on the receive queue
/// and has the sequence number of a probe that waits for an answer, the hop of
/// that probe gets the sender's address, the round trip time, and
/// counts as the destination.
pub proof fn law_target_revealed_v6(
    order: Endian,
    method: Icmpv6,
    queue: ReplyQueue,
    probes: Seq<Probe>,
    id: ProbeId,
    message: ReceivedView,
    now: u64,
)
    requires
        queue == method.queues()[0],
        waits(probes, id),
        message.payload.len() >= ECHO_HEADER_LEN,
        message.payload.subrange(6, 8) == method.datagram(id).subrange(6, 8),
    ensures
        answer_to(after_message(order, message, queue, probes, now), id) == Some(
            HopResult {
                source: sockaddr(order, message.name),
                rtt: round_trip(send_time(probes, id), now),
                kind: ReplyKind::Destination,
            },
        ),
{
    let reply = ReplyView {
        source: sockaddr(order, message.name),
        quoted: message.payload,
        error: None,
    };
    assert(reply_of(order, message, false) == Some(reply));
    law_quoted_probe_answered_v6(method, queue, probes, id, reply, now);
}

/// A send completes once: its completion takes it out of flight, and no other
/// send. What is no write leaves the sends in flight alone.
pub proof fn law_send_completes_once(trace: TraceView, completion: Completion<'_>, slot: usize)
    requires
        trace.expects(completion),
    ensures
        completion.user_data.state_of() is Write && slot == completion.user_data.slot_of()
            ==> !trace.in_flight_after(completion).contains_key(slot),
        !(completion.user_data.state_of() is Write && slot == completion.user_data.slot_of())
            ==> trace.in_flight_after(completion).contains_key(slot)
            == trace.in_flight.contains_key(slot) && (trace.in_flight.contains_key(slot)
            ==> trace.in_flight_after(completion)[slot] == trace.in_flight[slot]),
{
}

/// Completions in the order in which the ring delivers them, each with the time
/// at which it is seen.
pub type Completions<'a> = Seq<(Completion<'a>, u64)>;

/// The trace once all of these completions are taken into account.
pub open spec fn after_all(trace: TraceView, completions: Completions<'_>) -> TraceView
    decreases completions.len(),
{
    if completions.len() == 0 {
        trace
    } else {
        let (completion, now) = completions[0];
        after_all(trace.after(completion, now), completions.skip(1))
    }
}

/// The probes that a trace hands out when completions are taken into account
/// one by one until a step is done; none while no step is.
pub open spec fn handed_out(trace: TraceView, completions: Completions<'_>) -> Option<Seq<Probe>>
    decreases completions.len(),
{
    if completions.len() == 0 {
        None
    } else {
        let (completion, now) = completions[0];
        let next = trace.after(completion, now);
        if ends_trace(completion) {
            Some(next.probes)
        } else {
            handed_out(next, completions.skip(1))
        }
    }
}

/// Whether none of these completions is that of the timeout.
pub open spec fn before_timeout(completions: Completions<'_>) -> bool {
    forall|i: int|
        0 <= i < completions.len() ==> !((#[trigger] completions[i]).0.user_data.state_of() is Timeout)
}

/// A trace waits for the timeout: as long as its completion has not come, nothing
/// is handed out. No answer ends the trace, not even that of the target, nor do
/// answers to all probes, nor failed sends or reads.
pub proof fn law_trace_waits_for_timeout(trace: TraceView, completions: Completions<'_>)
    requires
        before_timeout(completions),
    ensures
        handed_out(trace, completions) is None,
    decreases completions.len(),
{
    if completions.len() > 0 {
        let (completion, now) = completions[0];
        let rest = completions.skip(1);
        assert forall|i: int| 0 <= i < rest.len() implies !((
        #[trigger] rest[i]).0.user_data.state_of() is Timeout) by {
            assert(rest[i] == completions[i + 1]);
        }
        law_trace_waits_for_timeout(trace.after(completion, now), rest);
    }
}

/// The timeout ends a trace: what is handed out are the probes as the
/// completions before the first timeout left them. Neither how the timeout
/// completed nor anything that comes behind it counts.
pub proof fn law_timeout_ends_trace(
    trace: TraceView,
    before: Completions<'_>,
    timeout: (Completion<'_>, u64),
    behind: Completions<'_>,
)
    requires
        before_timeout(before),
        timeout.0.user_data.state_of() is Timeout,
    ensures
        handed_out(trace, before + seq![timeout] + behind) == Some(
            after_all(trace, before).probes,
        ),
    decreases before.len(),
{
    let all = before + seq![timeout] + behind;
    if before.len() == 0 {
        assert(all[0] == timeout);
    } else {
        let (completion, now) = before[0];
        let rest = before.skip(1);
        assert forall|i: int| 0 <= i < rest.len() implies !((
        #[trigger] rest[i]).0.user_data.state_of() is Timeout) by {
            assert(rest[i] == before[i + 1]);
        }
        assert(all[0] == before[0]);
        assert(all.skip(1) =~= rest + seq![timeout] + behind);
        law_timeout_ends_trace(trace.after(completion, now), rest, timeout, behind);
    }
}

/// The time of a round trip is what has passed since the send, in full. It is
/// zero where the send has not completed or would lie ahead.
pub proof fn law_round_trip_time(sent_at: Option<u64>, now: u64)
    ensures
        sent_at is None ==> round_trip(sent_at, now) == 0,
        sent_at matches Some(sent) ==> (sent <= now ==> sent + round_trip(sent_at, now) == now) && (
        sent > now ==> round_trip(sent_at, now) == 0),
{
}

/// A reply is recorded for the probe whose number it quotes, provided that the
/// trace has that probe and that it waits: the probe keeps its hop and the time
/// of its send, and gets the sender of the reply, the time since the send, and
/// what the reply means. No other probe changes.
pub proof fn law_reply_settled(
    probes: Seq<Probe>,
    queue: ReplyQueue,
    reply: ReplyView,
    at: int,
    now: u64,
)
    requires
        reply.quoted.len() >= 8,
        at == 0x100 * reply.quoted[6] + reply.quoted[7],
        at < probes.len(),
        probes[at].result is None,
    ensures
        answers(probes, queue, reply) matches Some(index) && index == at,
        ({
            let before = probes[at];
            let after = settled(probes, queue, reply, now);
            &&& after.len() == probes.len()
            &&& forall|i: int|
                0 <= i < probes.len() && i != at ==> #[trigger] after[i] == probes[i]
            &&& after[at].ttl == before.ttl
            &&& after[at].sent_at == before.sent_at
            &&& after[at].result matches Some(result) && {
                &&& result.source == reply.source
                &&& result.kind == queue.replies.classified(reply)
                &&& before.sent_at is None ==> result.rtt == 0
                &&& before.sent_at matches Some(sent) ==> (sent <= now ==> sent + result.rtt == now)
                    && (sent > now ==> result.rtt == 0)
            }
        }),
{
    law_reply_identified(queue.replies, reply);
}

/// A reply that quotes too little to name a probe, or names one that the trace
/// does not have or that has an answer already, changes nothing.
pub proof fn law_reply_discarded(
    probes: Seq<Probe>,
    queue: ReplyQueue,
    reply: ReplyView,
    now: u64,
)
    requires
        reply.quoted.len() >= 8 && 0x100 * reply.quoted[6] + reply.quoted[7] < probes.len()
            ==> probes[0x100 * reply.quoted[6] + reply.quoted[7]].result is Some,
    ensures
        answers(probes, queue, reply) is None,
        settled(probes, queue, reply, now) == probes,
{
    law_reply_identified(queue.replies, reply);
}

/// Every queued error is an answer, whatever its type and its code: the probe
/// that the message quotes, while it waits, gets the address that the error came
/// from, the time since its send, and what the error means. No other probe
/// changes.
pub proof fn law_error_recorded(
    order: Endian,
    message: ReceivedView,
    queue: ReplyQueue,
    probes: Seq<Probe>,
    extended: ExtendedErrorView,
    at: int,
    now: u64,
)
    requires
        queue.err_queue,
        !message.control_truncated,
        recverr(order, message.control) == Some(extended),
        message.payload.len() >= 8,
        at == 0x100 * message.payload[6] + message.payload[7],
        at < probes.len(),
        probes[at].result is None,
    ensures
        message_outcome(order, message, queue, probes) matches ReadOutcome::Recorded { index } && index
            == at,
        ({
            let before = probes[at];
            let after = after_message(order, message, queue, probes, now);
            &&& after.len() == probes.len()
            &&& forall|i: int|
                0 <= i < probes.len() && i != at ==> #[trigger] after[i] == probes[i]
            &&& after[at].ttl == before.ttl
            &&& after[at].sent_at == before.sent_at
            &&& after[at].result matches Some(result) && {
                &&& result.source == sockaddr(order, extended.source_bytes)
                &&& before.sent_at is None ==> result.rtt == 0
                &&& before.sent_at matches Some(sent) ==> (sent <= now ==> sent + result.rtt == now)
                    && (sent > now ==> result.rtt == 0)
                &&& queue.replies is IcmpError ==> result.kind == icmp::error_kind(
                    Some(extended.error),
                )
                &&& queue.replies is Icmpv6Error ==> result.kind == icmpv6::error_kind(
                    Some(extended.error),
                )
                &&& queue.replies is IcmpEcho || queue.replies is Icmpv6Echo ==> result.kind
                    == ReplyKind::Destination
            }
        }),
{
    let reply = ReplyView {
        source: sockaddr(order, extended.source_bytes),
        quoted: message.payload,
        error: Some(extended.error),
    };
    law_reply_settled(probes, queue, reply, at, now);
    law_reply_classified(queue.replies, reply, reply);
    icmp::law_error_classified(reply);
    icmpv6::law_error_classified(reply);
}

/// Every message on the receive queue is an answer: the probe whose number it
/// has, while it waits, gets the address that the message came from, the time
/// since its send, and counts as answered by the target where that is what the
/// queue is for. The control data does not count, and no other probe changes.
pub proof fn law_reply_recorded(
    order: Endian,
    message: ReceivedView,
    queue: ReplyQueue,
    probes: Seq<Probe>,
    at: int,
    now: u64,
)
    requires
        !queue.err_queue,
        message.payload.len() >= 8,
        at == 0x100 * message.payload[6] + message.payload[7],
        at < probes.len(),
        probes[at].result is None,
    ensures
        message_outcome(order, message, queue, probes) matches ReadOutcome::Recorded { index } && index
            == at,
        ({
            let before = probes[at];
            let after = after_message(order, message, queue, probes, now);
            &&& after.len() == probes.len()
            &&& forall|i: int|
                0 <= i < probes.len() && i != at ==> #[trigger] after[i] == probes[i]
            &&& after[at].ttl == before.ttl
            &&& after[at].sent_at == before.sent_at
            &&& after[at].result matches Some(result) && {
                &&& result.source == sockaddr(order, message.name)
                &&& before.sent_at is None ==> result.rtt == 0
                &&& before.sent_at matches Some(sent) ==> (sent <= now ==> sent + result.rtt == now)
                    && (sent > now ==> result.rtt == 0)
                &&& queue.replies is IcmpEcho || queue.replies is Icmpv6Echo ==> result.kind
                    == ReplyKind::Destination
                &&& queue.replies is IcmpError ==> result.kind == icmp::error_kind(None)
                &&& queue.replies is Icmpv6Error ==> result.kind == icmpv6::error_kind(None)
            }
        }),
{
    let reply = ReplyView {
        source: sockaddr(order, message.name),
        quoted: message.payload,
        error: None,
    };
    law_reply_settled(probes, queue, reply, at, now);
    law_reply_classified(queue.replies, reply, reply);
    icmp::law_error_classified(reply);
    icmpv6::law_error_classified(reply);
}

/// A message changes nothing, and is reported as such, only where it is on the
/// error queue and holds no queued error or not all of its control data, or
/// where it names no probe that waits.
pub proof fn law_message_discarded(
    order: Endian,
    message: ReceivedView,
    queue: ReplyQueue,
    probes: Seq<Probe>,
    now: u64,
)
    requires
        ({
            ||| queue.err_queue && message.control_truncated
            ||| queue.err_queue && recverr(order, message.control) is None
            ||| message.payload.len() < 8
            ||| 0x100 * message.payload[6] + message.payload[7] >= probes.len()
            ||| probes[0x100 * message.payload[6] + message.payload[7]].result is Some
        }),
    ensures
        after_message(order, message, queue, probes, now) == probes,
        message_outcome(order, message, queue, probes) == (if queue.err_queue
            && message.control_truncated {
            ReadOutcome::ControlTruncated
        } else {
            ReadOutcome::Dropped
        }),
{
    if let Some(reply) = reply_of(order, message, queue.err_queue) {
        law_reply_discarded(probes, queue, reply, now);
    }
}

/// The probes of a trace: one for each hop from the first to the last, both
/// counted in, none of them sent and none answered.
pub proof fn law_probes_planned(first: u8, last: u8)
    ensures
        first <= last ==> planned(first, last).len() == last - first + 1,
        first > last ==> planned(first, last).len() == 0,
        forall|i: int|
            0 <= i < planned(first, last).len() ==> {
                let probe = #[trigger] planned(first, last)[i];
                &&& probe.ttl == first + i
                &&& probe.sent_at is None
                &&& probe.result is None
            },
{
}

/// The reader of a queue has room for the widest address, and for the control
/// data of a queued error where it reads the error queue. Its request reads that
/// queue and no other, and carries the tag of a read of this reader.
pub proof fn law_reader(reader: Multishot, queue: ReplyQueue, slot: u16, request: ReadRequest)
    requires
        reader.reads(queue, slot),
        reader.requests(request),
    ensures
        reader.queue == queue,
        reader.slot == slot,
        reader.name_room == 28,
        !queue.err_queue ==> reader.control_room == 0,
        queue.err_queue ==> reader.control_room == (if usize::BITS == 64 {
            64int
        } else {
            56int
        }),
        queue.err_queue ==> request.flags == 0x2000,
        !queue.err_queue ==> request.flags == 0,
        request.user_data.raw() == 0x1_0000 + slot,
        reader.overhead() == 16 + 28 + reader.control_room,
{
}

/// The control message that sets a hop limit has room for one number behind its
/// header, the level and type of the socket's family, and the limit itself.
pub proof fn law_hop_limit_set(control: HopLimitControl, domain: Domain, hop_limit: u8)
    requires
        control.sets(domain, hop_limit),
    ensures
        control.cmsg_len == usize::BITS / 8 + 8 + 4,
        control.hop_limit == hop_limit,
        domain is Ipv4 ==> control.cmsg_level == 0 && control.cmsg_type == 2,
        domain is Ipv6 ==> control.cmsg_level == 41 && control.cmsg_type == 52,
{
}

/// What is sent for a probe is the method's datagram for it, to the method's
/// destination, with the hop of the probe as its time to live, under the tag of a
/// write of its slot.
pub proof fn law_probe_sent<M: Method>(outgoing: Outgoing, method: M, id: ProbeId, ttl: u8)
    requires
        outgoing.carries(method, id, ttl),
    ensures
        outgoing.packet@ == method.datagram(id),
        outgoing.destination == method.destination(),
        outgoing.control.hop_limit == ttl,
        outgoing.destination.ip is V4 ==> outgoing.control.sets(Domain::Ipv4, ttl),
        outgoing.destination.ip is V6 ==> outgoing.control.sets(Domain::Ipv6, ttl),
        outgoing.probe == id,
        outgoing.user_data.raw() == outgoing.slot,
{
}

/// The bytes in front of a payload are the four numbers of the header, an IPv6
/// address and the control data of a queued error.
pub proof fn law_overhead()
    ensures
        recvmsg_overhead() == 16 + 28 + (if usize::BITS == 64 {
            64int
        } else {
            56int
        }),
{
}

/// What a message in a buffer is read with: the room of the reader.
pub proof fn law_message_read(order: Endian, buffer: Seq<u8>, reader: Multishot)
    ensures
        message_in(order, buffer, reader) == recvmsg_out(
            order,
            buffer,
            reader.name_room as int,
            reader.control_room as int,
        ),
        message_in(order, buffer, reader) is Some <==> buffer.len() >= 16 + reader.name_room
            + reader.control_room,
{
}

/// A completed send: it is no longer in flight, and where it succeeded its probe
/// was sent now. Nothing else of the probe changes, and no other probe. A send
/// that failed leaves every probe as it is.
pub proof fn law_write_completed(trace: TraceView, completion: Completion<'_>, now: u64)
    requires
        completion.user_data.raw() < 0x1_0000,
        trace.wf(),
        trace.in_flight.contains_key(completion.user_data.raw() as usize),
    ensures
        ({
            let slot = completion.user_data.raw() as usize;
            let index = trace.in_flight[slot] as int;
            let after = trace.after(completion, now);
            &&& after.in_flight == trace.in_flight.remove(slot)
            &&& after.readers == trace.readers
            &&& after.slots == trace.slots
            &&& completion.result < 0 ==> after.probes == trace.probes
            &&& completion.result >= 0 ==> {
                &&& after.probes.len() == trace.probes.len()
                &&& after.probes[index].sent_at == Some(now)
                &&& after.probes[index].ttl == trace.probes[index].ttl
                &&& after.probes[index].result == trace.probes[index].result
                &&& forall|i: int|
                    0 <= i < trace.probes.len() && i != index ==> #[trigger] after.probes[i]
                        == trace.probes[i]
            }
            &&& trace.read_outcome(completion) is None
            &&& !ends_trace(completion)
            &&& completion.result >= 0 ==> trace.failure(completion) is None
            &&& i32::MIN < completion.result < 0 ==> (trace.failure(completion) matches Some(code)
                && code == -completion.result)
        }),
{
}

/// A completed read: where it succeeded, the message in its buffer is taken into
/// account on the queue of its reader. A read that failed changes nothing, and is
/// noted unless the error is one that the queue ignores. No read ends the trace.
pub proof fn law_read_completed(trace: TraceView, completion: Completion<'_>, slot: int, now: u64)
    requires
        completion.user_data.raw() == 0x1_0000 + slot,
        0 <= slot < trace.readers.len(),
        slot <= 0xffff,
        completion.result >= 0 ==> completion.buffer@.len() >= 16 + trace.readers[slot].name_room
            + trace.readers[slot].control_room,
    ensures
        ({
            let reader = trace.readers[slot];
            let after = trace.after(completion, now);
            let message = recvmsg_out(
                endianness(),
                completion.buffer@,
                reader.name_room as int,
                reader.control_room as int,
            );
            &&& after.in_flight == trace.in_flight
            &&& after.readers == trace.readers
            &&& after.slots == trace.slots
            &&& !ends_trace(completion)
            &&& completion.result >= 0 ==> {
                &&& message is Some
                &&& after.probes == after_message(
                    endianness(),
                    message->0,
                    reader.queue,
                    trace.probes,
                    now,
                )
                &&& trace.read_outcome(completion) == Some(
                    message_outcome(endianness(), message->0, reader.queue, trace.probes),
                )
                &&& trace.failure(completion) is None
            }
            &&& completion.result < 0 ==> {
                &&& after.probes == trace.probes
                &&& trace.read_outcome(completion) is None
                &&& reader.queue.replies.ignored(completion.result) ==> trace.failure(completion)
                    is None
                &&& completion.result > i32::MIN && !reader.queue.replies.ignored(completion.result)
                    ==> (trace.failure(completion) matches Some(code) && code
                    == -completion.result)
            }
        }),
{
}

/// The completed timeout ends the trace and changes nothing. It is noted unless it
/// reports that the time expired.
pub proof fn law_timeout_completed(trace: TraceView, completion: Completion<'_>, now: u64)
    requires
        completion.user_data.raw() >= 0x2_0000,
        completion.result > i32::MIN,
    ensures
        trace.after(completion, now) == trace,
        ends_trace(completion),
        trace.read_outcome(completion) is None,
        completion.result == -62 ==> trace.failure(completion) is None,
        completion.result != -62 ==> (trace.failure(completion) matches Some(code) && code
            == -completion.result),
{
    assert(trace.after(completion, now) =~= trace);
}

/// The completions that a trace can have: of a send in flight, of a read that
/// failed or that filled a buffer with at least the headers of a message, and of
/// the timeout.
pub proof fn law_completion_expected(trace: TraceView, completion: Completion<'_>)
    requires
        completion.result > i32::MIN,
    ensures
        ({
            let raw = completion.user_data.raw();
            let slot = raw - 0x1_0000;
            &&& raw < 0x1_0000 ==> (trace.expects(completion) <==> trace.in_flight.contains_key(
                raw as usize,
            ))
            &&& 0x1_0000 <= raw < 0x2_0000 ==> (trace.expects(completion) <==> {
                &&& slot < trace.readers.len()
                &&& completion.result < 0 || {
                    &&& completion.result > 0
                    &&& completion.flags & 1 != 0
                    &&& completion.buffer@.len() >= 16 + trace.readers[slot].name_room
                        + trace.readers[slot].control_room
                }
            })
            &&& 0x2_0000 <= raw < 0x3_0000 ==> trace.expects(completion)
            &&& 0x3_0000 <= raw ==> !trace.expects(completion)
        }),
{
}

/// A trace is in order where each send in flight carries a probe that it has.
pub proof fn law_trace_in_order(trace: TraceView)
    ensures
        trace.wf() <==> forall|slot: usize| #[trigger]
            trace.in_flight.contains_key(slot) ==> trace.in_flight[slot] < trace.probes.len(),
{
}

} // verus!
