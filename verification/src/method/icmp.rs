//! ICMP echo requests over IPv4.

use super::echo::{
    build_echo_request, echo_request, law_sequence_recovers_probe, lemma_request_sum, sequence,
    sequence_of, ECHO_HEADER_LEN,
};
use super::{
    Method, PacketTooSmall, ProbeId, Protocol, QueueReplies, Replies, Reply, ReplyKind, ReplyQueue,
    ReplyView, SocketAddr, SocketPlan, Unreachable,
};
use crate::net::{
    checksum, high_byte, internet_checksum, law_checksum_verifies, lemma_word_sum_with, low_byte,
    with_u16, word_sum, Domain, IcmpError, IpAddr, Ipv4Addr, MIN_IPV4_HEADER_LEN,
};
use crate::platform::{ehostunreach, EHOSTUNREACH};
use vstd::prelude::*;

verus! {

/// Type of an echo request.
pub const ECHO_REQUEST: u8 = 8;

/// Type of a "Destination Unreachable" message.
pub const DEST_UNREACH: u8 = 3;

/// Type of a "Time Exceeded" message.
pub const TIME_EXCEEDED: u8 = 11;

/// The queue that answers to our echo requests arrive on.
#[derive(Debug, Clone, Copy)]
pub struct EchoReplies;

impl Replies for EchoReplies {
    open spec fn identified(&self, reply: ReplyView) -> Option<ProbeId> {
        sequence_of(reply.quoted)
    }

    open spec fn classified(&self, reply: ReplyView) -> ReplyKind {
        ReplyKind::Destination
    }

    fn identify(&self, reply: &Reply<'_>) -> (id: Option<ProbeId>) {
        sequence(reply.quoted)
    }

    fn classify(&self, _reply: &Reply<'_>) -> (kind: ReplyKind) {
        // Only the target answers an echo request.
        ReplyKind::Destination
    }

    fn ignores_read_error(&self, error: i32) -> (ignored: bool)
        ensures
            ignored == (error == -EHOSTUNREACH),
    {
        error == -ehostunreach()
    }
}

/// The queue that errors about our echo requests arrive on.
#[derive(Debug, Clone, Copy)]
pub struct ErrorReplies;

/// What a "Destination Unreachable" message with this code means.
pub open spec fn dest_unreach_kind(code: u8, info: u32) -> ReplyKind {
    match code {
        3 => ReplyKind::Destination,
        0 | 6 | 8 | 11 => ReplyKind::Unreachable(Unreachable::Marker("!N")),
        1 | 7 | 12 => ReplyKind::Unreachable(Unreachable::Marker("!H")),
        9 | 10 | 13 => ReplyKind::Unreachable(Unreachable::Marker("!X")),
        2 => ReplyKind::Unreachable(Unreachable::Marker("!P")),
        4 => ReplyKind::Unreachable(Unreachable::TooBig { mtu: info }),
        5 => ReplyKind::Unreachable(Unreachable::Marker("!S")),
        14 => ReplyKind::Unreachable(Unreachable::Marker("!V")),
        15 => ReplyKind::Unreachable(Unreachable::Marker("!C")),
        _ => ReplyKind::Unreachable(Unreachable::Code(code)),
    }
}

/// What an error means.
pub open spec fn error_kind(error: Option<IcmpError>) -> ReplyKind {
    match error {
        None => ReplyKind::Unreachable(Unreachable::Marker("!?")),
        Some(error) => if error.icmp_type == TIME_EXCEEDED && error.icmp_code == 0 {
            ReplyKind::Hop
        } else if error.icmp_type == DEST_UNREACH {
            dest_unreach_kind(error.icmp_code, error.info)
        } else {
            ReplyKind::Unreachable(
                Unreachable::Other { icmp_type: error.icmp_type, code: error.icmp_code },
            )
        },
    }
}

impl Replies for ErrorReplies {
    open spec fn identified(&self, reply: ReplyView) -> Option<ProbeId> {
        sequence_of(reply.quoted)
    }

    open spec fn classified(&self, reply: ReplyView) -> ReplyKind {
        error_kind(reply.error)
    }

    fn identify(&self, reply: &Reply<'_>) -> (id: Option<ProbeId>) {
        sequence(reply.quoted)
    }

    fn classify(&self, reply: &Reply<'_>) -> (kind: ReplyKind) {
        let error: IcmpError = match reply.error {
            Some(error) => error,
            None => {
                return ReplyKind::Unreachable(Unreachable::Marker("!?"));
            },
        };
        if error.icmp_type == TIME_EXCEEDED && error.icmp_code == 0 {
            return ReplyKind::Hop;
        }
        if error.icmp_type != DEST_UNREACH {
            return ReplyKind::Unreachable(
                Unreachable::Other { icmp_type: error.icmp_type, code: error.icmp_code },
            );
        }
        let unreachable: Unreachable = match error.icmp_code {
            // "Port Unreachable" should only come from the destination.
            3 => {
                return ReplyKind::Destination;
            },
            0 | 6 | 8 | 11 => Unreachable::Marker("!N"),
            1 | 7 | 12 => Unreachable::Marker("!H"),
            9 | 10 | 13 => Unreachable::Marker("!X"),
            2 => Unreachable::Marker("!P"),
            4 => Unreachable::TooBig { mtu: error.info },
            5 => Unreachable::Marker("!S"),
            14 => Unreachable::Marker("!V"),
            15 => Unreachable::Marker("!C"),
            code => Unreachable::Code(code),
        };

        ReplyKind::Unreachable(unreachable)
    }
}

/// Probes with ICMP echo requests over IPv4.
#[derive(Debug, Clone, Copy)]
pub struct Icmp {
    target: Ipv4Addr,
    payload_len: usize,
}

/// The echo request for a probe, with its checksum filled in.
pub open spec fn icmp_datagram(id: ProbeId, payload: nat) -> Seq<u8> {
    let request = echo_request(ECHO_REQUEST, id, payload);
    with_u16(request, 2, checksum(request))
}

impl Icmp {
    /// The smallest packet that holds the headers. This method is IPv4-only.
    pub const MIN_PACKET_LEN: usize = MIN_IPV4_HEADER_LEN + ECHO_HEADER_LEN;

    /// A packet of any size fits its headers in front of the payload.
    #[verifier::type_invariant]
    spec fn fits(self) -> bool {
        Self::MIN_PACKET_LEN + self.payload_len <= usize::MAX
    }

    /// The address that is probed.
    pub closed spec fn target_addr(self) -> Ipv4Addr {
        self.target
    }

    /// The number of bytes behind the echo header.
    pub closed spec fn payload(self) -> nat {
        self.payload_len as nat
    }

    /// `packet_len` counts the whole IP packet, and must be large enough to
    /// hold the headers.
    pub fn try_new(target: Ipv4Addr, packet_len: usize) -> (method: Result<Self, PacketTooSmall>)
        ensures
            match method {
                Ok(method) => {
                    &&& packet_len >= MIN_IPV4_HEADER_LEN + ECHO_HEADER_LEN
                    &&& method.target_addr() == target
                    &&& method.payload() == packet_len - MIN_IPV4_HEADER_LEN - ECHO_HEADER_LEN
                    &&& method.payload() == packet_len - 28
                },
                Err(error) => {
                    &&& packet_len < MIN_IPV4_HEADER_LEN + ECHO_HEADER_LEN
                    &&& error.min == MIN_IPV4_HEADER_LEN + ECHO_HEADER_LEN
                    &&& error.min == 28
                },
            },
    {
        match packet_len.checked_sub(Self::MIN_PACKET_LEN) {
            Some(payload_len) => Ok(Icmp { target, payload_len }),
            None => Err(PacketTooSmall { min: Self::MIN_PACKET_LEN }),
        }
    }
}

impl Method for Icmp {
    open spec fn datagram(&self, id: ProbeId) -> Seq<u8> {
        icmp_datagram(id, self.payload())
    }

    open spec fn destination(&self) -> SocketAddr {
        SocketAddr { ip: IpAddr::V4(self.target_addr()), port: 0 }
    }

    open spec fn largest_reply(&self) -> int {
        ECHO_HEADER_LEN + self.payload()
    }

    open spec fn socket(&self) -> SocketPlan {
        SocketPlan {
            domain: Domain::Ipv4,
            protocol: Protocol::Icmpv4,
            bind: SocketAddr { ip: IpAddr::V4(Ipv4Addr { octets: [0, 0, 0, 0] }), port: 0 },
        }
    }

    open spec fn queues(&self) -> Seq<ReplyQueue> {
        seq![
            ReplyQueue { err_queue: false, replies: QueueReplies::IcmpEcho(EchoReplies) },
            ReplyQueue { err_queue: true, replies: QueueReplies::IcmpError(ErrorReplies) },
        ]
    }

    fn open(&self) -> (opened: (SocketPlan, Vec<ReplyQueue>)) {
        let plan = SocketPlan {
            domain: Domain::Ipv4,
            protocol: Protocol::Icmpv4,
            bind: SocketAddr { ip: IpAddr::V4(Ipv4Addr { octets: [0, 0, 0, 0] }), port: 0 },
        };
        let queues = vec![
            ReplyQueue { err_queue: false, replies: QueueReplies::IcmpEcho(EchoReplies) },
            ReplyQueue { err_queue: true, replies: QueueReplies::IcmpError(ErrorReplies) },
        ];
        assert(queues@ =~= self.queues());
        (plan, queues)
    }

    fn probe(&self, id: ProbeId) -> (probe: (Vec<u8>, SocketAddr)) {
        // Let the kernel assign the ICMP identifier. We use the sequence number
        // to store the probe's identifier.
        let mut packet: Vec<u8> = build_echo_request(ECHO_REQUEST, id, self.payload_len);
        proof {
            lemma_request_sum(ECHO_REQUEST, id, self.payload());
            law_checksum_verifies(packet@, 2);
        }
        let sum: u16 = internet_checksum(packet.as_slice());
        let (high, low) = halves(sum);
        packet.set(2, high);
        packet.set(3, low);
        (packet, SocketAddr { ip: IpAddr::V4(self.target), port: 0 })
    }

    fn max_reply_len(&self) -> (len: usize) {
        proof {
            use_type_invariant(self);
        }
        // An echo reply echoes our payload back with the same header length.
        ECHO_HEADER_LEN + self.payload_len
    }
}

/// The bytes of a number in network order.
fn halves(n: u16) -> (bytes: (u8, u8))
    ensures
        bytes.0 == high_byte(n as int),
        bytes.1 == low_byte(n as int),
{
    ((n / 0x100) as u8, (n % 0x100) as u8)
}

/// Every probe carries a valid checksum: taken over the whole datagram, however
/// long, the checksum is zero.
pub proof fn law_probe_checksum(id: ProbeId, payload: nat)
    ensures
        checksum(icmp_datagram(id, payload)) == 0,
        word_sum(icmp_datagram(id, payload)) <= u32::MAX,
{
    let request = echo_request(ECHO_REQUEST, id, payload);
    assert(request[2] == 0 && request[3] == 0);
    law_checksum_verifies(request, 2);
    lemma_request_sum(ECHO_REQUEST, id, payload);
    lemma_word_sum_with(request, 2, checksum(request));
}

/// A probe is as long as the packet size asks for once the IP header is counted
/// in, and the largest reply is as long as a probe.
pub proof fn law_probe_length(method: Icmp, id: ProbeId)
    ensures
        method.datagram(id).len() == ECHO_HEADER_LEN + method.payload(),
        method.largest_reply() == method.datagram(id).len(),
{
}

/// A probe is identified from any reply that has its first eight bytes, on the
/// queue of echo replies as on the queue of errors, even where the kernel
/// replaced the identifier and the checksum.
pub proof fn law_probe_identified(method: Icmp, id: ProbeId, reply: ReplyView)
    requires
        reply.quoted.len() >= ECHO_HEADER_LEN,
        reply.quoted.subrange(6, 8) == method.datagram(id).subrange(6, 8),
    ensures
        EchoReplies.identified(reply) == Some(id),
        ErrorReplies.identified(reply) == Some(id),
{
    let request = echo_request(ECHO_REQUEST, id, method.payload());
    assert(method.datagram(id).subrange(6, 8) =~= request.subrange(6, 8));
    law_sequence_recovers_probe(ECHO_REQUEST, id, method.payload(), reply.quoted);
}

/// Only a "Time Exceeded" in transit is a hop, and only a "Port Unreachable"
/// says that the target was reached; every other error is a failed delivery.
pub proof fn law_error_kinds(error: IcmpError)
    ensures
        error_kind(Some(error)) is Hop <==> error.icmp_type == TIME_EXCEEDED && error.icmp_code == 0,
        error_kind(Some(error)) is Destination <==> error.icmp_type == DEST_UNREACH
            && error.icmp_code == 3,
        error_kind(None) is Unreachable,
{
}

/// What is sent for a probe: an echo request, which is type 8 and code 0, with no
/// identifier, the probe's number as its sequence number in network order, and
/// zero bytes as its payload. The checksum is a function of the number.
pub proof fn law_probe_is_echo_request(method: Icmp, id: ProbeId)
    ensures
        ({
            let sent = method.datagram(id);
            &&& sent.len() == 8 + method.payload()
            &&& sent[0] == 8
            &&& sent[1] == 0
            &&& 0x100 * sent[2] + sent[3] == (if id.0 <= 0xf7ff {
                0xf7ff - id.0
            } else {
                0x1_f7fe - id.0
            })
            &&& sent[4] == 0
            &&& sent[5] == 0
            &&& 0x100 * sent[6] + sent[7] == id.0
            &&& forall|i: int| 8 <= i < sent.len() ==> #[trigger] sent[i] == 0
        }),
{
    let request = echo_request(ECHO_REQUEST, id, method.payload());
    lemma_request_sum(ECHO_REQUEST, id, method.payload());
    let sent = method.datagram(id);
    assert(sent[2] == high_byte(checksum(request)) && sent[3] == low_byte(checksum(request)));
    assert(sent[6] == request[6] && sent[7] == request[7]);
    assert(forall|i: int| 8 <= i < sent.len() ==> #[trigger] sent[i] == request[i]);
}

/// Two probes of a method differ in their numbers alone: they go to the same
/// place, and have the same length and the same bytes but for the checksum and
/// the sequence number, which tell them apart.
pub proof fn law_probes_distinct(method: Icmp, a: ProbeId, b: ProbeId)
    ensures
        method.datagram(a).len() == method.datagram(b).len(),
        forall|i: int|
            0 <= i < method.datagram(a).len() && !(2 <= i < 4) && !(6 <= i < 8)
                ==> #[trigger] method.datagram(a)[i] == method.datagram(b)[i],
        method.datagram(a) == method.datagram(b) ==> a == b,
{
    law_probe_is_echo_request(method, a);
    law_probe_is_echo_request(method, b);
}

/// Probes go to the target over a datagram socket for ICMP that is bound to no
/// address in particular. The replies come on the receive queue and the errors
/// on the error queue.
pub proof fn law_method_opened(method: Icmp)
    ensures
        method.destination().ip == IpAddr::V4(method.target_addr()),
        method.destination().port == 0,
        method.socket().domain is Ipv4,
        method.socket().protocol is Icmpv4,
        method.socket().bind.port == 0,
        method.socket().bind.ip matches IpAddr::V4(addr) && addr.octets@ == seq![
            0u8,
            0u8,
            0u8,
            0u8,
        ],
        method.queues().len() == 2,
        !method.queues()[0].err_queue,
        method.queues()[0].replies is IcmpEcho,
        method.queues()[1].err_queue,
        method.queues()[1].replies is IcmpError,
        method.largest_reply() == 8 + method.payload(),
{
    assert(method.socket().bind.ip->V4_0.octets@ =~= seq![0u8, 0u8, 0u8, 0u8]);
}

/// What a reply on the error queue means, whoever sent it and whatever it quotes:
/// only "Time Exceeded" in transit is a hop, and only "Port Unreachable" comes
/// from the target. Every other code of "Destination Unreachable" has its marker,
/// where "Fragmentation Needed" gives the MTU of the next hop, and an error of
/// any other type is shown by its numbers.
pub proof fn law_error_classified(reply: ReplyView)
    ensures
        ErrorReplies.classified(reply) == error_kind(reply.error),
        reply.error is None ==> ErrorReplies.classified(reply) == ReplyKind::Unreachable(
            Unreachable::Marker("!?"),
        ),
        reply.error matches Some(error) ==> {
            let kind = ErrorReplies.classified(reply);
            let code = error.icmp_code;
            let undelivered = error.icmp_type == 3;
            &&& kind is Hop <==> error.icmp_type == 11 && code == 0
            &&& kind is Destination <==> undelivered && code == 3
            &&& undelivered && (code == 0 || code == 6 || code == 8 || code == 11) ==> kind
                == ReplyKind::Unreachable(Unreachable::Marker("!N"))
            &&& undelivered && (code == 1 || code == 7 || code == 12) ==> kind
                == ReplyKind::Unreachable(Unreachable::Marker("!H"))
            &&& undelivered && (code == 9 || code == 10 || code == 13) ==> kind
                == ReplyKind::Unreachable(Unreachable::Marker("!X"))
            &&& undelivered && code == 2 ==> kind == ReplyKind::Unreachable(
                Unreachable::Marker("!P"),
            )
            &&& undelivered && code == 4 ==> kind == ReplyKind::Unreachable(
                Unreachable::TooBig { mtu: error.info },
            )
            &&& undelivered && code == 5 ==> kind == ReplyKind::Unreachable(
                Unreachable::Marker("!S"),
            )
            &&& undelivered && code == 14 ==> kind == ReplyKind::Unreachable(
                Unreachable::Marker("!V"),
            )
            &&& undelivered && code == 15 ==> kind == ReplyKind::Unreachable(
                Unreachable::Marker("!C"),
            )
            &&& undelivered && code > 15 ==> kind == ReplyKind::Unreachable(
                Unreachable::Code(code),
            )
            &&& !undelivered && !(error.icmp_type == 11 && code == 0) ==> kind
                == ReplyKind::Unreachable(Unreachable::Other { icmp_type: error.icmp_type, code })
        },
{
}

} // verus!
