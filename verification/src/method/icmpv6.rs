//! ICMPv6 echo requests over IPv6.

use super::echo::{
    build_echo_request, echo_request, law_sequence_recovers_probe, sequence, sequence_of,
    ECHO_HEADER_LEN,
};
use super::{
    Method, PacketTooSmall, ProbeId, Protocol, QueueReplies, Replies, Reply, ReplyKind, ReplyQueue,
    ReplyView, SocketAddr, SocketPlan, Unreachable,
};
use crate::net::{Domain, IcmpError, IpAddr, Ipv6Addr, IPV6_HEADER_LENGTH};
use crate::platform::{ehostunreach, EHOSTUNREACH};
use vstd::prelude::*;

verus! {

/// Type of an echo request.
pub const ECHO_REQUEST: u8 = 128;

/// Type of a "Destination Unreachable" message.
pub const DEST_UNREACH: u8 = 1;

/// Type of a "Packet Too Big" message.
pub const PACKET_TOO_BIG: u8 = 2;

/// Type of a "Time Exceeded" message.
pub const TIME_EXCEEDED: u8 = 3;

/// The queue that answers to our echo requests arrive on.
#[derive(Debug, Clone, Copy)]
pub struct EchoReplies;

impl Replies for EchoReplies {
    open spec fn identified(&self, reply: ReplyView) -> Option<ProbeId> {
        sequence_of(reply.quoted)
    }

    open spec fn classified(&self, reply: ReplyView) -> ReplyKind {
        ReplyKind::Destination
    }

    fn identify(&self, reply: &Reply<'_>) -> (id: Option<ProbeId>) {
        sequence(reply.quoted)
    }

    fn classify(&self, _reply: &Reply<'_>) -> (kind: ReplyKind) {
        // Only the target answers an echo request.
        ReplyKind::Destination
    }

    fn ignores_read_error(&self, error: i32) -> (ignored: bool)
        ensures
            ignored == (error == -EHOSTUNREACH),
    {
        error == -ehostunreach()
    }
}

/// The queue that errors about our echo requests arrive on.
#[derive(Debug, Clone, Copy)]
pub struct ErrorReplies;

/// What a "Destination Unreachable" message with this code means.
pub open spec fn dest_unreach_kind(code: u8) -> ReplyKind {
    match code {
        4 => ReplyKind::Destination,
        0 => ReplyKind::Unreachable(Unreachable::Marker("!N")),
        1 => ReplyKind::Unreachable(Unreachable::Marker("!X")),
        2 | 3 => ReplyKind::Unreachable(Unreachable::Marker("!H")),
        _ => ReplyKind::Unreachable(Unreachable::Code(code)),
    }
}

/// What an error means.
pub open spec fn error_kind(error: Option<IcmpError>) -> ReplyKind {
    match error {
        None => ReplyKind::Unreachable(Unreachable::Marker("!?")),
        Some(error) => if error.icmp_type == TIME_EXCEEDED && error.icmp_code == 0 {
            ReplyKind::Hop
        } else if error.icmp_type == DEST_UNREACH {
            dest_unreach_kind(error.icmp_code)
        } else if error.icmp_type == PACKET_TOO_BIG {
            ReplyKind::Unreachable(Unreachable::TooBig { mtu: error.info })
        } else {
            ReplyKind::Unreachable(
                Unreachable::Other { icmp_type: error.icmp_type, code: error.icmp_code },
            )
        },
    }
}

impl Replies for ErrorReplies {
    open spec fn identified(&self, reply: ReplyView) -> Option<ProbeId> {
        sequence_of(reply.quoted)
    }

    open spec fn classified(&self, reply: ReplyView) -> ReplyKind {
        error_kind(reply.error)
    }

    fn identify(&self, reply: &Reply<'_>) -> (id: Option<ProbeId>) {
        sequence(reply.quoted)
    }

    fn classify(&self, reply: &Reply<'_>) -> (kind: ReplyKind) {
        let error: IcmpError = match reply.error {
            Some(error) => error,
            None => {
                return ReplyKind::Unreachable(Unreachable::Marker("!?"));
            },
        };
        if error.icmp_type == TIME_EXCEEDED && error.icmp_code == 0 {
            return ReplyKind::Hop;
        }
        if error.icmp_type == PACKET_TOO_BIG {
            return ReplyKind::Unreachable(Unreachable::TooBig { mtu: error.info });
        }
        if error.icmp_type != DEST_UNREACH {
            return ReplyKind::Unreachable(
                Unreachable::Other { icmp_type: error.icmp_type, code: error.icmp_code },
            );
        }
        let unreachable: Unreachable = match error.icmp_code {
            // "Port Unreachable" should only come from the destination.
            4 => {
                return ReplyKind::Destination;
            },
            0 => Unreachable::Marker("!N"),
            1 => Unreachable::Marker("!X"),
            2 | 3 => Unreachable::Marker("!H"),
            code => Unreachable::Code(code),
        };

        ReplyKind::Unreachable(unreachable)
    }
}

/// Probes with ICMPv6 echo requests.
#[derive(Debug, Clone, Copy)]
pub struct Icmpv6 {
    target: Ipv6Addr,
    payload_len: usize,
}

impl Icmpv6 {
    /// The smallest packet that holds the headers. This method is IPv6-only.
    pub const MIN_PACKET_LEN: usize = IPV6_HEADER_LENGTH + ECHO_HEADER_LEN;

    /// A packet of any size fits its headers in front of the payload.
    #[verifier::type_invariant]
    spec fn fits(self) -> bool {
        Self::MIN_PACKET_LEN + self.payload_len <= usize::MAX
    }

    /// The address that is probed.
    pub closed spec fn target_addr(self) -> Ipv6Addr {
        self.target
    }

    /// The number of bytes behind the echo header.
    pub closed spec fn payload(self) -> nat {
        self.payload_len as nat
    }

    /// `packet_len` counts the whole IP packet, and must be large enough to
    /// hold the headers.
    pub fn try_new(target: Ipv6Addr, packet_len: usize) -> (method: Result<Self, PacketTooSmall>)
        ensures
            match method {
                Ok(method) => {
                    &&& packet_len >= IPV6_HEADER_LENGTH + ECHO_HEADER_LEN
                    &&& method.target_addr() == target
                    &&& method.payload() == packet_len - IPV6_HEADER_LENGTH - ECHO_HEADER_LEN
                    &&& method.payload() == packet_len - 48
                },
                Err(error) => {
                    &&& packet_len < IPV6_HEADER_LENGTH + ECHO_HEADER_LEN
                    &&& error.min == IPV6_HEADER_LENGTH + ECHO_HEADER_LEN
                    &&& error.min == 48
                },
            },
    {
        match packet_len.checked_sub(Self::MIN_PACKET_LEN) {
            Some(payload_len) => Ok(Icmpv6 { target, payload_len }),
            None => Err(PacketTooSmall { min: Self::MIN_PACKET_LEN }),
        }
    }
}

impl Method for Icmpv6 {
    open spec fn datagram(&self, id: ProbeId) -> Seq<u8> {
        echo_request(ECHO_REQUEST, id, self.payload())
    }

    open spec fn destination(&self) -> SocketAddr {
        SocketAddr { ip: IpAddr::V6(self.target_addr()), port: 0 }
    }

    open spec fn largest_reply(&self) -> int {
        ECHO_HEADER_LEN + self.payload()
    }

    open spec fn socket(&self) -> SocketPlan {
        SocketPlan {
            domain: Domain::Ipv6,
            protocol: Protocol::Icmpv6,
            bind: SocketAddr { ip: IpAddr::V6(Ipv6Addr { octets: [0, 0, 0, 0, 0, 0, 0, 0, 0, 0, 0, 0, 0, 0, 0, 0] }), port: 0 },
        }
    }

    open spec fn queues(&self) -> Seq<ReplyQueue> {
        seq![
            ReplyQueue { err_queue: false, replies: QueueReplies::Icmpv6Echo(EchoReplies) },
            ReplyQueue { err_queue: true, replies: QueueReplies::Icmpv6Error(ErrorReplies) },
        ]
    }

    fn open(&self) -> (opened: (SocketPlan, Vec<ReplyQueue>)) {
        let plan = SocketPlan {
            domain: Domain::Ipv6,
            protocol: Protocol::Icmpv6,
            bind: SocketAddr { ip: IpAddr::V6(Ipv6Addr { octets: [0, 0, 0, 0, 0, 0, 0, 0, 0, 0, 0, 0, 0, 0, 0, 0] }), port: 0 },
        };
        let queues = vec![
            ReplyQueue { err_queue: false, replies: QueueReplies::Icmpv6Echo(EchoReplies) },
            ReplyQueue { err_queue: true, replies: QueueReplies::Icmpv6Error(ErrorReplies) },
        ];
        assert(queues@ =~= self.queues());
        (plan, queues)
    }

    fn probe(&self, id: ProbeId) -> (probe: (Vec<u8>, SocketAddr)) {
        // The kernel assigns the identifier, and computes the checksum, which
        // covers a pseudo header including the source address it picks. We use
        // the sequence number to store the probe's identifier.
        let packet: Vec<u8> = build_echo_request(ECHO_REQUEST, id, self.payload_len);
        (packet, SocketAddr { ip: IpAddr::V6(self.target), port: 0 })
    }

    fn max_reply_len(&self) -> (len: usize) {
        proof {
            use_type_invariant(self);
        }
        // An echo reply echoes our payload back with the same header length.
        ECHO_HEADER_LEN + self.payload_len
    }
}

/// A probe is as long as the packet size asks for once the IP header is counted
/// in, and the largest reply is as long as a probe.
pub proof fn law_probe_length(method: Icmpv6, id: ProbeId)
    ensures
        method.datagram(id).len() == ECHO_HEADER_LEN + method.payload(),
        method.largest_reply() == method.datagram(id).len(),
{
}

/// A probe is identified from any reply that has its first eight bytes, on the
/// queue of echo replies as on the queue of errors, even where the kernel
/// replaced the identifier and the checksum.
pub proof fn law_probe_identified(method: Icmpv6, id: ProbeId, reply: ReplyView)
    requires
        reply.quoted.len() >= ECHO_HEADER_LEN,
        reply.quoted.subrange(6, 8) == method.datagram(id).subrange(6, 8),
    ensures
        EchoReplies.identified(reply) == Some(id),
        ErrorReplies.identified(reply) == Some(id),
{
    law_sequence_recovers_probe(ECHO_REQUEST, id, method.payload(), reply.quoted);
}

/// Only a "Time Exceeded" in transit is a hop, and only a "Port Unreachable"
/// says that the target was reached; every other error is a failed delivery.
pub proof fn law_error_kinds(error: IcmpError)
    ensures
        error_kind(Some(error)) is Hop <==> error.icmp_type == TIME_EXCEEDED && error.icmp_code == 0,
        error_kind(Some(error)) is Destination <==> error.icmp_type == DEST_UNREACH
            && error.icmp_code == 4,
        error_kind(None) is Unreachable,
{
}

/// What is sent for a probe: an ICMPv6 echo request, which is type 128 and code 0,
/// with no checksum and no identifier, the probe's number as its sequence number
/// in network order, and zero bytes as its payload.
pub proof fn law_probe_is_echo_request(method: Icmpv6, id: ProbeId)
    ensures
        ({
            let sent = method.datagram(id);
            &&& sent.len() == 8 + method.payload()
            &&& sent[0] == 128
            &&& forall|i: int| 1 <= i < 6 ==> #[trigger] sent[i] == 0
            &&& 0x100 * sent[6] + sent[7] == id.0
            &&& forall|i: int| 8 <= i < sent.len() ==> #[trigger] sent[i] == 0
        }),
{
}

/// Two probes of a method differ in their numbers alone: they have the same
/// length and the same bytes but for the sequence number, which tells them
/// apart.
pub proof fn law_probes_distinct(method: Icmpv6, a: ProbeId, b: ProbeId)
    ensures
        method.datagram(a).len() == method.datagram(b).len(),
        forall|i: int|
            0 <= i < method.datagram(a).len() && !(6 <= i < 8) ==> #[trigger] method.datagram(a)[i]
                == method.datagram(b)[i],
        method.datagram(a) == method.datagram(b) ==> a == b,
{
    law_probe_is_echo_request(method, a);
    law_probe_is_echo_request(method, b);
}

/// Probes go to the target over a datagram socket for ICMPv6 that is bound to no
/// address in particular. The replies come on the receive queue and the errors
/// on the error queue.
pub proof fn law_method_opened(method: Icmpv6)
    ensures
        method.destination().ip == IpAddr::V6(method.target_addr()),
        method.destination().port == 0,
        method.socket().domain is Ipv6,
        method.socket().protocol is Icmpv6,
        method.socket().bind.port == 0,
        method.socket().bind.ip matches IpAddr::V6(addr) && addr.octets@.len() == 16 && forall|
            i: int,
        |
            0 <= i < 16 ==> #[trigger] addr.octets@[i] == 0,
        method.queues().len() == 2,
        !method.queues()[0].err_queue,
        method.queues()[0].replies is Icmpv6Echo,
        method.queues()[1].err_queue,
        method.queues()[1].replies is Icmpv6Error,
        method.largest_reply() == 8 + method.payload(),
{
}

/// What a reply on the error queue means, whoever sent it and whatever it quotes:
/// only "Time Exceeded" in transit is a hop, and only "Port Unreachable" comes
/// from the target. The other codes of "Destination Unreachable" have their
/// markers, "Packet Too Big" gives the MTU of the next hop, and an error of any
/// other type is shown by its numbers.
pub proof fn law_error_classified(reply: ReplyView)
    ensures
        ErrorReplies.classified(reply) == error_kind(reply.error),
        reply.error is None ==> ErrorReplies.classified(reply) == ReplyKind::Unreachable(
            Unreachable::Marker("!?"),
        ),
        reply.error matches Some(error) ==> {
            let kind = ErrorReplies.classified(reply);
            let code = error.icmp_code;
            let undelivered = error.icmp_type == 1;
            let too_big = error.icmp_type == 2;
            &&& kind is Hop <==> error.icmp_type == 3 && code == 0
            &&& kind is Destination <==> undelivered && code == 4
            &&& undelivered && code == 0 ==> kind == ReplyKind::Unreachable(
                Unreachable::Marker("!N"),
            )
            &&& undelivered && code == 1 ==> kind == ReplyKind::Unreachable(
                Unreachable::Marker("!X"),
            )
            &&& undelivered && (code == 2 || code == 3) ==> kind == ReplyKind::Unreachable(
                Unreachable::Marker("!H"),
            )
            &&& undelivered && code > 4 ==> kind == ReplyKind::Unreachable(Unreachable::Code(code))
            &&& too_big ==> kind == ReplyKind::Unreachable(
                Unreachable::TooBig { mtu: error.info },
            )
            &&& !undelivered && !too_big && !(error.icmp_type == 3 && code == 0) ==> kind
                == ReplyKind::Unreachable(Unreachable::Other { icmp_type: error.icmp_type, code })
        },
{
}

} // verus!
