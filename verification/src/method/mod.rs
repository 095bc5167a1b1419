//! Probing methods: what they send, and what the replies mean.

use crate::net::{Domain, IcmpError, IpAddr};
use crate::platform::EHOSTUNREACH;
use crate::text::{decimal, decimal_text};
use vstd::prelude::*;

pub mod echo;
pub mod icmp;
pub mod icmpv6;

pub use icmp::Icmp;
pub use icmpv6::Icmpv6;

verus! {

/// Identifies one probe in flight.
#[derive(Debug, Clone, Copy, PartialEq, Eq, Structural)]
pub struct ProbeId(pub u16);

impl ProbeId {
    /// The position of the probe in the trace.
    pub fn index(self) -> (index: usize)
        ensures
            index == self.0,
    {
        self.0 as usize
    }
}

/// Where a datagram is sent to, or what a socket is bound to.
#[derive(Debug, Clone, Copy, PartialEq, Eq)]
pub struct SocketAddr {
    pub ip: IpAddr,
    pub port: u16,
}

/// The protocol a socket speaks.
#[derive(Debug, Clone, Copy, PartialEq, Eq, Structural)]
pub enum Protocol {
    /// ICMP over IPv4.
    Icmpv4,
    /// ICMP over IPv6.
    Icmpv6,
}

/// The datagram socket a method sends its probes on.
#[derive(Debug, Clone, Copy, PartialEq, Eq)]
pub struct SocketPlan {
    pub domain: Domain,
    pub protocol: Protocol,
    /// The address to bind the socket to.
    pub bind: SocketAddr,
}

/// One queue the trace reads from.
#[derive(Debug, Clone, Copy)]
pub struct ReplyQueue {
    /// Read the socket's error queue rather than its receive queue.
    pub err_queue: bool,
    pub replies: QueueReplies,
}

/// A response read from one of our queues.
#[derive(Debug, Clone, Copy)]
pub struct Reply<'a> {
    pub source: Option<IpAddr>,
    /// Either the reply or the datagram an intermediate node quoted back.
    pub quoted: &'a [u8],
    /// Set when the reply arrived on the socket error queue.
    pub error: Option<IcmpError>,
}

/// The contents of a [`Reply`].
pub struct ReplyView {
    pub source: Option<IpAddr>,
    pub quoted: Seq<u8>,
    pub error: Option<IcmpError>,
}

impl View for Reply<'_> {
    type V = ReplyView;

    open spec fn view(&self) -> ReplyView {
        ReplyView { source: self.source, quoted: self.quoted@, error: self.error }
    }
}

/// Indicates what a reply means for the trace.
#[derive(Debug, Clone, Copy, PartialEq, Eq)]
pub enum ReplyKind {
    /// An intermediate hop.
    Hop,
    /// The target answered.
    Destination,
    /// Delivery failed.
    Unreachable(Unreachable),
}

/// Provides information about a failed probe delivery.
#[derive(Debug, Clone, Copy, PartialEq, Eq)]
pub enum Unreachable {
    /// A named marker, such as `!N`.
    Marker(&'static str),
    /// A Destination Unreachable code with no named marker, shown as `!<code>`.
    Code(u8),
    /// Any other error, shown as `!<type-code>`.
    Other { icmp_type: u8, code: u8 },
    /// The probe exceeded the next hop's MTU, shown as `!F-<mtu>`.
    TooBig { mtu: u32 },
}

/// An 8-bit number in decimal.
pub open spec fn decimal_u8(n: u8) -> Seq<char> {
    decimal(n as int)
}

/// A 32-bit number in decimal.
pub open spec fn decimal_u32(n: u32) -> Seq<char> {
    decimal(n as int)
}

impl Unreachable {
    /// How traceroute prints the failure.
    pub open spec fn shown(self) -> Seq<char> {
        match self {
            Unreachable::Marker(marker) => marker@,
            Unreachable::Code(code) => seq!['!', '<'] + decimal_u8(code) + seq!['>'],
            Unreachable::Other { icmp_type, code } => seq!['!', '<'] + decimal_u8(icmp_type) + seq![
                '-',
            ] + decimal_u8(code) + seq!['>'],
            Unreachable::TooBig { mtu } => seq!['!', 'F', '-'] + decimal_u32(mtu),
        }
    }

    /// Render the failure the way traceroute prints it.
    pub fn to_string(&self) -> (text: String)
        ensures
            text@ == self.shown(),
    {
        proof {
            reveal_strlit("!<");
            reveal_strlit("-");
            reveal_strlit(">");
            reveal_strlit("!F-");
        }
        let mut text: String = String::new();
        match self {
            Unreachable::Marker(marker) => {
                text.append(marker);
            },
            Unreachable::Code(code) => {
                text.append("!<");
                text.append(decimal_text(u64::from(*code)).as_str());
                text.append(">");
            },
            Unreachable::Other { icmp_type, code } => {
                text.append("!<");
                text.append(decimal_text(u64::from(*icmp_type)).as_str());
                text.append("-");
                text.append(decimal_text(u64::from(*code)).as_str());
                text.append(">");
            },
            Unreachable::TooBig { mtu } => {
                text.append("!F-");
                text.append(decimal_text(u64::from(*mtu)).as_str());
            },
        }
        assert(text@ =~= self.shown());
        text
    }
}

impl ReplyKind {
    /// Whether or not this kind of reply signals the completion of the trace.
    pub fn terminates_trace(self) -> (terminates: bool)
        ensures
            terminates == (self is Destination),
    {
        match self {
            ReplyKind::Destination => true,
            _ => false,
        }
    }
}

/// Interprets the replies arriving on one queue.
pub trait Replies {
    /// The probe a reply answers.
    spec fn identified(&self, reply: ReplyView) -> Option<ProbeId>;

    /// What a reply means.
    spec fn classified(&self, reply: ReplyView) -> ReplyKind;

    /// Identify which probe a reply answers. A router only has to quote back
    /// the first eight bytes of the datagram it dropped, so any information
    /// needed must be encoded within them.
    fn identify(&self, reply: &Reply<'_>) -> (id: Option<ProbeId>)
        ensures
            id == self.identified(reply@),
    ;

    /// Classify a reply.
    fn classify(&self, reply: &Reply<'_>) -> (kind: ReplyKind)
        ensures
            kind == self.classified(reply@),
    ;

    /// Read errors that should be ignored because they indicate a queued error
    /// rather than a failure.
    fn ignores_read_error(&self, _error: i32) -> (ignored: bool)
        default_ensures
            !ignored,
    {
        false
    }
}

/// Describes a probing method.
pub trait Method {
    /// The datagram for a probe.
    spec fn datagram(&self, id: ProbeId) -> Seq<u8>;

    /// Where the probes go.
    spec fn destination(&self) -> SocketAddr;

    /// The length of the largest reply.
    spec fn largest_reply(&self) -> int;

    /// The socket that the probes are sent on.
    spec fn socket(&self) -> SocketPlan;

    /// The queues that replies come back on.
    spec fn queues(&self) -> Seq<ReplyQueue>;

    /// The socket probes are sent on and the queues replies come back on.
    fn open(&self) -> (opened: (SocketPlan, Vec<ReplyQueue>))
        ensures
            opened.0 == self.socket(),
            opened.1@ == self.queues(),
    ;

    /// The datagram to send for `id`, and where to send it.
    fn probe(&self, id: ProbeId) -> (probe: (Vec<u8>, SocketAddr))
        requires
            self.datagram(id).len() <= isize::MAX,
        ensures
            probe.0@ == self.datagram(id),
            probe.1 == self.destination(),
    ;

    /// The largest reply this method can receive including the protocol's
    /// headers.
    fn max_reply_len(&self) -> (len: usize)
        ensures
            len == self.largest_reply(),
    ;
}

/// The replies that one queue of a method brings.
#[derive(Debug, Clone, Copy)]
pub enum QueueReplies {
    /// Echo replies to IPv4 probes.
    IcmpEcho(icmp::EchoReplies),
    /// Errors about IPv4 probes.
    IcmpError(icmp::ErrorReplies),
    /// Echo replies to IPv6 probes.
    Icmpv6Echo(icmpv6::EchoReplies),
    /// Errors about IPv6 probes.
    Icmpv6Error(icmpv6::ErrorReplies),
}

impl Replies for QueueReplies {
    open spec fn identified(&self, reply: ReplyView) -> Option<ProbeId> {
        match self {
            QueueReplies::IcmpEcho(replies) => replies.identified(reply),
            QueueReplies::IcmpError(replies) => replies.identified(reply),
            QueueReplies::Icmpv6Echo(replies) => replies.identified(reply),
            QueueReplies::Icmpv6Error(replies) => replies.identified(reply),
        }
    }

    open spec fn classified(&self, reply: ReplyView) -> ReplyKind {
        match self {
            QueueReplies::IcmpEcho(replies) => replies.classified(reply),
            QueueReplies::IcmpError(replies) => replies.classified(reply),
            QueueReplies::Icmpv6Echo(replies) => replies.classified(reply),
            QueueReplies::Icmpv6Error(replies) => replies.classified(reply),
        }
    }

    fn identify(&self, reply: &Reply<'_>) -> (id: Option<ProbeId>) {
        match self {
            QueueReplies::IcmpEcho(replies) => replies.identify(reply),
            QueueReplies::IcmpError(replies) => replies.identify(reply),
            QueueReplies::Icmpv6Echo(replies) => replies.identify(reply),
            QueueReplies::Icmpv6Error(replies) => replies.identify(reply),
        }
    }

    fn classify(&self, reply: &Reply<'_>) -> (kind: ReplyKind) {
        match self {
            QueueReplies::IcmpEcho(replies) => replies.classify(reply),
            QueueReplies::IcmpError(replies) => replies.classify(reply),
            QueueReplies::Icmpv6Echo(replies) => replies.classify(reply),
            QueueReplies::Icmpv6Error(replies) => replies.classify(reply),
        }
    }

    fn ignores_read_error(&self, error: i32) -> (ignored: bool)
        ensures
            ignored == self.ignored(error),
    {
        match self {
            QueueReplies::IcmpEcho(replies) => replies.ignores_read_error(error),
            QueueReplies::IcmpError(replies) => replies.ignores_read_error(error),
            QueueReplies::Icmpv6Echo(replies) => replies.ignores_read_error(error),
            QueueReplies::Icmpv6Error(replies) => replies.ignores_read_error(error),
        }
    }
}

impl QueueReplies {
    /// The read errors that the queue ignores: on a receive queue, "Host
    /// Unreachable" announces an error that waits on the error queue.
    pub open spec fn ignored(self, error: i32) -> bool {
        match self {
            QueueReplies::IcmpEcho(_) | QueueReplies::Icmpv6Echo(_) => error == -EHOSTUNREACH,
            QueueReplies::IcmpError(_) | QueueReplies::Icmpv6Error(_) => false,
        }
    }
}

/// A packet size that leaves no room for the headers.
#[derive(Debug, Clone, Copy, PartialEq, Eq, Structural)]
pub struct PacketTooSmall {
    /// The smallest packet size.
    pub min: usize,
}

impl PacketTooSmall {
    /// The text of the error.
    pub open spec fn shown(self) -> Seq<char> {
        "packet size must be at least "@ + decimal(self.min as int) + " bytes for method icmp"@
    }

    /// Render the error.
    pub fn to_string(&self) -> (text: String)
        ensures
            text@ == self.shown(),
    {
        let mut text: String = String::new();
        text.append("packet size must be at least ");
        text.append(decimal_text(self.min as u64).as_str());
        text.append(" bytes for method icmp");
        assert(text@ =~= self.shown());
        text
    }
}

/// The probe that a reply answers is the one whose number stands in the seventh
/// and eighth byte of what the reply quotes, in network order, on every queue.
/// What is shorter than a header names none. Nothing else of the reply counts.
pub proof fn law_reply_identified(replies: QueueReplies, reply: ReplyView)
    ensures
        reply.quoted.len() < 8 ==> replies.identified(reply) is None,
        reply.quoted.len() >= 8 ==> (replies.identified(reply) matches Some(id) && id.0 == 0x100
            * reply.quoted[6] + reply.quoted[7]),
{
}

/// What a reply means on a queue: an answer on a receive queue comes from the
/// target, whatever it holds. On an error queue the meaning rests with the error
/// alone, so replies with the same error mean the same, whoever sent them and
/// whatever they quote.
pub proof fn law_reply_classified(replies: QueueReplies, reply: ReplyView, other: ReplyView)
    ensures
        replies is IcmpEcho || replies is Icmpv6Echo ==> replies.classified(reply)
            == ReplyKind::Destination,
        replies is IcmpError ==> replies.classified(reply) == icmp::ErrorReplies.classified(reply),
        replies is Icmpv6Error ==> replies.classified(reply) == icmpv6::ErrorReplies.classified(
            reply,
        ),
        reply.error == other.error ==> replies.classified(reply) == replies.classified(other),
{
}

/// The one read error that is ignored is "Host Unreachable", and that on a
/// receive queue alone.
pub proof fn law_read_error_ignored(replies: QueueReplies, error: i32)
    ensures
        replies.ignored(error) <==> error == -113 && (replies is IcmpEcho
            || replies is Icmpv6Echo),
{
}

/// Small numbers are written as any number is.
pub proof fn law_decimal_machine(n: u8, m: u32)
    ensures
        decimal_u8(n) == decimal(n as int),
        decimal_u32(m) == decimal(m as int),
{
}

/// How a failure is shown: a marker as it stands, a code in angle brackets, a type
/// and a code in angle brackets with a dash between them, and an MTU behind
/// `!F-`.
pub proof fn law_failure_shown(failure: Unreachable)
    ensures
        failure matches Unreachable::Marker(marker) ==> failure.shown() == marker@,
        failure matches Unreachable::Code(code) ==> failure.shown() == "!<"@ + decimal_u8(code)
            + ">"@,
        failure matches Unreachable::Other { icmp_type, code } ==> failure.shown() == "!<"@
            + decimal_u8(icmp_type) + "-"@ + decimal_u8(code) + ">"@,
        failure matches Unreachable::TooBig { mtu } ==> failure.shown() == "!F-"@ + decimal_u32(
            mtu,
        ),
{
    reveal_strlit("!<");
    reveal_strlit("-");
    reveal_strlit(">");
    reveal_strlit("!F-");
    assert("!<"@ =~= seq!['!', '<']);
    assert("-"@ =~= seq!['-']);
    assert(">"@ =~= seq!['>']);
    assert("!F-"@ =~= seq!['!', 'F', '-']);
}

/// The text about a packet that is too small names the smallest size.
pub proof fn law_too_small_shown(error: PacketTooSmall)
    ensures
        error.shown() == "packet size must be at least "@ + decimal(error.min as int)
            + " bytes for method icmp"@,
{
}

} // verus!
