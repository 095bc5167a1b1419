//! Probing methods: the datagrams they send and how replies are read.

use ringroute::method::icmp;
use ringroute::method::icmpv6;
use ringroute::method::{
    Icmp, Icmpv6, Method, PacketTooSmall, ProbeId, Protocol, QueueReplies, Replies, Reply,
    ReplyKind, SocketAddr, Unreachable,
};
use ringroute::net::{
    internet_checksum, Domain, IcmpError, IpAddr, Ipv4Addr, Ipv6Addr, IPV6_HEADER_LENGTH,
    MIN_IPV4_HEADER_LEN,
};

const TARGET: Ipv4Addr = Ipv4Addr {
    octets: [127, 0, 0, 1],
};
const TARGET_V6: Ipv6Addr = Ipv6Addr {
    octets: [0, 0, 0, 0, 0, 0, 0, 0, 0, 0, 0, 0, 0, 0, 0, 1],
};
const PACKET_LENGTH: usize = 60;
const PROBE_ID: ProbeId = ProbeId(1234);

const ECHO_REPLY: u8 = 0;
/// An ICMP type this method does not handle.
const SOURCE_QUENCH: u8 = 4;
const PARAMETER_PROBLEM: u8 = 4;

fn icmp_error(icmp_type: u8, icmp_code: u8) -> Option<IcmpError> {
    icmp_error_with(icmp_type, icmp_code, 0)
}

fn icmp_error_with(icmp_type: u8, icmp_code: u8, info: u32) -> Option<IcmpError> {
    Some(IcmpError {
        icmp_type,
        icmp_code,
        info,
    })
}

fn reply(quoted: &[u8], error: Option<IcmpError>) -> Reply<'_> {
    Reply {
        source: None,
        quoted,
        error,
    }
}

fn probe() -> Vec<u8> {
    let (packet, _) = Icmp::try_new(TARGET, PACKET_LENGTH)
        .unwrap()
        .probe(PROBE_ID);
    packet
}

/// Probes are addressed to the provided target.
#[test]
fn test_probe_addresses_target() {
    let icmp = Icmp::try_new(TARGET, PACKET_LENGTH).unwrap();
    let (_, address) = icmp.probe(PROBE_ID);
    assert_eq!(
        address,
        SocketAddr {
            ip: IpAddr::V4(TARGET),
            port: 0
        }
    );
}

/// Packets that are below the minimum length are rejected.
#[test]
fn test_rejects_too_small_packet() {
    assert!(Icmp::try_new(TARGET, 0).is_err());
    assert!(Icmp::try_new(TARGET, Icmp::MIN_PACKET_LEN - 1).is_err());
}

/// Probes use the provided length.
#[test]
fn test_probe_length() {
    for packet_len in [Icmp::MIN_PACKET_LEN, PACKET_LENGTH, 1500] {
        let icmp = Icmp::try_new(TARGET, packet_len).unwrap();
        let (packet, _) = icmp.probe(PROBE_ID);

        assert_eq!(packet.len(), packet_len - MIN_IPV4_HEADER_LEN);
        assert_eq!(packet.len(), icmp.max_reply_len());
    }
}

/// Probes set a valid checksum.
#[test]
fn test_probe_sets_checksum() {
    for packet_len in [Icmp::MIN_PACKET_LEN, PACKET_LENGTH, 1500] {
        let (packet, _) = Icmp::try_new(TARGET, packet_len).unwrap().probe(PROBE_ID);

        assert_eq!(packet[0], icmp::ECHO_REQUEST);
        assert_eq!(packet[1], 0);
        // A packet carrying a correct checksum sums to zero.
        assert_eq!(internet_checksum(&packet), 0, "packet length {packet_len}");
    }
}

/// Probes are identified correctly from their quoted replies.
#[test]
fn test_identify_quoted_probe() {
    let packet = probe();
    assert_eq!(
        icmp::ErrorReplies.identify(&reply(&packet, icmp_error(icmp::TIME_EXCEEDED, 0))),
        Some(PROBE_ID)
    );
}

/// Probe replies are identified correctly with the corresponding probe ID.
#[test]
fn test_identify_echo_reply() {
    let mut packet = probe();
    packet[0] = ECHO_REPLY;
    assert_eq!(
        icmp::EchoReplies.identify(&reply(&packet, None)),
        Some(PROBE_ID)
    );
}

/// Quoted packets that are below 8 bytes are rejected.
#[test]
fn test_identify_rejects_truncated_quote() {
    let packet = probe();
    let truncated = reply(&packet[..7], None);
    assert_eq!(icmp::ErrorReplies.identify(&truncated), None);
    assert_eq!(icmp::EchoReplies.identify(&truncated), None);
}

/// Echo replies are classified as belonging to the destination.
#[test]
fn test_classify_echo_replies() {
    assert_eq!(
        icmp::EchoReplies.classify(&reply(&probe(), None)),
        ReplyKind::Destination
    );
}

/// "Host Unreachable" messages are ignored by the `EchoReplies` reader.
#[test]
fn test_echo_replies_ignore_host_unreachable() {
    assert!(icmp::EchoReplies.ignores_read_error(-libc::EHOSTUNREACH));
    assert!(!icmp::EchoReplies.ignores_read_error(-libc::ECONNREFUSED));
}

/// ICMP errors are classified correctly.
#[test]
fn icmp_test_classify_errors() {
    let unreachable = |marker| ReplyKind::Unreachable(Unreachable::Marker(marker));
    let too_big = Some(IcmpError {
        icmp_type: icmp::DEST_UNREACH,
        icmp_code: 4,
        info: 1400,
    });
    let cases = [
        (icmp_error(icmp::TIME_EXCEEDED, 0), ReplyKind::Hop),
        (
            icmp_error(icmp::TIME_EXCEEDED, 1),
            ReplyKind::Unreachable(Unreachable::Other {
                icmp_type: icmp::TIME_EXCEEDED,
                code: 1,
            }),
        ),
        (icmp_error(icmp::DEST_UNREACH, 3), ReplyKind::Destination),
        (icmp_error(icmp::DEST_UNREACH, 0), unreachable("!N")),
        (icmp_error(icmp::DEST_UNREACH, 6), unreachable("!N")),
        (icmp_error(icmp::DEST_UNREACH, 8), unreachable("!N")),
        (icmp_error(icmp::DEST_UNREACH, 11), unreachable("!N")),
        (icmp_error(icmp::DEST_UNREACH, 1), unreachable("!H")),
        (icmp_error(icmp::DEST_UNREACH, 7), unreachable("!H")),
        (icmp_error(icmp::DEST_UNREACH, 12), unreachable("!H")),
        (icmp_error(icmp::DEST_UNREACH, 9), unreachable("!X")),
        (icmp_error(icmp::DEST_UNREACH, 10), unreachable("!X")),
        (icmp_error(icmp::DEST_UNREACH, 13), unreachable("!X")),
        (icmp_error(icmp::DEST_UNREACH, 2), unreachable("!P")),
        (
            too_big,
            ReplyKind::Unreachable(Unreachable::TooBig { mtu: 1400 }),
        ),
        (icmp_error(icmp::DEST_UNREACH, 5), unreachable("!S")),
        (icmp_error(icmp::DEST_UNREACH, 14), unreachable("!V")),
        (icmp_error(icmp::DEST_UNREACH, 15), unreachable("!C")),
        (
            icmp_error(icmp::DEST_UNREACH, 99),
            ReplyKind::Unreachable(Unreachable::Code(99)),
        ),
        (
            icmp_error(SOURCE_QUENCH, 0),
            ReplyKind::Unreachable(Unreachable::Other {
                icmp_type: SOURCE_QUENCH,
                code: 0,
            }),
        ),
        (None, unreachable("!?")),
    ];

    for (error, expected) in cases {
        assert_eq!(
            icmp::ErrorReplies.classify(&reply(&[], error)),
            expected,
            "{error:?}"
        );
    }
}

/// ICMPv6 errors are classified correctly.
#[test]
fn icmpv6_test_classify_errors() {
    let unreachable = |marker| ReplyKind::Unreachable(Unreachable::Marker(marker));
    let cases = [
        (
            icmp_error_with(icmpv6::TIME_EXCEEDED, 0, 0),
            ReplyKind::Hop,
        ),
        (
            icmp_error_with(icmpv6::TIME_EXCEEDED, 1, 0),
            ReplyKind::Unreachable(Unreachable::Other {
                icmp_type: icmpv6::TIME_EXCEEDED,
                code: 1,
            }),
        ),
        (
            icmp_error_with(icmpv6::DEST_UNREACH, 0, 0),
            unreachable("!N"),
        ),
        (
            icmp_error_with(icmpv6::DEST_UNREACH, 1, 0),
            unreachable("!X"),
        ),
        (
            icmp_error_with(icmpv6::DEST_UNREACH, 2, 0),
            unreachable("!H"),
        ),
        (
            icmp_error_with(icmpv6::DEST_UNREACH, 3, 0),
            unreachable("!H"),
        ),
        (
            icmp_error_with(icmpv6::DEST_UNREACH, 4, 0),
            ReplyKind::Destination,
        ),
        (
            icmp_error_with(icmpv6::DEST_UNREACH, 5, 0),
            ReplyKind::Unreachable(Unreachable::Code(5)),
        ),
        (
            icmp_error_with(icmpv6::PACKET_TOO_BIG, 0, 1280),
            ReplyKind::Unreachable(Unreachable::TooBig { mtu: 1280 }),
        ),
        (
            icmp_error_with(PARAMETER_PROBLEM, 1, 0),
            ReplyKind::Unreachable(Unreachable::Other {
                icmp_type: PARAMETER_PROBLEM,
                code: 1,
            }),
        ),
        (None, unreachable("!?")),
    ];

    for (error, expected) in cases {
        assert_eq!(
            icmpv6::ErrorReplies.classify(&reply(&[], error)),
            expected,
            "{error:?}"
        );
    }
}

#[test]
fn test_display_unreachable() {
    assert_eq!(Unreachable::Marker("!N").to_string(), "!N");
    assert_eq!(Unreachable::Code(5).to_string(), "!<5>");
    assert_eq!(
        Unreachable::Other {
            icmp_type: 4,
            code: 1
        }
        .to_string(),
        "!<4-1>"
    );
    assert_eq!(Unreachable::TooBig { mtu: 1280 }.to_string(), "!F-1280");
}

/// Markers render the way traceroute prints them.
#[test]
fn test_unreachable_display() {
    assert_eq!(Unreachable::Marker("!N").to_string(), "!N");
    assert_eq!(Unreachable::Code(99).to_string(), "!<99>");
    assert_eq!(
        Unreachable::Other {
            icmp_type: 11,
            code: 1
        }
        .to_string(),
        "!<11-1>"
    );
    assert_eq!(Unreachable::TooBig { mtu: 1400 }.to_string(), "!F-1400");
}

/// The whole datagram of a probe, byte for byte.
#[test]
fn test_probe_bytes() {
    let icmp = Icmp::try_new(TARGET, Icmp::MIN_PACKET_LEN + 3).unwrap();
    let (packet, _) = icmp.probe(PROBE_ID);
    // 0xffff - 0x0800 - 0x04d2
    assert_eq!(packet, vec![8, 0, 0xf3, 0x2d, 0, 0, 0x04, 0xd2, 0, 0, 0]);
}

/// Every identifier survives the trip through a datagram whose other header
/// fields were rewritten.
#[test]
fn test_every_probe_is_identified() {
    let icmp = Icmp::try_new(TARGET, PACKET_LENGTH).unwrap();
    let icmpv6 = Icmpv6::try_new(TARGET_V6, PACKET_LENGTH).unwrap();
    for id in 0..=u16::MAX {
        let (mut packet, _) = icmp.probe(ProbeId(id));
        assert_eq!(internet_checksum(&packet), 0);
        packet[2] = 1;
        packet[4] = 2;
        let quoted = reply(&packet[..8], None);
        assert_eq!(icmp::EchoReplies.identify(&quoted), Some(ProbeId(id)));
        assert_eq!(icmp::ErrorReplies.identify(&quoted), Some(ProbeId(id)));

        let (packet, _) = icmpv6.probe(ProbeId(id));
        let quoted = reply(&packet[..8], None);
        assert_eq!(icmpv6::EchoReplies.identify(&quoted), Some(ProbeId(id)));
        assert_eq!(icmpv6::ErrorReplies.identify(&quoted), Some(ProbeId(id)));
    }
}

/// Probes over IPv6 leave the checksum to the kernel.
#[test]
fn test_icmpv6_probe() {
    assert_eq!(Icmpv6::MIN_PACKET_LEN, 48);
    assert_eq!(
        Icmpv6::try_new(TARGET_V6, 47).unwrap_err(),
        PacketTooSmall { min: 48 }
    );
    let icmpv6 = Icmpv6::try_new(TARGET_V6, 50).unwrap();
    let (packet, address) = icmpv6.probe(PROBE_ID);
    assert_eq!(packet, vec![128, 0, 0, 0, 0, 0, 0x04, 0xd2, 0, 0]);
    assert_eq!(packet.len(), 50 - IPV6_HEADER_LENGTH);
    assert_eq!(packet.len(), icmpv6.max_reply_len());
    assert_eq!(
        address,
        SocketAddr {
            ip: IpAddr::V6(TARGET_V6),
            port: 0
        }
    );
}

/// The smallest packet size is named in the error.
#[test]
fn test_too_small_packet_message() {
    let error = Icmp::try_new(TARGET, 27).unwrap_err();
    assert_eq!(error, PacketTooSmall { min: 28 });
    assert_eq!(
        error.to_string(),
        "packet size must be at least 28 bytes for method icmp"
    );
}

/// A method reads the receive queue for echo replies and the error queue for
/// errors.
#[test]
fn test_open_plans_both_queues() {
    let icmp = Icmp::try_new(TARGET, PACKET_LENGTH).unwrap();
    let (socket, queues) = icmp.open();
    assert_eq!(socket.domain, Domain::Ipv4);
    assert_eq!(socket.protocol, Protocol::Icmpv4);
    assert_eq!(
        socket.bind,
        SocketAddr {
            ip: IpAddr::V4(Ipv4Addr {
                octets: [0, 0, 0, 0]
            }),
            port: 0
        }
    );
    assert_eq!(queues.len(), 2);
    assert!(!queues[0].err_queue);
    assert!(matches!(queues[0].replies, QueueReplies::IcmpEcho(_)));
    assert!(queues[1].err_queue);
    assert!(matches!(queues[1].replies, QueueReplies::IcmpError(_)));

    let icmpv6 = Icmpv6::try_new(TARGET_V6, PACKET_LENGTH).unwrap();
    let (socket, queues) = icmpv6.open();
    assert_eq!(socket.domain, Domain::Ipv6);
    assert_eq!(socket.protocol, Protocol::Icmpv6);
    assert_eq!(socket.bind.ip, IpAddr::V6(Ipv6Addr { octets: [0; 16] }));
    assert!(!queues[0].err_queue);
    assert!(matches!(queues[0].replies, QueueReplies::Icmpv6Echo(_)));
    assert!(queues[1].err_queue);
    assert!(matches!(queues[1].replies, QueueReplies::Icmpv6Error(_)));
}

/// Only the receive queues ignore errors that announce a queued error.
#[test]
fn test_error_queues_ignore_nothing() {
    assert!(icmpv6::EchoReplies.ignores_read_error(-libc::EHOSTUNREACH));
    assert!(!icmp::ErrorReplies.ignores_read_error(-libc::EHOSTUNREACH));
    assert!(!icmpv6::ErrorReplies.ignores_read_error(-libc::EHOSTUNREACH));
    assert!(
        QueueReplies::IcmpEcho(icmp::EchoReplies).ignores_read_error(-libc::EHOSTUNREACH)
    );
    assert!(
        !QueueReplies::IcmpError(icmp::ErrorReplies).ignores_read_error(-libc::EHOSTUNREACH)
    );
}

/// Only an answer of the target ends a trace.
#[test]
fn test_terminates_trace() {
    assert!(ReplyKind::Destination.terminates_trace());
    assert!(!ReplyKind::Hop.terminates_trace());
    assert!(!ReplyKind::Unreachable(Unreachable::Marker("!N")).terminates_trace());
}
