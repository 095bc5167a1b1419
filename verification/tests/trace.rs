//! The course of a trace.

use ringroute::bytes::native_order;
use ringroute::method::icmp;
use ringroute::method::{
    Icmp, Icmpv6, Method, ProbeId, QueueReplies, ReplyKind, ReplyQueue, Unreachable,
};
use ringroute::net::{recverr_control_len, Domain, IpAddr, Ipv4Addr, Ipv6Addr};
use ringroute::received::Received;
use ringroute::trace::{
    filled_buffer, handle_message, handle_read, plan_probes, plan_ring, retries_submit,
    timeout_tag, Completion, HopLimitControl, Multishot, Probe, ReadOutcome, RingPlan, Trace,
    NAME_LEN,
};
use ringroute::user_data::{State, UserData};

const TARGET: Ipv4Addr = Ipv4Addr {
    octets: [127, 0, 0, 1],
};

const ROUTER: [u8; 4] = [10, 0, 0, 1];

fn method() -> Icmp {
    Icmp::try_new(TARGET, 60).unwrap()
}

fn sockaddr_in(octets: [u8; 4]) -> Vec<u8> {
    let mut bytes = vec![0; 16];
    bytes[..2].copy_from_slice(&(libc::AF_INET as u16).to_ne_bytes());
    bytes[4..8].copy_from_slice(&octets);
    bytes
}

fn time_exceeded() -> Vec<u8> {
    let word = core::mem::size_of::<usize>();
    let mut bytes = Vec::new();
    bytes.extend_from_slice(&(word + 8 + 32).to_ne_bytes());
    bytes.extend_from_slice(&libc::IPPROTO_IP.to_ne_bytes());
    bytes.extend_from_slice(&libc::IP_RECVERR.to_ne_bytes());
    bytes.extend_from_slice(&113_u32.to_ne_bytes());
    bytes.extend_from_slice(&[libc::SO_EE_ORIGIN_ICMP, 11, 0, 0]);
    bytes.extend_from_slice(&[0; 8]);
    bytes.extend_from_slice(&sockaddr_in(ROUTER));
    bytes
}

/// The buffer that a multishot read fills.
fn filled(name: &[u8], control: &[u8], control_room: usize, flags: u32, payload: &[u8]) -> Vec<u8> {
    let mut bytes = Vec::new();
    bytes.extend_from_slice(&(name.len() as u32).to_ne_bytes());
    bytes.extend_from_slice(&(control.len() as u32).to_ne_bytes());
    bytes.extend_from_slice(&(payload.len() as u32).to_ne_bytes());
    bytes.extend_from_slice(&flags.to_ne_bytes());
    bytes.extend_from_slice(name);
    bytes.resize(16 + NAME_LEN, 0);
    bytes.extend_from_slice(control);
    bytes.resize(16 + NAME_LEN + control_room, 0);
    bytes.extend_from_slice(payload);
    bytes
}

fn sent(ttl: u8, at: u64) -> Probe {
    Probe {
        ttl,
        sent_at: Some(at),
        result: None,
    }
}

fn echo_queue() -> ReplyQueue {
    ReplyQueue {
        err_queue: false,
        replies: QueueReplies::IcmpEcho(icmp::EchoReplies),
    }
}

fn error_queue() -> ReplyQueue {
    ReplyQueue {
        err_queue: true,
        replies: QueueReplies::IcmpError(icmp::ErrorReplies),
    }
}

#[test]
fn test_state_bits() {
    for state in [State::Write, State::Read, State::Timeout] {
        assert_eq!(State::from_bits(state.into_bits()), state);
    }
    assert_eq!(State::Write.into_bits(), 0);
    assert_eq!(State::Read.into_bits(), 1);
    assert_eq!(State::Timeout.into_bits(), 2);
}

#[test]
fn test_user_data_layout() {
    assert_eq!(UserData::new().into_bits(), 0);
    let tag = UserData::new().with_slot(0xabcd).with_state(State::Timeout);
    assert_eq!(tag.into_bits(), 0x2_abcd);
    assert_eq!(tag.slot(), 0xabcd);
    assert_eq!(tag.state(), State::Timeout);
    let other = tag.with_slot(7).with_state(State::Read);
    assert_eq!(other.into_bits(), 0x1_0007);
    assert_eq!(UserData::from_bits(0x1_0007), other);
    assert!(UserData::from_bits(0x2_ffff).holds_state());
    assert!(!UserData::from_bits(0x3_0000).holds_state());
    assert!(!UserData::from_bits(u64::MAX).holds_state());
}

#[test]
fn test_plan_probes() {
    let probes = plan_probes(3, 5);
    let ttls: Vec<u8> = probes.iter().map(|probe| probe.ttl).collect();
    assert_eq!(ttls, vec![3, 4, 5]);
    assert!(probes
        .iter()
        .all(|probe| probe.sent_at.is_none() && probe.result.is_none()));
    assert_eq!(plan_probes(0, 255).len(), 256);
    assert_eq!(plan_probes(255, 255).len(), 1);
    assert!(plan_probes(2, 1).is_empty());
}

#[test]
fn test_plan_ring() {
    assert_eq!(
        plan_ring(2, 30, 40),
        Some(RingPlan {
            entries: 33,
            buffers: 60,
            buffer_len: 16 + 28 + recverr_control_len() + 40
        })
    );
    assert_eq!(plan_ring(2, 0x1_0000, 40), None);
    assert_eq!(plan_ring(u32::MAX as usize, 1, 40), None);
}

#[test]
fn test_hop_limit_control() {
    let word = core::mem::size_of::<usize>();
    assert_eq!(
        HopLimitControl::new(Domain::Ipv4, 7),
        HopLimitControl {
            cmsg_len: word + 12,
            cmsg_level: libc::IPPROTO_IP,
            cmsg_type: libc::IP_TTL,
            hop_limit: 7
        }
    );
    assert_eq!(
        HopLimitControl::new(Domain::Ipv6, 255),
        HopLimitControl {
            cmsg_len: word + 12,
            cmsg_level: libc::IPPROTO_IPV6,
            cmsg_type: libc::IPV6_HOPLIMIT,
            hop_limit: 255
        }
    );
}

#[test]
fn test_multishot() {
    let echo = Multishot::new(echo_queue(), 0);
    assert_eq!(echo.name_room, 28);
    assert_eq!(echo.control_room, 0);
    let request = echo.schedule();
    assert_eq!(request.flags, 0);
    assert_eq!(request.user_data.into_bits(), 0x1_0000);

    let error = Multishot::new(error_queue(), 1);
    assert_eq!(error.control_room, recverr_control_len());
    let request = error.schedule();
    assert_eq!(request.flags, libc::MSG_ERRQUEUE as u32);
    assert_eq!(request.user_data.into_bits(), 0x1_0001);
}

/// Only a reader of the error queue has errors queued on its socket.
#[test]
fn test_socket_option() {
    let echo = Multishot::new(echo_queue(), 0);
    assert_eq!(echo.socket_option(Domain::Ipv4), None);
    assert_eq!(echo.socket_option(Domain::Ipv6), None);
    let error = Multishot::new(error_queue(), 1);
    assert_eq!(
        error.socket_option(Domain::Ipv4),
        Some((libc::IPPROTO_IP, libc::IP_RECVERR))
    );
    assert_eq!(
        error.socket_option(Domain::Ipv6),
        Some((libc::IPPROTO_IPV6, libc::IPV6_RECVERR))
    );
}

/// An echo reply is recorded for the probe it answers, with the time since that
/// was sent.
#[test]
fn test_read_echo_reply() {
    let reader = Multishot::new(echo_queue(), 0);
    let mut probes = vec![sent(1, 100), sent(2, 250), sent(3, 300)];
    let (mut payload, _) = method().probe(ProbeId(1));
    payload[0] = 0;
    let buffer = filled(&sockaddr_in([127, 0, 0, 1]), &[], 0, 0, &payload);
    let before = probes.clone();
    assert_eq!(
        handle_read(&buffer, &reader, &mut probes, 1000),
        ReadOutcome::Recorded { index: 1 }
    );
    let result = probes[1].result.unwrap();
    assert_eq!(result.source, Some(IpAddr::V4(TARGET)));
    assert_eq!(result.rtt, 750);
    assert_eq!(result.kind, ReplyKind::Destination);
    assert_eq!(probes[0], before[0]);
    assert_eq!(probes[2], before[2]);

    // The first answer stands.
    let recorded = probes.clone();
    assert_eq!(
        handle_read(&buffer, &reader, &mut probes, 2000),
        ReadOutcome::Dropped
    );
    assert_eq!(probes, recorded);
}

/// An error is recorded with the address of the router that sent it.
#[test]
fn test_read_time_exceeded() {
    let reader = Multishot::new(error_queue(), 1);
    let mut probes = vec![sent(1, 5), sent(2, 6)];
    let (payload, _) = method().probe(ProbeId(0));
    let buffer = filled(
        &sockaddr_in([127, 0, 0, 1]),
        &time_exceeded(),
        reader.control_room,
        0,
        &payload[..8],
    );
    assert_eq!(
        handle_read(&buffer, &reader, &mut probes, 3),
        ReadOutcome::Recorded { index: 0 }
    );
    let result = probes[0].result.unwrap();
    assert_eq!(
        result.source,
        Some(IpAddr::V4(Ipv4Addr { octets: ROUTER }))
    );
    // The clock never yields a negative time.
    assert_eq!(result.rtt, 0);
    assert_eq!(result.kind, ReplyKind::Hop);
    assert_eq!(probes[1], sent(2, 6));
}

/// Reads that cannot be attributed leave the probes alone.
#[test]
fn test_read_dropped() {
    let echo = Multishot::new(echo_queue(), 0);
    let error = Multishot::new(error_queue(), 1);
    let (payload, _) = method().probe(ProbeId(0));
    let (beyond, _) = method().probe(ProbeId(9));
    let name = sockaddr_in([127, 0, 0, 1]);

    let mut probes = vec![sent(1, 5)];
    let outcome = handle_read(&filled(&name, &[], 0, 0, &beyond), &echo, &mut probes, 9);
    assert_eq!(outcome, ReadOutcome::Dropped);
    let outcome = handle_read(
        &filled(&name, &[], 0, 0, &payload[..7]),
        &echo,
        &mut probes,
        9,
    );
    assert_eq!(outcome, ReadOutcome::Dropped);
    // The error queue without an error.
    let room = error.control_room;
    let outcome = handle_read(
        &filled(&name, &[], room, 0, &payload),
        &error,
        &mut probes,
        9,
    );
    assert_eq!(outcome, ReadOutcome::Dropped);
    // Truncated control data.
    let outcome = handle_read(
        &filled(
            &name,
            &time_exceeded(),
            room,
            libc::MSG_CTRUNC as u32,
            &payload,
        ),
        &error,
        &mut probes,
        9,
    );
    assert_eq!(outcome, ReadOutcome::ControlTruncated);
    assert_eq!(probes, vec![sent(1, 5)]);
}

/// A reply that overtakes the completion of its send is recorded all the same,
/// and the completion keeps it.
#[test]
fn test_reply_overtakes_send_completion() {
    let method = method();
    let (_, queues) = method.open();
    let mut trace = Trace::new(1, 2, &queues);
    let outgoing = trace.schedule_writes(&method);
    let buffer = filled(&sockaddr_in(TARGET.octets), &[], 0, 0, &outgoing[1].packet);
    let read = Completion {
        result: buffer.len() as i32,
        flags: 2 | 1,
        user_data: trace.reader(0).schedule().user_data,
        buffer: &buffer,
    };
    let step = trace.complete(&read, 9);
    assert_eq!(step.read, Some(ReadOutcome::Recorded { index: 1 }));
    let result = trace.probes()[1].result.unwrap();
    assert_eq!(result.source, Some(IpAddr::V4(TARGET)));
    assert_eq!(result.rtt, 0);
    assert_eq!(result.kind, ReplyKind::Destination);

    let write = Completion {
        result: 40,
        flags: 0,
        user_data: outgoing[1].user_data,
        buffer: &[],
    };
    trace.complete(&write, 10);
    assert_eq!(trace.probes()[1].sent_at, Some(10));
    assert_eq!(trace.probes()[1].result, Some(result));
    assert_eq!(trace.probes()[0].result, None);
}

/// No answer ends a trace, the target's neither: only the timeout does, and what
/// is handed out is what was known before it.
#[test]
fn test_only_timeout_ends_trace() {
    let method = method();
    let (_, queues) = method.open();
    let mut trace = Trace::new(1, 1, &queues);
    let outgoing = trace.schedule_writes(&method);
    let write = Completion {
        result: 40,
        flags: 0,
        user_data: outgoing[0].user_data,
        buffer: &[],
    };
    assert!(!trace.complete(&write, 1).done);
    let buffer = filled(&sockaddr_in(TARGET.octets), &[], 0, 0, &outgoing[0].packet);
    let read = Completion {
        result: buffer.len() as i32,
        flags: 1,
        user_data: trace.reader(0).schedule().user_data,
        buffer: &buffer,
    };
    let step = trace.complete(&read, 2);
    assert_eq!(step.read, Some(ReadOutcome::Recorded { index: 0 }));
    assert!(!step.done);
    let refused = Completion {
        result: -libc::ECONNREFUSED,
        ..read
    };
    assert!(!trace.complete(&refused, 3).done);
    let before = trace.probes().clone();
    let timeout = Completion {
        result: -libc::ETIME,
        flags: 0,
        user_data: timeout_tag(),
        buffer: &[],
    };
    assert!(trace.complete(&timeout, 4).done);
    assert_eq!(trace.into_probes(), before);
}

/// Truncated control data does not matter where none is read.
#[test]
fn test_message_on_receive_queue() {
    let (payload, _) = method().probe(ProbeId(0));
    let message = Received {
        name: vec![],
        control: vec![],
        control_truncated: true,
        payload,
    };
    let mut probes = vec![sent(1, 5)];
    let outcome = handle_message(native_order(), &message, &echo_queue(), &mut probes, 6);
    assert_eq!(outcome, ReadOutcome::Recorded { index: 0 });
    assert_eq!(probes[0].result.unwrap().source, None);
}

#[test]
fn test_schedule_writes() {
    let method = method();
    let (_, queues) = method.open();
    let mut trace = Trace::new(4, 8, &queues);
    let outgoing = trace.schedule_writes(&method);
    assert_eq!(outgoing.len(), 5);
    for (index, send) in outgoing.iter().enumerate() {
        let (packet, destination) = method.probe(ProbeId(index as u16));
        assert_eq!(send.packet, packet);
        assert_eq!(send.destination, destination);
        assert_eq!(
            send.control,
            HopLimitControl::new(Domain::Ipv4, 4 + index as u8)
        );
        assert_eq!(send.probe, ProbeId(index as u16));
        assert_eq!(send.user_data.slot(), send.slot);
        assert_eq!(send.user_data.state(), State::Write);
        assert_eq!(send.slot, index as u16);
    }
}

#[test]
fn test_schedule_reuses_slots() {
    let method = Icmpv6::try_new(Ipv6Addr { octets: [3; 16] }, 60).unwrap();
    let (_, queues) = method.open();
    let mut trace = Trace::new(1, 3, &queues);
    let first = trace.schedule_write(&method, ProbeId(2));
    let second = trace.schedule_write(&method, ProbeId(0));
    assert_eq!((first.slot, second.slot), (0, 1));
    assert_eq!(
        first.control,
        HopLimitControl::new(Domain::Ipv6, 3)
    );
    assert_eq!(trace.cancel_write(0), ProbeId(2));
    let third = trace.schedule_write(&method, ProbeId(1));
    assert_eq!(third.slot, 0);
    let fourth = trace.schedule_write(&method, ProbeId(2));
    assert_eq!(fourth.slot, 2);
    assert_eq!(trace.cancel_write(1), ProbeId(0));
    assert_eq!(trace.cancel_write(0), ProbeId(1));
}

#[test]
fn test_schedule_reads() {
    let (_, queues) = method().open();
    let trace = Trace::new(1, 3, &queues);
    let requests = trace.schedule_reads();
    assert_eq!(requests.len(), 2);
    assert_eq!(requests[0].flags, 0);
    assert_eq!(requests[1].flags, libc::MSG_ERRQUEUE as u32);
    assert_eq!(requests[1].user_data.slot(), 1);
    assert_eq!(trace.reader(1).control_room, recverr_control_len());
}

/// A whole trace: both probes are sent, one hop and the target answer, and the
/// timeout ends it.
#[test]
fn test_trace_to_target() {
    let method = method();
    let (_, queues) = method.open();
    let mut trace = Trace::new(1, 3, &queues);
    let outgoing = trace.schedule_writes(&method);

    for (index, send) in outgoing.iter().enumerate() {
        let completion = Completion {
            result: if index == 2 { -libc::ENETUNREACH } else { 40 },
            flags: 0,
            user_data: send.user_data,
            buffer: &[],
        };
        assert!(trace.accepts(&completion));
        let step = trace.complete(&completion, 10 + index as u64);
        assert_eq!(step.state, State::Write);
        assert_eq!(
            step.failed,
            if index == 2 {
                Some(libc::ENETUNREACH)
            } else {
                None
            }
        );
        assert!(!step.rearm);
        assert!(!step.done);
        assert_eq!(step.read, None);
        // A send completes once.
        assert!(!trace.accepts(&completion));
    }
    assert_eq!(trace.probes()[0].sent_at, Some(10));
    assert_eq!(trace.probes()[1].sent_at, Some(11));
    assert_eq!(trace.probes()[2].sent_at, None);

    let error = *trace.reader(1);
    let buffer = filled(
        &[],
        &time_exceeded(),
        error.control_room,
        0,
        &outgoing[0].packet,
    );
    let completion = Completion {
        result: buffer.len() as i32,
        flags: (4 << 16) | 2 | 1,
        user_data: error.schedule().user_data,
        buffer: &buffer,
    };
    assert!(trace.accepts(&completion));
    let step = trace.complete(&completion, 110);
    assert_eq!(step.read, Some(ReadOutcome::Recorded { index: 0 }));
    assert_eq!(step.failed, None);
    assert!(!step.rearm);

    let echo = *trace.reader(0);
    let buffer = filled(
        &sockaddr_in(TARGET.octets),
        &[],
        0,
        0,
        &outgoing[1].packet,
    );
    let completion = Completion {
        result: buffer.len() as i32,
        flags: 1,
        user_data: echo.schedule().user_data,
        buffer: &buffer,
    };
    let step = trace.complete(&completion, 211);
    assert_eq!(step.read, Some(ReadOutcome::Recorded { index: 1 }));
    assert!(step.rearm);

    let completion = Completion {
        result: -libc::ETIME,
        flags: 0,
        user_data: timeout_tag(),
        buffer: &[],
    };
    let step = trace.complete(&completion, 500);
    assert!(step.done);
    assert_eq!(step.state, State::Timeout);
    assert_eq!(step.failed, None);

    let probes = trace.into_probes();
    let hop = probes[0].result.unwrap();
    assert_eq!((hop.rtt, hop.kind), (100, ReplyKind::Hop));
    let target = probes[1].result.unwrap();
    assert_eq!((target.rtt, target.kind), (200, ReplyKind::Destination));
    assert_eq!(probes[2].result, None);
}

#[test]
fn test_read_errors() {
    let (_, queues) = method().open();
    let mut trace = Trace::new(1, 3, &queues);
    let echo = trace.reader(0).schedule().user_data;
    let error = trace.reader(1).schedule().user_data;
    let cases = [
        (echo, -libc::EHOSTUNREACH, None),
        (echo, -libc::ECONNREFUSED, Some(libc::ECONNREFUSED)),
        (error, -libc::EHOSTUNREACH, Some(libc::EHOSTUNREACH)),
    ];
    for (user_data, result, failed) in cases {
        let completion = Completion {
            result,
            flags: 0,
            user_data,
            buffer: &[],
        };
        assert!(trace.accepts(&completion));
        let step = trace.complete(&completion, 1);
        assert_eq!(step.failed, failed);
        assert!(step.rearm);
        assert_eq!(step.read, None);
    }
}

#[test]
fn test_early_timeout_is_noted() {
    let mut trace = Trace::new(1, 3, &vec![]);
    let completion = Completion {
        result: -libc::ECANCELED,
        flags: 0,
        user_data: timeout_tag(),
        buffer: &[],
    };
    let step = trace.complete(&completion, 1);
    assert_eq!(step.failed, Some(libc::ECANCELED));
    assert!(step.done);
}

#[test]
fn test_unexpected_completions() {
    let (_, queues) = method().open();
    let trace = Trace::new(1, 3, &queues);
    let buffer = vec![0; 16 + 28];
    let read = trace.reader(0).schedule().user_data;
    let good = Completion {
        result: 44,
        flags: 1,
        user_data: read,
        buffer: &buffer,
    };
    assert!(trace.accepts(&good));
    // No buffer.
    assert!(!trace.accepts(&Completion { flags: 2, ..good }));
    // Nothing received.
    assert!(!trace.accepts(&Completion { result: 0, ..good }));
    // Headers that do not fit.
    assert!(!trace.accepts(&Completion {
        buffer: &buffer[..43],
        ..good
    }));
    // No such reader.
    assert!(!trace.accepts(&Completion {
        user_data: read.with_slot(2),
        ..good
    }));
    // No such state.
    assert!(!trace.accepts(&Completion {
        user_data: UserData::from_bits(0x3_0000),
        ..good
    }));
    // Nothing in flight.
    assert!(!trace.accepts(&Completion {
        user_data: UserData::new(),
        ..good
    }));
}

#[test]
fn test_filled_buffer() {
    let read = UserData::new().with_slot(1).with_state(State::Read);
    assert_eq!(filled_buffer(44, (9 << 16) | 1, read), Some((9, 44)));
    assert_eq!(filled_buffer(44, 9 << 16, read), None);
    assert_eq!(filled_buffer(-1, (9 << 16) | 1, read), None);
    assert_eq!(
        filled_buffer(44, (9 << 16) | 1, read.with_state(State::Write)),
        None
    );
}

#[test]
fn test_retries_submit() {
    assert!(retries_submit(Some(libc::EBUSY)));
    assert!(!retries_submit(Some(libc::EINTR)));
    assert!(!retries_submit(None));
}

/// Quoted datagrams longer than the header says are cut at what it says.
#[test]
fn test_received_lengths() {
    let reader = Multishot::new(echo_queue(), 0);
    let (payload, _) = method().probe(ProbeId(0));
    let mut buffer = filled(&sockaddr_in(TARGET.octets), &[], 0, 0, &payload);
    buffer[8..12].copy_from_slice(&7_u32.to_ne_bytes());
    let mut probes = vec![sent(1, 5)];
    assert_eq!(
        handle_read(&buffer, &reader, &mut probes, 6),
        ReadOutcome::Dropped
    );
    buffer[8..12].copy_from_slice(&u32::MAX.to_ne_bytes());
    assert_eq!(
        handle_read(&buffer, &reader, &mut probes, 6),
        ReadOutcome::Recorded { index: 0 }
    );
    assert_eq!(
        probes[0].result.unwrap().kind,
        ReplyKind::Destination
    );
    assert_ne!(
        probes[0].result.unwrap().kind,
        ReplyKind::Unreachable(Unreachable::Code(1))
    );
}
