//! The meaning of the options, and the report.

use ringroute::method::{Method, PacketTooSmall, ProbeId, ReplyKind, Unreachable};
use ringroute::net::{IpAddr, Ipv4Addr, Ipv6Addr};
use ringroute::options::{
    check_hops, ip_version_matches, literal_target, lookup_name, maybe_ip, resolved_target,
    IpVersionArg, MethodArg, OptionsError,
};
use ringroute::report::{heading, probe_line, result_lines, HopLabel};
use ringroute::text::{decimal_right_2_text, decimal_text};
use ringroute::trace::{HopResult, Probe};

const V4: IpAddr = IpAddr::V4(Ipv4Addr {
    octets: [192, 0, 2, 1],
});
const OTHER_V4: IpAddr = IpAddr::V4(Ipv4Addr {
    octets: [192, 0, 2, 2],
});
const V6: IpAddr = IpAddr::V6(Ipv6Addr { octets: [1; 16] });

#[test]
fn test_check_hops() {
    assert_eq!(check_hops(1, 30), Ok(()));
    assert_eq!(check_hops(30, 30), Err(OptionsError::Hops));
    assert_eq!(check_hops(31, 30), Err(OptionsError::Hops));
}

#[test]
fn test_ip_version_matches() {
    assert!(ip_version_matches(&V4, IpVersionArg::Auto));
    assert!(ip_version_matches(&V6, IpVersionArg::Auto));
    assert!(ip_version_matches(&V4, IpVersionArg::V4));
    assert!(!ip_version_matches(&V6, IpVersionArg::V4));
    assert!(!ip_version_matches(&V4, IpVersionArg::V6));
    assert!(ip_version_matches(&V6, IpVersionArg::V6));
}

#[test]
fn test_maybe_ip() {
    assert_eq!(maybe_ip(None, Some(V6)), Some(V6));
    // An address with a port is no IP address.
    assert_eq!(maybe_ip(Some(V4), None), None);
    assert_eq!(maybe_ip(Some(V4), Some(V6)), None);
    assert_eq!(maybe_ip(None, None), None);
}

#[test]
fn test_literal_target() {
    assert_eq!(literal_target(V4, IpVersionArg::V4), Ok(V4));
    assert_eq!(
        literal_target(V4, IpVersionArg::V6),
        Err(OptionsError::VersionMismatch)
    );
}

#[test]
fn test_resolved_target() {
    let answers = vec![V6, V4, OTHER_V4];
    assert_eq!(resolved_target(&answers, IpVersionArg::Auto), Ok(V6));
    assert_eq!(resolved_target(&answers, IpVersionArg::V4), Ok(V4));
    assert_eq!(resolved_target(&answers, IpVersionArg::V6), Ok(V6));
    assert_eq!(
        resolved_target(&vec![V4], IpVersionArg::V6),
        Err(OptionsError::NoAnswer)
    );
    assert_eq!(
        resolved_target(&vec![], IpVersionArg::Auto),
        Err(OptionsError::NoAnswer)
    );
}

#[test]
fn test_lookup_name() {
    assert_eq!(lookup_name("example.org"), "example.org:0");
}

#[test]
fn test_build() {
    let method = MethodArg::Icmp.build(V4, 60).unwrap();
    let (packet, address) = method.probe(ProbeId(0));
    assert_eq!(packet.len(), 40);
    assert_eq!(address.ip, V4);
    assert_eq!(
        MethodArg::Icmp.build(V4, 27).unwrap_err(),
        OptionsError::PacketTooSmall(PacketTooSmall { min: 28 })
    );
    assert_eq!(
        MethodArg::Icmp.build(V6, 60).unwrap_err(),
        OptionsError::Ipv6Unsupported
    );
}

#[test]
fn test_options_messages() {
    assert_eq!(
        OptionsError::Hops.to_string(),
        "--first-hop must be less than --max-hops"
    );
    assert_eq!(
        OptionsError::VersionMismatch.to_string(),
        "--target IP version does not match --ip-version "
    );
    assert_eq!(
        OptionsError::NoAnswer.to_string(),
        "DNS lookup returned no answers matching the requested --ip-version"
    );
    assert_eq!(
        OptionsError::Ipv6Unsupported.to_string(),
        "method icmp unsupported for IPv6"
    );
    assert_eq!(
        OptionsError::PacketTooSmall(PacketTooSmall { min: 28 }).to_string(),
        "packet size must be at least 28 bytes for method icmp"
    );
}

#[test]
fn test_decimal() {
    for n in [0, 1, 9, 10, 11, 99, 100, 255, 65535, 1_000_000, u64::MAX] {
        assert_eq!(decimal_text(n), format!("{n}"));
        assert_eq!(decimal_right_2_text(n), format!("{n:>2}"));
    }
}

fn label(source: &str, rtt_ms: &str) -> HopLabel {
    HopLabel {
        source: String::from(source),
        rtt_ms: String::from(rtt_ms),
    }
}

fn answered(ttl: u8, kind: ReplyKind) -> Probe {
    Probe {
        ttl,
        sent_at: Some(0),
        result: Some(HopResult {
            source: Some(V4),
            rtt: 1_500_000,
            kind,
        }),
    }
}

fn silent(ttl: u8) -> Probe {
    Probe {
        ttl,
        sent_at: Some(0),
        result: None,
    }
}

#[test]
fn test_probe_lines() {
    let hop = label("192.0.2.1", "1.500");
    assert_eq!(
        probe_line(&answered(3, ReplyKind::Hop), &hop),
        " 3  192.0.2.1  1.500 ms"
    );
    assert_eq!(
        probe_line(
            &answered(12, ReplyKind::Unreachable(Unreachable::Code(5))),
            &hop
        ),
        "12  192.0.2.1  1.500 ms  !<5>"
    );
    assert_eq!(probe_line(&silent(255), &label("", "")), "255  *");
    let mut unknown = answered(1, ReplyKind::Destination);
    unknown.result = Some(HopResult {
        source: None,
        rtt: 0,
        kind: ReplyKind::Destination,
    });
    assert_eq!(
        probe_line(&unknown, &label("unused", "0.000")),
        " 1  ?  0.000 ms"
    );
}

/// Nothing is reported behind the first answer of the target.
#[test]
fn test_report_stops_at_target() {
    let probes = vec![
        silent(1),
        answered(2, ReplyKind::Unreachable(Unreachable::Marker("!N"))),
        answered(3, ReplyKind::Hop),
        answered(4, ReplyKind::Destination),
        answered(5, ReplyKind::Destination),
    ];
    let labels = vec![
        label("", ""),
        label("a", "0.100"),
        label("b", "0.200"),
        label("c", "0.300"),
        label("d", "0.400"),
    ];
    assert_eq!(
        result_lines(&probes, &labels),
        vec![
            " 1  *",
            " 2  a  0.100 ms  !N",
            " 3  b  0.200 ms",
            " 4  c  0.300 ms"
        ]
    );
    assert!(result_lines(&vec![], &vec![]).is_empty());
    let endless = vec![silent(1), answered(2, ReplyKind::Hop)];
    let labels = vec![label("", ""), label("x", "9.999")];
    assert_eq!(
        result_lines(&endless, &labels),
        vec![" 1  *", " 2  x  9.999 ms"]
    );
}

#[test]
fn test_heading() {
    assert_eq!(
        heading("example.org", "192.0.2.1", 30, 60),
        "tracing example.org (192.0.2.1), 30 hops max, 60 byte packets"
    );
}
