//! Kernel structures and the checksum.

use ringroute::bytes::{
    native_order, native_word_len, read_i32, read_u16, read_u32, read_u64, read_usize, ByteOrder,
};
use ringroute::net::{
    cmsg_align, cmsg_header_len, cmsg_len, cmsg_space, internet_checksum, parse_ip_recverr,
    parse_ip_recverr_as, parse_sockaddr, parse_sockaddr_as, recverr_control_len, recverr_option,
    Domain, IcmpError, IpAddr, Ipv4Addr, Ipv6Addr, SOCKADDR_IN6_LEN, SOCKADDR_IN_LEN,
    SOCK_EXTENDED_ERR_LEN,
};
use ringroute::platform;

fn sockaddr_in(octets: [u8; 4]) -> Vec<u8> {
    let mut bytes = vec![0; SOCKADDR_IN_LEN];
    bytes[..2].copy_from_slice(&(libc::AF_INET as u16).to_ne_bytes());
    bytes[2..4].copy_from_slice(&7_u16.to_be_bytes());
    bytes[4..8].copy_from_slice(&octets);
    bytes
}

fn sockaddr_in6(octets: [u8; 16]) -> Vec<u8> {
    let mut bytes = vec![0xee; SOCKADDR_IN6_LEN];
    bytes[..2].copy_from_slice(&(libc::AF_INET6 as u16).to_ne_bytes());
    bytes[8..24].copy_from_slice(&octets);
    bytes
}

/// One control message, padded to where the next one starts.
fn cmsg(level: i32, kind: i32, data: &[u8]) -> Vec<u8> {
    let mut bytes = Vec::new();
    bytes.extend_from_slice(&cmsg_len(data.len()).to_ne_bytes());
    bytes.extend_from_slice(&level.to_ne_bytes());
    bytes.extend_from_slice(&kind.to_ne_bytes());
    bytes.extend_from_slice(data);
    bytes.resize(cmsg_space(data.len()), 0xaa);
    bytes
}

fn extended_err(origin: u8, icmp_type: u8, icmp_code: u8, info: u32) -> Vec<u8> {
    let mut bytes = Vec::new();
    bytes.extend_from_slice(&113_u32.to_ne_bytes());
    bytes.extend_from_slice(&[origin, icmp_type, icmp_code, 0]);
    bytes.extend_from_slice(&info.to_ne_bytes());
    bytes.extend_from_slice(&0_u32.to_ne_bytes());
    bytes
}

#[test]
fn test_structure_sizes() {
    assert_eq!(SOCKADDR_IN_LEN, core::mem::size_of::<libc::sockaddr_in>());
    assert_eq!(SOCKADDR_IN6_LEN, core::mem::size_of::<libc::sockaddr_in6>());
    assert_eq!(
        SOCK_EXTENDED_ERR_LEN,
        core::mem::size_of::<libc::sock_extended_err>()
    );
    assert_eq!(cmsg_header_len(), core::mem::size_of::<libc::cmsghdr>());
    assert_eq!(native_word_len(), core::mem::size_of::<usize>());
}

#[test]
fn test_platform_constants() {
    assert_eq!(platform::AF_INET, libc::AF_INET);
    assert_eq!(platform::AF_INET6, libc::AF_INET6);
    assert_eq!(platform::IPPROTO_IP, libc::IPPROTO_IP);
    assert_eq!(platform::IPPROTO_IPV6, libc::IPPROTO_IPV6);
    assert_eq!(platform::IP_RECVERR, libc::IP_RECVERR);
    assert_eq!(platform::IPV6_RECVERR, libc::IPV6_RECVERR);
    assert_eq!(platform::IP_TTL, libc::IP_TTL);
    assert_eq!(platform::IPV6_HOPLIMIT, libc::IPV6_HOPLIMIT);
    assert_eq!(platform::SO_EE_ORIGIN_ICMP, libc::SO_EE_ORIGIN_ICMP);
    assert_eq!(platform::SO_EE_ORIGIN_ICMP6, libc::SO_EE_ORIGIN_ICMP6);
    assert_eq!(platform::MSG_ERRQUEUE, libc::MSG_ERRQUEUE);
    assert_eq!(platform::EHOSTUNREACH, libc::EHOSTUNREACH);
    assert_eq!(platform::ETIME, libc::ETIME);
    assert_eq!(platform::EBUSY, libc::EBUSY);
}

#[test]
fn test_native_order() {
    let bytes = 0x0102_u16.to_ne_bytes();
    assert_eq!(read_u16(native_order(), &bytes, 0), 0x0102);
    let other = match native_order() {
        ByteOrder::Little => ByteOrder::Big,
        ByteOrder::Big => ByteOrder::Little,
    };
    assert_eq!(read_u16(other, &bytes, 0), 0x0201);
}

#[test]
fn test_integers_in_buffers() {
    let bytes = [0x00, 0x81, 0x02, 0x03, 0x84, 0x05, 0x06, 0x07, 0x88];
    assert_eq!(read_u16(ByteOrder::Big, &bytes, 1), 0x8102);
    assert_eq!(read_u16(ByteOrder::Little, &bytes, 1), 0x0281);
    assert_eq!(read_u32(ByteOrder::Big, &bytes, 1), 0x8102_0384);
    assert_eq!(read_u32(ByteOrder::Little, &bytes, 1), 0x8403_0281);
    assert_eq!(
        read_u64(ByteOrder::Big, &bytes, 1),
        0x8102_0384_0506_0788
    );
    assert_eq!(
        read_u64(ByteOrder::Little, &bytes, 1),
        0x8807_0605_8403_0281
    );
    assert_eq!(
        read_i32(ByteOrder::Big, &bytes, 1),
        0x8102_0384_u32 as i32
    );
    assert_eq!(read_i32(ByteOrder::Big, &bytes, 0), 0x0081_0203);
    assert_eq!(read_i32(ByteOrder::Little, &[0xff; 4], 0), -1);
    let word = usize::MAX / 3;
    assert_eq!(read_usize(native_order(), &word.to_ne_bytes(), 0), word);
}

#[test]
fn test_parse_sockaddr() {
    assert_eq!(
        parse_sockaddr(&sockaddr_in([192, 0, 2, 7])),
        Some(IpAddr::V4(Ipv4Addr {
            octets: [192, 0, 2, 7]
        }))
    );
    let octets = [0x20, 1, 0xd, 0xb8, 4, 5, 6, 7, 8, 9, 10, 11, 12, 13, 14, 15];
    assert_eq!(
        parse_sockaddr(&sockaddr_in6(octets)),
        Some(IpAddr::V6(Ipv6Addr { octets }))
    );
    assert_eq!(parse_sockaddr(&[]), None);
    assert_eq!(parse_sockaddr(&[2]), None);
    assert_eq!(parse_sockaddr(&sockaddr_in([1, 2, 3, 4])[..15]), None);
    assert_eq!(parse_sockaddr(&sockaddr_in6(octets)[..27]), None);
    assert_eq!(
        parse_sockaddr(&sockaddr_in6(octets)[..28]),
        Some(IpAddr::V6(Ipv6Addr { octets }))
    );
    let mut unknown = sockaddr_in([1, 2, 3, 4]);
    unknown[..2].copy_from_slice(&(libc::AF_UNIX as u16).to_ne_bytes());
    assert_eq!(parse_sockaddr(&unknown), None);
}

#[test]
fn test_parse_sockaddr_of_either_order() {
    let mut bytes = vec![0; 16];
    bytes[0] = 2;
    bytes[4..8].copy_from_slice(&[10, 0, 0, 1]);
    let address = Some(IpAddr::V4(Ipv4Addr {
        octets: [10, 0, 0, 1],
    }));
    assert_eq!(parse_sockaddr_as(ByteOrder::Little, &bytes), address);
    assert_eq!(parse_sockaddr_as(ByteOrder::Big, &bytes), None);
    bytes.swap(0, 1);
    assert_eq!(parse_sockaddr_as(ByteOrder::Little, &bytes), None);
    assert_eq!(parse_sockaddr_as(ByteOrder::Big, &bytes), address);
}

#[test]
fn test_domain() {
    assert_eq!(
        IpAddr::V4(Ipv4Addr { octets: [0; 4] }).domain(),
        Domain::Ipv4
    );
    assert_eq!(
        IpAddr::V6(Ipv6Addr { octets: [0; 16] }).domain(),
        Domain::Ipv6
    );
}

#[test]
fn test_cmsg_align() {
    let word = core::mem::size_of::<usize>();
    for length in 0..100 {
        let aligned = cmsg_align(length);
        assert_eq!(aligned % word, 0);
        assert!(aligned >= length);
        assert!(aligned < length + word);
        assert_eq!(cmsg_align(aligned), aligned);
    }
}

#[test]
fn test_cmsg_lengths() {
    let word = core::mem::size_of::<usize>();
    assert_eq!(cmsg_len(4), word + 12);
    assert_eq!(cmsg_space(1), word + 8 + word);
    let expected = if word == 8 { 64 } else { 56 };
    assert_eq!(recverr_control_len(), expected);
}

#[test]
fn test_recverr_option() {
    assert_eq!(
        recverr_option(Domain::Ipv4),
        (libc::IPPROTO_IP, libc::IP_RECVERR)
    );
    assert_eq!(
        recverr_option(Domain::Ipv6),
        (libc::IPPROTO_IPV6, libc::IPV6_RECVERR)
    );
}

#[test]
fn test_parse_ip_recverr() {
    let source = sockaddr_in([10, 1, 2, 3]);
    let mut data = extended_err(libc::SO_EE_ORIGIN_ICMP, 11, 0, 7);
    data.extend_from_slice(&source);
    let control = cmsg(libc::IPPROTO_IP, libc::IP_RECVERR, &data);
    let parsed = parse_ip_recverr(&control).unwrap();
    assert_eq!(
        parsed.error,
        IcmpError {
            icmp_type: 11,
            icmp_code: 0,
            info: 7
        }
    );
    assert_eq!(parsed.source_bytes, &source[..]);
}

#[test]
fn test_parse_ip_recverr_v6_behind_other_messages() {
    let source = sockaddr_in6([9; 16]);
    let mut data = extended_err(libc::SO_EE_ORIGIN_ICMP6, 2, 0, 1280);
    data.extend_from_slice(&source);
    let mut control = cmsg(libc::IPPROTO_IP, libc::IP_TTL, &[1, 2, 3, 4]);
    control.extend_from_slice(&cmsg(libc::IPPROTO_IPV6, libc::IPV6_HOPLIMIT, &[5]));
    control.extend_from_slice(&cmsg(libc::IPPROTO_IPV6, libc::IPV6_RECVERR, &data));
    let parsed = parse_ip_recverr(&control).unwrap();
    assert_eq!(
        parsed.error,
        IcmpError {
            icmp_type: 2,
            icmp_code: 0,
            info: 1280
        }
    );
    assert_eq!(parsed.source_bytes, &source[..]);
}

#[test]
fn test_parse_ip_recverr_rejects() {
    assert!(parse_ip_recverr(&[]).is_none());
    let data = extended_err(libc::SO_EE_ORIGIN_ICMP, 3, 1, 0);
    let control = cmsg(libc::IPPROTO_IP, libc::IP_RECVERR, &data);
    assert!(parse_ip_recverr(&control).unwrap().source_bytes.is_empty());
    // Cut short.
    assert!(parse_ip_recverr(&control[..control.len() - 1]).is_none());
    assert!(parse_ip_recverr(&control[..15]).is_none());
    // Too short for the error.
    let short = cmsg(libc::IPPROTO_IP, libc::IP_RECVERR, &data[..15]);
    assert!(parse_ip_recverr(&short).is_none());
    // Not from an ICMP message.
    let local = extended_err(1, 3, 1, 0);
    let control = cmsg(libc::IPPROTO_IP, libc::IP_RECVERR, &local);
    assert!(parse_ip_recverr(&control).is_none());
    // The level and the type have to go together.
    let crossed = cmsg(libc::IPPROTO_IP, libc::IPV6_RECVERR, &data);
    assert!(parse_ip_recverr(&crossed).is_none());
    // A length below that of the header.
    let mut broken = cmsg(libc::IPPROTO_IP, libc::IP_RECVERR, &data);
    let word = core::mem::size_of::<usize>();
    broken[..word].copy_from_slice(&(word + 7).to_ne_bytes());
    assert!(parse_ip_recverr(&broken).is_none());
    // A length beyond every buffer.
    broken[..word].copy_from_slice(&usize::MAX.to_ne_bytes());
    assert!(parse_ip_recverr(&broken).is_none());
}

#[test]
fn test_parse_ip_recverr_of_either_order() {
    let mut control = Vec::new();
    let len = cmsg_len(16);
    control.extend_from_slice(&len.to_be_bytes());
    control.extend_from_slice(&0_i32.to_be_bytes());
    control.extend_from_slice(&11_i32.to_be_bytes());
    control.extend_from_slice(&[0, 0, 0, 0, 2, 3, 4, 0, 0, 0, 0x05, 0x78, 0, 0, 0, 0]);
    let parsed = parse_ip_recverr_as(ByteOrder::Big, &control).unwrap();
    assert_eq!(
        parsed.error,
        IcmpError {
            icmp_type: 3,
            icmp_code: 4,
            info: 1400
        }
    );
    assert!(parse_ip_recverr_as(ByteOrder::Little, &control).is_none());
}

#[test]
fn test_internet_checksum() {
    assert_eq!(internet_checksum(&[]), 0xffff);
    assert_eq!(internet_checksum(&[0, 0]), 0xffff);
    assert_eq!(internet_checksum(&[0xff, 0xff]), 0);
    // The example of RFC 1071.
    assert_eq!(
        internet_checksum(&[0x00, 0x01, 0xf2, 0x03, 0xf4, 0xf5, 0xf6, 0xf7]),
        !0xddf2
    );
    // An odd byte counts as the high half of a word.
    assert_eq!(internet_checksum(&[0x12]), !0x1200);
    assert_eq!(internet_checksum(&[0x12, 0x34, 0x56]), !(0x1234 + 0x5600));
    // The carry of a carry.
    assert_eq!(internet_checksum(&[0xff; 0x2_0002]), 0);
}

/// A buffer with its checksum filled in checks to zero.
#[test]
fn test_checksum_verifies() {
    for len in [4, 5, 8, 63, 64] {
        for at in [0, 2] {
            let mut bytes: Vec<u8> = (0..len).map(|i| (i * 37 + 200) as u8).collect();
            bytes[at] = 0;
            bytes[at + 1] = 0;
            let sum = internet_checksum(&bytes);
            bytes[at..at + 2].copy_from_slice(&sum.to_be_bytes());
            assert_eq!(internet_checksum(&bytes), 0, "length {len}");
        }
    }
}
