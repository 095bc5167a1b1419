//! What the `libc` crate says of the kernel interface.
//!
//! Each constant below is the value that contracts speak of. Code takes the
//! value from `libc`, through the function of the same name in lower case. The
//! values are those of the targets that the `io_uring` crate has bindings for.

use vstd::prelude::*;

verus! {

/// Address family of IPv4.
pub const AF_INET: i32 = 2;

/// Address family of IPv6.
pub const AF_INET6: i32 = 10;

/// Option level of IPv4.
pub const IPPROTO_IP: i32 = 0;

/// Option level of IPv6.
pub const IPPROTO_IPV6: i32 = 41;

/// IPv4 option and control message that carry queued errors.
pub const IP_RECVERR: i32 = 11;

/// IPv6 option and control message that carry queued errors.
pub const IPV6_RECVERR: i32 = 25;

/// Control message that sets the time to live of an IPv4 packet.
pub const IP_TTL: i32 = 2;

/// Control message that sets the hop limit of an IPv6 packet.
pub const IPV6_HOPLIMIT: i32 = 52;

/// Origin of a queued error that came as an ICMP message.
pub const SO_EE_ORIGIN_ICMP: u8 = 2;

/// Origin of a queued error that came as an ICMPv6 message.
pub const SO_EE_ORIGIN_ICMP6: u8 = 3;

/// Receive flag that reads the error queue of a socket.
pub const MSG_ERRQUEUE: i32 = 0x2000;

/// Error code: no route to host.
pub const EHOSTUNREACH: i32 = 113;

/// Error code: timer expired.
pub const ETIME: i32 = 62;

/// Error code: device or resource busy.
pub const EBUSY: i32 = 16;

/// `libc::AF_INET` is [`AF_INET`].
#[verifier::external_body]
pub(crate) fn af_inet() -> (value: i32)
    ensures
        value == AF_INET,
{
    libc::AF_INET
}

/// `libc::AF_INET6` is [`AF_INET6`].
#[verifier::external_body]
pub(crate) fn af_inet6() -> (value: i32)
    ensures
        value == AF_INET6,
{
    libc::AF_INET6
}

/// `libc::IPPROTO_IP` is [`IPPROTO_IP`].
#[verifier::external_body]
pub(crate) fn ipproto_ip() -> (value: i32)
    ensures
        value == IPPROTO_IP,
{
    libc::IPPROTO_IP
}

/// `libc::IPPROTO_IPV6` is [`IPPROTO_IPV6`].
#[verifier::external_body]
pub(crate) fn ipproto_ipv6() -> (value: i32)
    ensures
        value == IPPROTO_IPV6,
{
    libc::IPPROTO_IPV6
}

/// `libc::IP_RECVERR` is [`IP_RECVERR`].
#[verifier::external_body]
pub(crate) fn ip_recverr() -> (value: i32)
    ensures
        value == IP_RECVERR,
{
    libc::IP_RECVERR
}

/// `libc::IPV6_RECVERR` is [`IPV6_RECVERR`].
#[verifier::external_body]
pub(crate) fn ipv6_recverr() -> (value: i32)
    ensures
        value == IPV6_RECVERR,
{
    libc::IPV6_RECVERR
}

/// `libc::IP_TTL` is [`IP_TTL`].
#[verifier::external_body]
pub(crate) fn ip_ttl() -> (value: i32)
    ensures
        value == IP_TTL,
{
    libc::IP_TTL
}

/// `libc::IPV6_HOPLIMIT` is [`IPV6_HOPLIMIT`].
#[verifier::external_body]
pub(crate) fn ipv6_hoplimit() -> (value: i32)
    ensures
        value == IPV6_HOPLIMIT,
{
    libc::IPV6_HOPLIMIT
}

/// `libc::SO_EE_ORIGIN_ICMP` is [`SO_EE_ORIGIN_ICMP`].
#[verifier::external_body]
pub(crate) fn so_ee_origin_icmp() -> (value: u8)
    ensures
        value == SO_EE_ORIGIN_ICMP,
{
    libc::SO_EE_ORIGIN_ICMP
}

/// `libc::SO_EE_ORIGIN_ICMP6` is [`SO_EE_ORIGIN_ICMP6`].
#[verifier::external_body]
pub(crate) fn so_ee_origin_icmp6() -> (value: u8)
    ensures
        value == SO_EE_ORIGIN_ICMP6,
{
    libc::SO_EE_ORIGIN_ICMP6
}

/// `libc::MSG_ERRQUEUE` is [`MSG_ERRQUEUE`].
#[verifier::external_body]
pub(crate) fn msg_errqueue() -> (value: i32)
    ensures
        value == MSG_ERRQUEUE,
{
    libc::MSG_ERRQUEUE
}

/// `libc::EHOSTUNREACH` is [`EHOSTUNREACH`].
#[verifier::external_body]
pub(crate) fn ehostunreach() -> (value: i32)
    ensures
        value == EHOSTUNREACH,
{
    libc::EHOSTUNREACH
}

/// `libc::ETIME` is [`ETIME`].
#[verifier::external_body]
pub(crate) fn etime() -> (value: i32)
    ensures
        value == ETIME,
{
    libc::ETIME
}

/// `libc::EBUSY` is [`EBUSY`].
#[verifier::external_body]
pub(crate) fn ebusy() -> (value: i32)
    ensures
        value == EBUSY,
{
    libc::EBUSY
}

} // verus!
