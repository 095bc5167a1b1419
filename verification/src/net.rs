//! Addresses, the control messages of the socket error queue, and the Internet
//! checksum.

use crate::bytes::{
    i32_at, law_i32_stored, law_number_len, law_number_stored, law_stored_len, law_u16_stored,
    law_u32_stored, law_usize_stored, native_order, native_word_len, read_i32, read_u16, read_u32,
    read_usize, stored_i32, stored_number, stored_u16, stored_u32, stored_usize, u16_at, u32_at,
    usize_at, word_len, ByteOrder,
};
use crate::platform::{
    af_inet, af_inet6, ip_recverr, ipproto_ip, ipproto_ipv6, ipv6_recverr, so_ee_origin_icmp,
    so_ee_origin_icmp6, AF_INET, AF_INET6, IPPROTO_IP, IPPROTO_IPV6, IPV6_RECVERR, IP_RECVERR,
    SO_EE_ORIGIN_ICMP, SO_EE_ORIGIN_ICMP6,
};
use vstd::endian::{endianness, Endian};
use vstd::prelude::*;

verus! {

/// Minimum IPv4 header length.
pub const MIN_IPV4_HEADER_LEN: usize = 20;

/// IPv6 header length.
pub const IPV6_HEADER_LENGTH: usize = 40;

/// Size of `sockaddr_in`.
pub const SOCKADDR_IN_LEN: usize = 16;

/// Size of `sockaddr_in6`.
pub const SOCKADDR_IN6_LEN: usize = 28;

/// Size of `sock_extended_err`.
pub const SOCK_EXTENDED_ERR_LEN: usize = 16;

/// An IPv4 address.
#[derive(Debug, Clone, Copy, PartialEq, Eq)]
pub struct Ipv4Addr {
    /// The address in network order.
    pub octets: [u8; 4],
}

/// An IPv6 address.
#[derive(Debug, Clone, Copy, PartialEq, Eq)]
pub struct Ipv6Addr {
    /// The address in network order.
    pub octets: [u8; 16],
}

/// An IP address of either version.
#[derive(Debug, Clone, Copy, PartialEq, Eq)]
pub enum IpAddr {
    /// An IPv4 address.
    V4(Ipv4Addr),
    /// An IPv6 address.
    V6(Ipv6Addr),
}

/// The address family a socket is opened for.
#[derive(Debug, Clone, Copy, PartialEq, Eq, Structural)]
pub enum Domain {
    /// IPv4.
    Ipv4,
    /// IPv6.
    Ipv6,
}

impl IpAddr {
    /// The family of an address.
    pub open spec fn domain_of(self) -> Domain {
        match self {
            IpAddr::V4(_) => Domain::Ipv4,
            IpAddr::V6(_) => Domain::Ipv6,
        }
    }

    /// The family this address belongs to.
    pub fn domain(&self) -> (domain: Domain)
        ensures
            domain == self.domain_of(),
    {
        match self {
            IpAddr::V4(_) => Domain::Ipv4,
            IpAddr::V6(_) => Domain::Ipv6,
        }
    }
}

/// The address in a `sockaddr_in` or `sockaddr_in6`: the family comes first, in
/// the machine's byte order, and the address sits at a fixed offset.
pub open spec fn sockaddr(order: Endian, bytes: Seq<u8>) -> Option<IpAddr> {
    if bytes.len() < 2 {
        None
    } else if u16_at(order, bytes, 0) == AF_INET && bytes.len() >= SOCKADDR_IN_LEN {
        Some(IpAddr::V4(Ipv4Addr { octets: [bytes[4], bytes[5], bytes[6], bytes[7]] }))
    } else if u16_at(order, bytes, 0) == AF_INET6 && bytes.len() >= SOCKADDR_IN6_LEN {
        Some(
            IpAddr::V6(
                Ipv6Addr {
                    octets: [
                        bytes[8],
                        bytes[9],
                        bytes[10],
                        bytes[11],
                        bytes[12],
                        bytes[13],
                        bytes[14],
                        bytes[15],
                        bytes[16],
                        bytes[17],
                        bytes[18],
                        bytes[19],
                        bytes[20],
                        bytes[21],
                        bytes[22],
                        bytes[23],
                    ],
                },
            ),
        )
    } else {
        None
    }
}

/// Parse a `sockaddr_in` or `sockaddr_in6` if `bytes` contains one, or else return `None`.
pub fn parse_sockaddr(bytes: &[u8]) -> (address: Option<IpAddr>)
    ensures
        address == sockaddr(endianness(), bytes@),
{
    parse_sockaddr_as(native_order(), bytes)
}

/// Parse a `sockaddr_in` or `sockaddr_in6` written on a machine of the given
/// byte order.
pub fn parse_sockaddr_as(order: ByteOrder, bytes: &[u8]) -> (address: Option<IpAddr>)
    ensures
        address == sockaddr(order@, bytes@),
{
    if bytes.len() < 2 {
        return None;
    }
    let family: i32 = read_u16(order, bytes, 0) as i32;

    if family == af_inet() {
        if bytes.len() < SOCKADDR_IN_LEN {
            return None;
        }
        let octets = [bytes[4], bytes[5], bytes[6], bytes[7]];
        Some(IpAddr::V4(Ipv4Addr { octets }))
    } else if family == af_inet6() {
        if bytes.len() < SOCKADDR_IN6_LEN {
            return None;
        }
        let octets = [
            bytes[8],
            bytes[9],
            bytes[10],
            bytes[11],
            bytes[12],
            bytes[13],
            bytes[14],
            bytes[15],
            bytes[16],
            bytes[17],
            bytes[18],
            bytes[19],
            bytes[20],
            bytes[21],
            bytes[22],
            bytes[23],
        ];
        Some(IpAddr::V6(Ipv6Addr { octets }))
    } else {
        None
    }
}

/// `length` rounded up to a multiple of the machine word, of eight bytes or
/// four.
pub open spec fn aligned(length: int) -> int {
    if word_len() == 8 {
        ((length + 7) / 8) * 8
    } else {
        ((length + 3) / 4) * 4
    }
}

/// The size of a `cmsghdr`: a word that holds the length of the message and two
/// 32-bit numbers. It is aligned already, so a message's data begins there.
pub open spec fn cmsg_header() -> int {
    word_len() + 8
}

/// Equivalent of Linux's `CMSG_ALIGN` macro.
pub fn cmsg_align(length: usize) -> (len: usize)
    requires
        length + word_len() - 1 <= usize::MAX,
    ensures
        len == aligned(length as int),
{
    let align: usize = native_word_len();
    let padded: usize = length + (align - 1);
    assert(padded & !7usize == (padded / 8) * 8) by (bit_vector);
    assert(padded & !3usize == (padded / 4) * 4) by (bit_vector);
    padded & !(align - 1)
}

/// The aligned size of a `cmsghdr`, which is where a cmsg's data begins.
pub fn cmsg_header_len() -> (len: usize)
    ensures
        len == cmsg_header(),
        len == aligned(cmsg_header()),
{
    native_word_len() + 8
}

/// Aligning yields a multiple of the word, at least the length and less than a
/// word above it, and leaves what is aligned as it is.
pub proof fn law_aligned(length: int)
    requires
        0 <= length,
    ensures
        aligned(length) % word_len() == 0,
        length <= aligned(length) < length + word_len(),
        aligned(aligned(length)) == aligned(length),
        length % word_len() == 0 ==> aligned(length) == length,
{
    if word_len() == 8 {
        assert(aligned(length) % 8 == 0);
    } else {
        assert(word_len() == 4);
        assert(aligned(length) % 4 == 0);
    }
}

/// An ICMP error reported through the socket error queue.
#[derive(Debug, Clone, Copy, PartialEq, Eq, Structural)]
pub struct IcmpError {
    pub icmp_type: u8,
    pub icmp_code: u8,
    /// Type-specific data, such as the next hop's MTU when fragmentation is
    /// needed.
    pub info: u32,
}

/// Contains a subset of the `sock_extended_err` fields that are of interest.
#[derive(Debug, Clone, Copy)]
pub struct ExtendedError<'a> {
    pub error: IcmpError,
    /// The address of whoever sent the error.
    pub source_bytes: &'a [u8],
}

/// The contents of an [`ExtendedError`].
pub struct ExtendedErrorView {
    pub error: IcmpError,
    pub source_bytes: Seq<u8>,
}

impl View for ExtendedError<'_> {
    type V = ExtendedErrorView;

    open spec fn view(&self) -> ExtendedErrorView {
        ExtendedErrorView { error: self.error, source_bytes: self.source_bytes@ }
    }
}

/// Whether a control message of this level and type carries a queued error.
pub open spec fn is_recverr(level: int, kind: int) -> bool {
    ||| level == IPPROTO_IP && kind == IP_RECVERR
    ||| level == IPPROTO_IPV6 && kind == IPV6_RECVERR
}

/// The length that the control message at `offset` gives in its header, which
/// counts the header too.
pub open spec fn cmsg_len_at(order: Endian, control: Seq<u8>, offset: int) -> int {
    usize_at(order, control, offset)
}

/// The level that the control message at `offset` gives in its header.
pub open spec fn cmsg_level_at(order: Endian, control: Seq<u8>, offset: int) -> int {
    i32_at(order, control, offset + word_len())
}

/// The type that the control message at `offset` gives in its header.
pub open spec fn cmsg_type_at(order: Endian, control: Seq<u8>, offset: int) -> int {
    i32_at(order, control, offset + word_len() + 4)
}

/// Whether a whole control message starts at `offset`.
pub open spec fn cmsg_whole_at(order: Endian, control: Seq<u8>, offset: int) -> bool {
    &&& offset + cmsg_header() <= control.len()
    &&& cmsg_header() <= cmsg_len_at(order, control, offset)
    &&& offset + cmsg_len_at(order, control, offset) <= control.len()
}

/// Where the data of the first control message from `offset` on that carries a
/// queued error starts and ends. Messages follow one another at aligned
/// offsets, and one that is not whole ends them.
pub open spec fn recverr_span(order: Endian, control: Seq<u8>, offset: int) -> Option<(int, int)>
    decreases control.len() + word_len() - offset,
{
    if !cmsg_whole_at(order, control, offset) {
        None
    } else {
        let len = cmsg_len_at(order, control, offset);
        if is_recverr(
            cmsg_level_at(order, control, offset),
            cmsg_type_at(order, control, offset),
        ) {
            Some((offset + cmsg_header(), offset + len))
        } else {
            proof {
                law_aligned(len);
            }
            recverr_span(order, control, offset + aligned(len))
        }
    }
}

/// The 32-bit number stored in `control` at `at`, as a machine integer.
pub open spec fn info_at(order: Endian, control: Seq<u8>, at: int) -> u32 {
    u32_at(order, control, at) as u32
}

/// The queued error in the message data that spans `start..end`, if the data
/// holds a whole `sock_extended_err` that an ICMP message caused.
pub open spec fn extended_error(
    order: Endian,
    control: Seq<u8>,
    start: int,
    end: int,
) -> Option<ExtendedErrorView> {
    let rest = start + SOCK_EXTENDED_ERR_LEN;
    if rest > end {
        None
    } else if control[start + 4] != SO_EE_ORIGIN_ICMP && control[start + 4] != SO_EE_ORIGIN_ICMP6 {
        None
    } else {
        Some(
            ExtendedErrorView {
                error: IcmpError {
                    icmp_type: control[start + 5],
                    icmp_code: control[start + 6],
                    info: info_at(order, control, start + 8),
                },
                source_bytes: control.subrange(rest, end),
            },
        )
    }
}

/// The queued error that control data holds.
pub open spec fn recverr(order: Endian, control: Seq<u8>) -> Option<ExtendedErrorView> {
    match recverr_span(order, control, 0) {
        Some((start, end)) => extended_error(order, control, start, end),
        None => None,
    }
}

/// The data that is found lies behind a message header and within the control
/// data, whatever lengths the headers claim.
pub proof fn law_recverr_in_bounds(order: Endian, control: Seq<u8>, offset: int)
    requires
        0 <= offset,
    ensures
        recverr_span(order, control, offset) matches Some((start, end)) ==> offset + cmsg_header()
            <= start <= end <= control.len(),
    decreases control.len() + word_len() - offset,
{
    if cmsg_whole_at(order, control, offset) {
        let len = cmsg_len_at(order, control, offset);
        law_aligned(len);
        if !is_recverr(
            cmsg_level_at(order, control, offset),
            cmsg_type_at(order, control, offset),
        ) {
            law_recverr_in_bounds(order, control, offset + aligned(len));
        }
    }
}

/// Control messages of other kinds in front of a queued error do not hide it: a
/// whole message that carries none is skipped.
pub proof fn law_recverr_skips_others(order: Endian, control: Seq<u8>, offset: int)
    requires
        0 <= offset,
        cmsg_whole_at(order, control, offset),
        !is_recverr(cmsg_level_at(order, control, offset), cmsg_type_at(order, control, offset)),
    ensures
        recverr_span(order, control, offset) == recverr_span(
            order,
            control,
            offset + aligned(cmsg_len_at(order, control, offset)),
        ),
{
}

/// Find the data of the first control message that carries a queued error.
fn find_recverr(order: ByteOrder, control: &[u8]) -> (span: Option<(usize, usize)>)
    ensures
        match span {
            Some((start, end)) => {
                &&& recverr_span(order@, control@, 0) == Some((start as int, end as int))
                &&& start <= end <= control.len()
            },
            None => recverr_span(order@, control@, 0) is None,
        },
{
    let word: usize = native_word_len();
    let header: usize = cmsg_header_len();
    let mut offset: usize = 0;

    while offset <= control.len() && header <= control.len() - offset
        invariant
            word == word_len(),
            header == cmsg_header(),
            recverr_span(order@, control@, offset as int) == recverr_span(order@, control@, 0),
        decreases control.len() + word - offset,
    {
        let cmsg_len: usize = read_usize(order, control, offset);
        if cmsg_len < header || cmsg_len > control.len() - offset {
            return None;
        }
        let cmsg_end: usize = offset + cmsg_len;

        let level: i32 = read_i32(order, control, offset + word);
        let kind: i32 = read_i32(order, control, offset + word + 4);
        if (level == ipproto_ip() && kind == ip_recverr()) || (level == ipproto_ipv6() && kind
            == ipv6_recverr()) {
            return Some((offset + header, cmsg_end));
        }
        proof {
            law_aligned(cmsg_len as int);
            let next = offset + aligned(cmsg_len as int);
            assert(next > usize::MAX - header ==> recverr_span(order@, control@, next) is None);
        }
        if cmsg_len > usize::MAX - (word - 1) {
            return None;
        }
        match offset.checked_add(cmsg_align(cmsg_len)) {
            Some(next) => {
                offset = next;
            },
            None => {
                return None;
            },
        }
    }
    None
}

/// Find the queued error in the control data of a read of the error queue.
pub fn parse_ip_recverr(control: &[u8]) -> (error: Option<ExtendedError<'_>>)
    ensures
        match error {
            Some(error) => recverr(endianness(), control@) == Some(error@),
            None => recverr(endianness(), control@) is None,
        },
{
    parse_ip_recverr_as(native_order(), control)
}

/// Find the queued error in control data written on a machine of the given byte
/// order.
pub fn parse_ip_recverr_as(order: ByteOrder, control: &[u8]) -> (error: Option<ExtendedError<'_>>)
    ensures
        match error {
            Some(error) => recverr(order@, control@) == Some(error@),
            None => recverr(order@, control@) is None,
        },
{
    let (start, end) = match find_recverr(order, control) {
        Some(span) => span,
        None => {
            return None;
        },
    };
    if end - start < SOCK_EXTENDED_ERR_LEN {
        return None;
    }
    let error_end: usize = start + SOCK_EXTENDED_ERR_LEN;

    let origin: u8 = control[start + 4];
    if origin != so_ee_origin_icmp() && origin != so_ee_origin_icmp6() {
        return None;
    }
    Some(
        ExtendedError {
            error: IcmpError {
                icmp_type: control[start + 5],
                icmp_code: control[start + 6],
                info: read_u32(order, control, start + 8),
            },
            source_bytes: vstd::slice::slice_subrange(control, error_end, end),
        },
    )
}

/// The option level and the option that let a socket of this family queue the
/// errors it receives.
pub open spec fn recverr_option_of(domain: Domain) -> (i32, i32) {
    match domain {
        Domain::Ipv6 => (IPPROTO_IPV6, IPV6_RECVERR),
        Domain::Ipv4 => (IPPROTO_IP, IP_RECVERR),
    }
}

/// The option level and name to set so ICMP errors can be read from the socket
/// error queue: `IP_RECVERR` or `IPV6_RECVERR`.
pub fn recverr_option(domain: Domain) -> (option: (i32, i32))
    ensures
        option == recverr_option_of(domain),
{
    match domain {
        Domain::Ipv6 => (ipproto_ipv6(), ipv6_recverr()),
        Domain::Ipv4 => (ipproto_ip(), ip_recverr()),
    }
}

/// The length a control message with `data` bytes of data gives in its header.
pub fn cmsg_len(data: usize) -> (len: usize)
    requires
        cmsg_header() + data <= usize::MAX,
    ensures
        len == cmsg_header() + data,
{
    cmsg_header_len() + data
}

/// The room a control message with `data` bytes of data takes up, padding and
/// all.
pub fn cmsg_space(data: usize) -> (len: usize)
    requires
        cmsg_header() + data + word_len() <= usize::MAX,
    ensures
        len == cmsg_header() + aligned(data as int),
{
    proof {
        law_aligned(data as int);
    }
    cmsg_header_len() + cmsg_align(data)
}

/// Room for the cmsgs an error queue read produces: the `sock_extended_err` plus
/// the address of whoever sent the error, sized for the widest family.
pub open spec fn recverr_control_room() -> int {
    cmsg_header() + aligned(SOCK_EXTENDED_ERR_LEN + SOCKADDR_IN6_LEN)
}

/// Room for the cmsgs an error queue read produces: `IP_RECVERR`'s
/// `sock_extended_err` plus the address of whoever sent the error, sized for
/// the widest family we can open. Enabling more IP options appends more cmsgs.
pub fn recverr_control_len() -> (len: usize)
    ensures
        len == recverr_control_room(),
        len < 0x100,
{
    proof {
        law_aligned(SOCK_EXTENDED_ERR_LEN + SOCKADDR_IN6_LEN);
    }
    cmsg_space(SOCK_EXTENDED_ERR_LEN + SOCKADDR_IN6_LEN)
}

/// The sum of the 16-bit words of `bytes`, in network order. A last odd byte
/// counts as the high half of a word.
pub open spec fn word_sum(bytes: Seq<u8>) -> int
    decreases bytes.len(),
{
    if bytes.len() == 0 {
        0
    } else if bytes.len() == 1 {
        0x100 * bytes[0]
    } else {
        0x100 * bytes[0] + bytes[1] + word_sum(bytes.skip(2))
    }
}

/// What a sum becomes when the carries out of 16 bits are added back in until
/// none is left: its residue modulo `0xffff`, where only the sum zero gives
/// zero.
pub open spec fn carried(sum: int) -> int {
    if sum == 0 {
        0
    } else {
        (sum - 1) % 0xffff + 1
    }
}

/// The Internet checksum of `bytes`: the complement of their ones' complement
/// sum.
pub open spec fn checksum(bytes: Seq<u8>) -> int {
    0xffff - carried(word_sum(bytes))
}

/// As many bytes as `internet_checksum` takes whatever they hold.
pub const CHECKSUM_ANY_LEN: usize = 0x2_0002;

/// The Internet checksum of `bytes`.
///
/// The words are summed up in 32 bits, which is enough for every buffer of up
/// to [`CHECKSUM_ANY_LEN`] bytes.
pub fn internet_checksum(bytes: &[u8]) -> (sum: u16)
    requires
        bytes.len() <= CHECKSUM_ANY_LEN || word_sum(bytes@) <= u32::MAX,
    ensures
        sum == checksum(bytes@),
{
    proof {
        lemma_word_sum_bounds(bytes@);
        assert(bytes@.skip(0) =~= bytes@);
    }
    let mut sum: u32 = 0;
    let mut at: usize = 0;

    while at < bytes.len()
        invariant
            at <= bytes.len(),
            sum + word_sum(bytes@.skip(at as int)) == word_sum(bytes@),
            word_sum(bytes@) <= u32::MAX,
        decreases bytes.len() - at,
    {
        let ghost rest = bytes@.skip(at as int);
        proof {
            lemma_word_sum_bounds(rest.skip(2));
        }
        let high: u32 = bytes[at] as u32;
        if bytes.len() - at == 1 {
            sum = sum + 0x100 * high;
            at = at + 1;
            assert(bytes@.skip(at as int) =~= Seq::<u8>::empty());
        } else {
            let low: u32 = bytes[at + 1] as u32;
            sum = sum + (0x100 * high + low);
            at = at + 2;
            assert(bytes@.skip(at as int) =~= rest.skip(2));
        }
    }
    assert(bytes@.skip(at as int) =~= Seq::<u8>::empty());

    while sum >> 16 != 0
        invariant
            carried(sum as int) == carried(word_sum(bytes@)),
        decreases sum,
    {
        let low: u32 = sum & 0xffff;
        let high: u32 = sum >> 16;
        assert(low == sum % 0x1_0000 && high == sum / 0x1_0000) by (bit_vector)
            requires
                low == sum & 0xffff,
                high == sum >> 16,
        ;
        sum = low + high;
    }
    assert(sum >> 16 == 0 ==> sum < 0x1_0000) by (bit_vector);
    let folded: u16 = sum as u16;
    assert(!folded == 0xffff - folded) by (bit_vector);
    !folded
}

/// A sum is never negative, and at most `0xffff` for each word.
proof fn lemma_word_sum_bounds(bytes: Seq<u8>)
    ensures
        0 <= word_sum(bytes) <= 0xffff * ((bytes.len() + 1) / 2),
    decreases bytes.len(),
{
    if bytes.len() >= 2 {
        lemma_word_sum_bounds(bytes.skip(2));
    }
}

/// The high byte of a 16-bit number.
pub open spec fn high_byte(n: int) -> u8 {
    (n / 0x100) as u8
}

/// The low byte of a 16-bit number.
pub open spec fn low_byte(n: int) -> u8 {
    (n % 0x100) as u8
}

/// `bytes` with the 16-bit number `n` written at `at`, in network order.
pub open spec fn with_u16(bytes: Seq<u8>, at: int, n: int) -> Seq<u8> {
    bytes.update(at, high_byte(n)).update(at + 1, low_byte(n))
}

/// Writing a number over two zero bytes that make up a word adds it to the sum.
pub proof fn lemma_word_sum_with(bytes: Seq<u8>, at: int, n: int)
    requires
        0 <= at,
        at + 2 <= bytes.len(),
        at % 2 == 0,
        bytes[at] == 0,
        bytes[at + 1] == 0,
        0 <= n <= 0xffff,
    ensures
        word_sum(with_u16(bytes, at, n)) == word_sum(bytes) + n,
    decreases at,
{
    let written = with_u16(bytes, at, n);
    if at == 0 {
        assert(written.skip(2) =~= bytes.skip(2));
    } else {
        assert(written.skip(2) =~= with_u16(bytes.skip(2), at - 2, n));
        lemma_word_sum_with(bytes.skip(2), at - 2, n);
    }
}

/// A buffer that carries its own checksum checks to zero: when the field, at an
/// even offset, was zero while the checksum was taken, the checksum of the
/// buffer with the field filled in is zero, whatever else the buffer holds.
pub proof fn law_checksum_verifies(bytes: Seq<u8>, at: int)
    requires
        0 <= at,
        at + 2 <= bytes.len(),
        at % 2 == 0,
        bytes[at] == 0,
        bytes[at + 1] == 0,
    ensures
        0 <= checksum(bytes) <= 0xffff,
        checksum(with_u16(bytes, at, checksum(bytes))) == 0,
{
    lemma_word_sum_bounds(bytes);
    lemma_word_sum_with(bytes, at, checksum(bytes));
}

/// An address is read back from the structure that the kernel wrote it into: a
/// `sockaddr_in` holds the family, a port and the four octets, and a
/// `sockaddr_in6` the family, a port, the flow and the sixteen octets. What lies
/// in the other fields, and behind the structure, does not count.
pub proof fn law_sockaddr_written(
    order: Endian,
    v4: Ipv4Addr,
    v6: Ipv6Addr,
    port: Seq<u8>,
    flow: Seq<u8>,
    behind: Seq<u8>,
)
    requires
        port.len() == 2,
        flow.len() == 4,
    ensures
        behind.len() >= 8 ==> sockaddr(order, stored_u16(order, 2) + port + v4.octets@ + behind)
            == Some(IpAddr::V4(v4)),
        behind.len() >= 4 ==> sockaddr(
            order,
            stored_u16(order, 10) + port + flow + v6.octets@ + behind,
        ) == Some(IpAddr::V6(v6)),
{
    law_stored_len(order, 2);
    law_stored_len(order, 10);
    let short = stored_u16(order, 2) + port + v4.octets@ + behind;
    assert(short.subrange(0, 2) =~= stored_u16(order, 2));
    law_u16_stored(order, short, 0, 2);
    if behind.len() >= 8 {
        assert(forall|i: int| 0 <= i < 4 ==> #[trigger] v4.octets@[i] == short[4 + i]);
        let read = sockaddr(order, short)->0->V4_0;
        assert(v4.octets@[0] == short[4] && v4.octets@[1] == short[5]);
        assert(v4.octets@[2] == short[6] && v4.octets@[3] == short[7]);
        assert(read.octets@ =~= v4.octets@);
        assert(read.octets == v4.octets);
    }
    let long = stored_u16(order, 10) + port + flow + v6.octets@ + behind;
    assert(long.subrange(0, 2) =~= stored_u16(order, 10));
    law_u16_stored(order, long, 0, 10);
    if behind.len() >= 4 {
        let read = sockaddr(order, long)->0->V6_0;
        assert(forall|i: int| 0 <= i < 16 ==> #[trigger] v6.octets@[i] == long[8 + i]);
        assert(v6.octets@[0] == long[8] && v6.octets@[1] == long[9]);
        assert(v6.octets@[2] == long[10] && v6.octets@[3] == long[11]);
        assert(v6.octets@[4] == long[12] && v6.octets@[5] == long[13]);
        assert(v6.octets@[6] == long[14] && v6.octets@[7] == long[15]);
        assert(v6.octets@[8] == long[16] && v6.octets@[9] == long[17]);
        assert(v6.octets@[10] == long[18] && v6.octets@[11] == long[19]);
        assert(v6.octets@[12] == long[20] && v6.octets@[13] == long[21]);
        assert(v6.octets@[14] == long[22] && v6.octets@[15] == long[23]);
        assert(read.octets@ =~= v6.octets@);
        assert(read.octets == v6.octets);
    }
}

/// Bytes that are no whole `sockaddr_in` or `sockaddr_in6` hold no address: they
/// are too short for their family, or of another family.
pub proof fn law_sockaddr_refused(order: Endian, bytes: Seq<u8>)
    ensures
        sockaddr(order, bytes) is Some <==> {
            ||| bytes.len() >= 16 && bytes.subrange(0, 2) == stored_u16(order, 2)
            ||| bytes.len() >= 28 && bytes.subrange(0, 2) == stored_u16(order, 10)
        },
        bytes.len() >= 16 && bytes.subrange(0, 2) == stored_u16(order, 2) ==> sockaddr(
            order,
            bytes,
        )->0 is V4,
{
    if bytes.len() >= 2 {
        law_u16_stored(order, bytes, 0, 2);
        law_u16_stored(order, bytes, 0, 10);
    }
}

/// A control message as the kernel writes it: a `cmsghdr` with the length of the
/// whole message, the level and the type, and then the data.
pub open spec fn cmsg_bytes(order: Endian, level: int, kind: int, data: Seq<u8>) -> Seq<u8> {
    stored_usize(order, usize::BITS / 8 + 8 + data.len()) + stored_i32(order, level)
        + stored_i32(order, kind) + data
}

/// A `sock_extended_err` as the kernel writes it.
pub open spec fn extended_err_bytes(
    order: Endian,
    errno: int,
    origin: u8,
    error: IcmpError,
    pad: u8,
    data: int,
) -> Seq<u8> {
    stored_u32(order, errno) + seq![origin, error.icmp_type, error.icmp_code, pad] + stored_number(
        order,
        error.info,
    ) + stored_u32(order, data)
}

/// What the header of a control message says once it is written, and where its
/// data lies.
proof fn lemma_cmsg_written(
    order: Endian,
    level: int,
    kind: int,
    data: Seq<u8>,
    behind: Seq<u8>,
)
    requires
        usize::BITS / 8 + 8 + data.len() <= usize::MAX,
        i32::MIN <= level <= i32::MAX,
        i32::MIN <= kind <= i32::MAX,
    ensures
        ({
            let control = cmsg_bytes(order, level, kind, data) + behind;
            &&& control.len() == cmsg_header() + data.len() + behind.len()
            &&& cmsg_len_at(order, control, 0) == cmsg_header() + data.len()
            &&& cmsg_level_at(order, control, 0) == level
            &&& cmsg_type_at(order, control, 0) == kind
            &&& cmsg_whole_at(order, control, 0)
            &&& control.subrange(cmsg_header(), cmsg_header() + data.len()) == data
        }),
{
    let control = cmsg_bytes(order, level, kind, data) + behind;
    let word = usize::BITS as int / 8;
    let len = word + 8 + data.len();
    law_stored_len(order, len);
    law_stored_len(order, level);
    law_stored_len(order, kind);
    assert(control.subrange(0, word) =~= stored_usize(order, len));
    law_usize_stored(order, control, 0, len);
    assert(control.subrange(word, word + 4) =~= stored_i32(order, level));
    law_i32_stored(order, control, word, level);
    assert(control.subrange(word + 4, word + 8) =~= stored_i32(order, kind));
    law_i32_stored(order, control, word + 4, kind);
    assert(control.subrange(cmsg_header(), cmsg_header() + data.len()) =~= data);
}

/// The error in a span is the one that the bytes of the span hold.
proof fn lemma_error_local(order: Endian, control: Seq<u8>, start: int, end: int)
    requires
        0 <= start <= end <= control.len(),
    ensures
        extended_error(order, control, start, end) == extended_error(
            order,
            control.subrange(start, end),
            0,
            end - start,
        ),
{
    let part = control.subrange(start, end);
    if end - start >= 16 {
        assert(control[start + 4] == part[4]);
        assert(control[start + 5] == part[5]);
        assert(control[start + 6] == part[6]);
        assert(control.subrange(start + 8, start + 12) =~= part.subrange(8, 12));
        law_u32_stored(order, part, 8, 0);
        law_u32_stored(order, control, start + 8, u32_at(order, part, 8));
        assert(control.subrange(start + 16, end) =~= part.subrange(16, end - start));
    }
}

/// Where a message that carries a queued error stands in front, the error is the
/// one that its data holds.
proof fn lemma_recverr_in_front(
    order: Endian,
    level: int,
    kind: int,
    data: Seq<u8>,
    behind: Seq<u8>,
)
    requires
        usize::BITS as int / 8 + 8 + data.len() <= usize::MAX,
        (level == 0 && kind == 11) || (level == 41 && kind == 25),
    ensures
        recverr(order, cmsg_bytes(order, level, kind, data) + behind) == extended_error(
            order,
            data,
            0,
            data.len() as int,
        ),
{
    let control = cmsg_bytes(order, level, kind, data) + behind;
    lemma_cmsg_written(order, level, kind, data, behind);
    lemma_error_local(order, control, cmsg_header(), cmsg_header() + data.len());
}

/// A `sock_extended_err` and an address hold the error that was written.
proof fn lemma_error_written(
    order: Endian,
    origin: u8,
    error: IcmpError,
    errno: int,
    pad: u8,
    data: int,
    source: Seq<u8>,
)
    requires
        origin == 2 || origin == 3,
    ensures
        ({
            let whole = extended_err_bytes(order, errno, origin, error, pad, data) + source;
            extended_error(order, whole, 0, 16int + source.len()) == Some(
                ExtendedErrorView { error, source_bytes: source },
            )
        }),
{
    law_stored_len(order, errno);
    law_number_len(order, error.info);
    law_stored_len(order, data);
    let whole = extended_err_bytes(order, errno, origin, error, pad, data) + source;
    assert(whole[4] == origin);
    assert(whole[5] == error.icmp_type);
    assert(whole[6] == error.icmp_code);
    assert(whole.subrange(8, 12) =~= stored_number(order, error.info));
    law_number_stored(order, whole, 8, error.info);
    assert(whole.subrange(16, 16int + source.len()) =~= source);
}

/// A queued error is read back as it was written: whatever its type, its code,
/// the data of its type and the address of its sender, they come out as they
/// went in, on a machine of either byte order and for either IP version. The
/// other fields, and what follows the message, do not count.
pub proof fn law_recverr_written(
    order: Endian,
    v6: bool,
    origin: u8,
    error: IcmpError,
    errno: int,
    pad: u8,
    data: int,
    source: Seq<u8>,
    behind: Seq<u8>,
)
    requires
        origin == 2 || origin == 3,
        usize::BITS / 8 + 24 + source.len() <= usize::MAX,
    ensures
        recverr(
            order,
            cmsg_bytes(
                order,
                if v6 {
                    41
                } else {
                    0
                },
                if v6 {
                    25
                } else {
                    11
                },
                extended_err_bytes(order, errno, origin, error, pad, data) + source,
            ) + behind,
        ) == Some(ExtendedErrorView { error, source_bytes: source }),
{
    let level: int = if v6 {
        41
    } else {
        0
    };
    let kind: int = if v6 {
        25
    } else {
        11
    };
    law_stored_len(order, errno);
    law_number_len(order, error.info);
    law_stored_len(order, data);
    let whole = extended_err_bytes(order, errno, origin, error, pad, data) + source;
    assert(whole.len() == 16 + source.len());
    lemma_recverr_in_front(order, level, kind, whole, behind);
    lemma_error_written(order, origin, error, errno, pad, data, source);
}

/// A message of a queued error that an ICMP message did not cause, or that is too
/// short for a `sock_extended_err`, yields none, whatever follows it.
pub proof fn law_recverr_foreign(order: Endian, v6: bool, data: Seq<u8>, behind: Seq<u8>)
    requires
        usize::BITS / 8 + 8 + data.len() <= usize::MAX,
        data.len() < 16 || (data[4] != 2 && data[4] != 3),
    ensures
        recverr(
            order,
            cmsg_bytes(
                order,
                if v6 {
                    41
                } else {
                    0
                },
                if v6 {
                    25
                } else {
                    11
                },
                data,
            ) + behind,
        ) is None,
{
    let level: int = if v6 {
        41
    } else {
        0
    };
    let kind: int = if v6 {
        25
    } else {
        11
    };
    lemma_recverr_in_front(order, level, kind, data, behind);
}

/// Numbers behind a front part are those of the rest.
proof fn lemma_read_behind(order: Endian, front: Seq<u8>, rest: Seq<u8>, at: int)
    requires
        0 <= at,
        at + cmsg_header() <= rest.len(),
    ensures
        cmsg_len_at(order, front + rest, front.len() + at) == cmsg_len_at(order, rest, at),
        cmsg_level_at(order, front + rest, front.len() + at) == cmsg_level_at(order, rest, at),
        cmsg_type_at(order, front + rest, front.len() + at) == cmsg_type_at(order, rest, at),
{
    let word = usize::BITS as int / 8;
    let all = front + rest;
    let n = front.len() as int;
    assert(all.subrange(n + at, n + at + word) =~= rest.subrange(at, at + word));
    law_usize_stored(order, rest, at, 0);
    law_usize_stored(order, all, n + at, usize_at(order, rest, at));
    assert(all.subrange(n + at + word, n + at + word + 4) =~= rest.subrange(
        at + word,
        at + word + 4,
    ));
    law_i32_stored(order, rest, at + word, 0);
    law_i32_stored(order, all, n + at + word, i32_at(order, rest, at + word));
    assert(all.subrange(n + at + word + 4, n + at + word + 8) =~= rest.subrange(
        at + word + 4,
        at + word + 8,
    ));
    law_i32_stored(order, rest, at + word + 4, 0);
    law_i32_stored(order, all, n + at + word + 4, i32_at(order, rest, at + word + 4));
}

/// What is found behind a front part is what the rest holds, that much further
/// on.
proof fn lemma_span_behind(order: Endian, front: Seq<u8>, rest: Seq<u8>, at: int)
    requires
        0 <= at,
    ensures
        recverr_span(order, front + rest, front.len() + at) == (match recverr_span(
            order,
            rest,
            at,
        ) {
            Some((start, end)) => Some((front.len() + start, front.len() + end)),
            None => None,
        }),
    decreases rest.len() + word_len() - at,
{
    if at + cmsg_header() <= rest.len() {
        lemma_read_behind(order, front, rest, at);
        if cmsg_whole_at(order, rest, at) {
            let len = cmsg_len_at(order, rest, at);
            law_aligned(len);
            if !is_recverr(cmsg_level_at(order, rest, at), cmsg_type_at(order, rest, at)) {
                lemma_span_behind(order, front, rest, at + aligned(len));
            }
        }
    }
}

/// The error that is found behind a front part is the one that the rest holds.
proof fn lemma_recverr_behind(order: Endian, front: Seq<u8>, rest: Seq<u8>)
    ensures
        recverr(order, rest) == (match recverr_span(order, front + rest, front.len() as int) {
            Some((start, end)) => extended_error(order, front + rest, start, end),
            None => None,
        }),
{
    let control = front + rest;
    lemma_span_behind(order, front, rest, 0);
    if let Some((start, end)) = recverr_span(order, rest, 0) {
        law_recverr_in_bounds(order, rest, 0);
        let n = front.len() as int;
        assert(control.subrange(n + start, n + end) =~= rest.subrange(start, end));
        lemma_error_local(order, control, n + start, n + end);
        lemma_error_local(order, rest, start, end);
    }
}

/// Padding of less than a word that completes the data of a message to whole
/// words is what aligning the message adds.
proof fn lemma_padded(data: int, padding: int)
    requires
        0 <= data,
        0 <= padding < usize::BITS as int / 8,
        (data + padding) % (usize::BITS as int / 8) == 0,
    ensures
        aligned(cmsg_header() + data) == cmsg_header() + data + padding,
{
    if word_len() == 8 {
        assert((data + padding) % 8 == 0);
    } else {
        assert(word_len() == 4);
        assert((data + padding) % 4 == 0);
    }
}

/// A message that carries no queued error changes nothing: with it and its
/// padding in front, control data holds the error that it holds without, be that
/// one or none.
pub proof fn law_recverr_behind_others(
    order: Endian,
    level: i32,
    kind: i32,
    data: Seq<u8>,
    padding: Seq<u8>,
    rest: Seq<u8>,
)
    requires
        !(level == 0 && kind == 11),
        !(level == 41 && kind == 25),
        usize::BITS / 8 + 8 + data.len() <= usize::MAX,
        padding.len() < usize::BITS / 8,
        (data.len() as int + padding.len()) % (usize::BITS as int / 8) == 0,
    ensures
        recverr(order, cmsg_bytes(order, level as int, kind as int, data) + padding + rest)
            == recverr(order, rest),
{
    let message = cmsg_bytes(order, level as int, kind as int, data);
    let front = message + padding;
    let control = front + rest;
    assert(control =~= message + (padding + rest));
    lemma_cmsg_written(order, level as int, kind as int, data, padding + rest);
    lemma_padded(data.len() as int, padding.len() as int);
    law_recverr_skips_others(order, control, 0);
    lemma_recverr_behind(order, front, rest);
}

/// Control data that ends within a word behind a message of another kind holds no
/// queued error.
pub proof fn law_recverr_none_behind(
    order: Endian,
    level: i32,
    kind: i32,
    data: Seq<u8>,
    behind: Seq<u8>,
)
    requires
        !(level == 0 && kind == 11),
        !(level == 41 && kind == 25),
        usize::BITS / 8 + 8 + data.len() <= usize::MAX,
        behind.len() < usize::BITS / 8,
    ensures
        recverr(order, cmsg_bytes(order, level as int, kind as int, data) + behind) is None,
{
    let control = cmsg_bytes(order, level as int, kind as int, data) + behind;
    lemma_cmsg_written(order, level as int, kind as int, data, behind);
    let len = cmsg_len_at(order, control, 0);
    law_aligned(len);
    assert(!cmsg_whole_at(order, control, aligned(len)));
    law_recverr_skips_others(order, control, 0);
}

/// Control data that does not start with a whole message holds no queued error:
/// there is no room for a header, or the header claims fewer bytes than it has
/// itself or more than there are.
pub proof fn law_recverr_needs_whole_message(order: Endian, control: Seq<u8>, claimed: int)
    requires
        control.len() < usize::BITS / 8 + 8 || {
            &&& 0 <= claimed <= usize::MAX
            &&& control.subrange(0, usize::BITS as int / 8) == stored_usize(order, claimed)
            &&& claimed < usize::BITS / 8 + 8 || claimed > control.len()
        },
    ensures
        recverr(order, control) is None,
{
    if control.len() >= usize::BITS / 8 + 8 {
        law_usize_stored(order, control, 0, claimed);
    }
}

/// A socket is told to queue errors by the option of its own family.
pub proof fn law_recverr_option(domain: Domain)
    ensures
        domain is Ipv4 ==> recverr_option_of(domain) == (0i32, 11i32),
        domain is Ipv6 ==> recverr_option_of(domain) == (41i32, 25i32),
{
}

/// The room for control data holds the message of any queued error whose sender
/// has an IPv4 or IPv6 address, with its padding, and no more.
pub proof fn law_control_room(order: Endian, level: int, kind: int, data: Seq<u8>)
    requires
        data.len() == 16 + 28,
    ensures
        cmsg_header() == usize::BITS / 8 + 8,
        cmsg_bytes(order, level, kind, data).len() <= recverr_control_room(),
        recverr_control_room() < cmsg_bytes(order, level, kind, data).len() + usize::BITS / 8,
        recverr_control_room() % (usize::BITS as int / 8) == 0,
{
    law_stored_len(order, level);
    law_stored_len(order, kind);
    law_stored_len(order, usize::BITS as int / 8 + 8 + data.len());
    law_aligned(data.len() as int);
}

/// The family of an address is its version.
pub proof fn law_domain(addr: IpAddr)
    ensures
        addr is V4 <==> addr.domain_of() is Ipv4,
        addr is V6 <==> addr.domain_of() is Ipv6,
{
}

/// The sum of two parts is the sum of the whole where the first part is made up
/// of whole words. Two bytes make up a word in network order, and a single byte
/// is the high half of one.
pub proof fn law_word_sum(front: Seq<u8>, rest: Seq<u8>, high: u8, low: u8)
    ensures
        front.len() % 2 == 0 ==> word_sum(front + rest) == word_sum(front) + word_sum(rest),
        word_sum(seq![high, low]) == 0x100 * high + low,
        word_sum(seq![high]) == 0x100 * high,
        word_sum(Seq::<u8>::empty()) == 0,
    decreases front.len(),
{
    let word = seq![high, low];
    assert(word.skip(2) =~= Seq::<u8>::empty());
    assert(word_sum(word.skip(2)) == 0);
    if front.len() == 0 {
        assert(front + rest =~= rest);
    } else if front.len() % 2 == 0 {
        assert((front + rest).skip(2) =~= front.skip(2) + rest);
        law_word_sum(front.skip(2), rest, high, low);
    }
}

/// A checksum is a 16-bit number that completes the sum of the words to a
/// multiple of `0xffff`. Of the two that do where the sum is one already, it is
/// zero, except where every byte is zero.
pub proof fn law_checksum_completes(bytes: Seq<u8>)
    ensures
        0 <= checksum(bytes) <= 0xffff,
        (word_sum(bytes) + checksum(bytes)) % 0xffff == 0,
        checksum(bytes) == 0xffff <==> (forall|i: int|
            0 <= i < bytes.len() ==> #[trigger] bytes[i] == 0),
{
    lemma_word_sum_bounds(bytes);
    lemma_word_sum_zero(bytes);
    let sum = word_sum(bytes);
    if sum > 0 {
        let quotient = (sum - 1) / 0xffff;
        assert(sum - 1 == 0xffff * quotient + (sum - 1) % 0xffff);
        assert(sum + checksum(bytes) == 0xffff * (quotient + 1));
    }
}

/// Only bytes that are all zero sum to zero.
proof fn lemma_word_sum_zero(bytes: Seq<u8>)
    ensures
        word_sum(bytes) == 0 <==> (forall|i: int|
            0 <= i < bytes.len() ==> #[trigger] bytes[i] == 0),
    decreases bytes.len(),
{
    lemma_word_sum_bounds(bytes);
    if bytes.len() >= 2 {
        let rest = bytes.skip(2);
        lemma_word_sum_zero(rest);
        lemma_word_sum_bounds(rest);
        assert(forall|i: int| 0 <= i < rest.len() ==> #[trigger] rest[i] == bytes[i + 2]);
        if word_sum(bytes) == 0 {
            assert forall|i: int| 0 <= i < bytes.len() implies #[trigger] bytes[i] == 0 by {
                if i >= 2 {
                    assert(rest[i - 2] == bytes[i]);
                }
            }
        }
        if forall|i: int| 0 <= i < bytes.len() ==> #[trigger] bytes[i] == 0 {
            assert(bytes[0] == 0 && bytes[1] == 0);
        }
    }
}

} // verus!
