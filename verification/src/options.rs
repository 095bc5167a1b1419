//! What the options of the program mean.

use crate::method::{Icmp, PacketTooSmall};
use crate::net::IpAddr;
use vstd::prelude::*;

verus! {

/// The method to use for probes.
#[derive(Debug, Clone, Copy, PartialEq, Eq, Structural)]
pub enum MethodArg {
    Icmp,
}

/// The IP version to use.
#[derive(Debug, Clone, Copy, PartialEq, Eq, Structural)]
pub enum IpVersionArg {
    /// Use the IP version of the target if it is an IP address, or the
    /// resolver's first answer for a hostname.
    Auto,
    /// Use IPv4. The target must either be an IPv4 address or a hostname that
    /// resolves to at least one IPv4 address.
    V4,
    /// Use IPv6. The target must either be an IPv6 address or a hostname that
    /// resolves to at least one IPv6 address.
    V6,
}

/// Why options cannot be used.
#[derive(Debug, Clone, Copy, PartialEq, Eq, Structural)]
pub enum OptionsError {
    /// The first hop is not before the last.
    Hops,
    /// The target is an address of another IP version.
    VersionMismatch,
    /// No answer of the resolver has the IP version.
    NoAnswer,
    /// The method cannot probe an IPv6 address.
    Ipv6Unsupported,
    /// The packet size leaves no room for the headers.
    PacketTooSmall(PacketTooSmall),
}

impl OptionsError {
    /// The text of the error.
    pub open spec fn shown(self) -> Seq<char> {
        match self {
            OptionsError::Hops => "--first-hop must be less than --max-hops"@,
            OptionsError::VersionMismatch => "--target IP version does not match --ip-version "@,
            OptionsError::NoAnswer =>
                "DNS lookup returned no answers matching the requested --ip-version"@,
            OptionsError::Ipv6Unsupported => "method icmp unsupported for IPv6"@,
            OptionsError::PacketTooSmall(error) => error.shown(),
        }
    }

    /// Render the error.
    pub fn to_string(&self) -> (text: String)
        ensures
            text@ == self.shown(),
    {
        let mut text: String = String::new();
        match self {
            OptionsError::Hops => {
                text.append("--first-hop must be less than --max-hops");
            },
            OptionsError::VersionMismatch => {
                text.append("--target IP version does not match --ip-version ");
            },
            OptionsError::NoAnswer => {
                text.append("DNS lookup returned no answers matching the requested --ip-version");
            },
            OptionsError::Ipv6Unsupported => {
                text.append("method icmp unsupported for IPv6");
            },
            OptionsError::PacketTooSmall(error) => {
                text = error.to_string();
            },
        }
        assert(text@ =~= self.shown());
        text
    }
}

/// Check that the first hop comes before the last.
pub fn check_hops(first_hop: u8, max_hops: u8) -> (checked: Result<(), OptionsError>)
    ensures
        checked == (if first_hop < max_hops {
            Ok(())
        } else {
            Err(OptionsError::Hops)
        }),
{
    if first_hop >= max_hops {
        Err(OptionsError::Hops)
    } else {
        Ok(())
    }
}

/// Whether an address has the IP version that is asked for.
pub open spec fn version_matches(addr: IpAddr, want: IpVersionArg) -> bool {
    match want {
        IpVersionArg::Auto => true,
        IpVersionArg::V4 => addr is V4,
        IpVersionArg::V6 => addr is V6,
    }
}

/// Tell whether an address has the IP version that is asked for.
pub fn ip_version_matches(addr: &IpAddr, want: IpVersionArg) -> (matching: bool)
    ensures
        matching == version_matches(*addr, want),
{
    match want {
        IpVersionArg::Auto => true,
        IpVersionArg::V4 => matches!(addr, IpAddr::V4(_)),
        IpVersionArg::V6 => matches!(addr, IpAddr::V6(_)),
    }
}

/// Returns [`Some`] if a text is an IP address, or [`None`] otherwise, given
/// the address that it holds when it is read as a socket address and when it is
/// read as an IP address. An address with a port is no IP address.
pub fn maybe_ip(with_port: Option<IpAddr>, without_port: Option<IpAddr>) -> (addr: Option<IpAddr>)
    ensures
        addr == (if with_port is Some {
            None
        } else {
            without_port
        }),
{
    match with_port {
        Some(_) => None,
        None => without_port,
    }
}

/// Use a target that is an IP address, if its version is the one asked for.
pub fn literal_target(addr: IpAddr, want: IpVersionArg) -> (target: Result<IpAddr, OptionsError>)
    ensures
        target == (if version_matches(addr, want) {
            Ok(addr)
        } else {
            Err(OptionsError::VersionMismatch)
        }),
{
    if !ip_version_matches(&addr, want) {
        return Err(OptionsError::VersionMismatch);
    }
    Ok(addr)
}

/// The first address of the IP version that is asked for.
pub open spec fn first_match(answers: Seq<IpAddr>, want: IpVersionArg) -> Option<IpAddr>
    decreases answers.len(),
{
    if answers.len() == 0 {
        None
    } else if version_matches(answers[0], want) {
        Some(answers[0])
    } else {
        first_match(answers.skip(1), want)
    }
}

/// Use the first answer of the resolver that has the IP version asked for.
pub fn resolved_target(answers: &Vec<IpAddr>, want: IpVersionArg) -> (target: Result<
    IpAddr,
    OptionsError,
>)
    ensures
        target == (match first_match(answers@, want) {
            Some(addr) => Ok(addr),
            None => Err(OptionsError::NoAnswer),
        }),
{
    let mut index: usize = 0;
    assert(answers@.skip(0) =~= answers@);
    while index < answers.len()
        invariant
            index <= answers.len(),
            first_match(answers@.skip(index as int), want) == first_match(answers@, want),
        decreases answers.len() - index,
    {
        if ip_version_matches(&answers[index], want) {
            return Ok(answers[index]);
        }
        assert(answers@.skip(index as int).skip(1) =~= answers@.skip(index + 1));
        index = index + 1;
    }
    Err(OptionsError::NoAnswer)
}

/// The name to look up for a target that is a hostname.
pub fn lookup_name(target: &str) -> (name: String)
    ensures
        name@ == target@ + ":0"@,
{
    let mut name: String = String::new();
    name.append(target);
    name.append(":0");
    assert(name@ =~= target@ + ":0"@);
    name
}

impl MethodArg {
    /// Set the method up for a target and a packet size.
    pub fn build(self, target: IpAddr, packet_len: usize) -> (method: Result<Icmp, OptionsError>)
        ensures
            match (target, method) {
                (IpAddr::V4(target), Ok(method)) => {
                    &&& packet_len >= Icmp::MIN_PACKET_LEN
                    &&& method.target_addr() == target
                    &&& method.payload() == packet_len - Icmp::MIN_PACKET_LEN
                },
                (IpAddr::V4(_), Err(error)) => {
                    &&& packet_len < Icmp::MIN_PACKET_LEN
                    &&& error == OptionsError::PacketTooSmall(
                        PacketTooSmall { min: Icmp::MIN_PACKET_LEN },
                    )
                },
                (IpAddr::V6(_), Ok(_)) => false,
                (IpAddr::V6(_), Err(error)) => error == OptionsError::Ipv6Unsupported,
            },
    {
        match target {
            IpAddr::V4(target) => match Icmp::try_new(target, packet_len) {
                Ok(method) => Ok(method),
                Err(error) => Err(OptionsError::PacketTooSmall(error)),
            },
            IpAddr::V6(_) => Err(OptionsError::Ipv6Unsupported),
        }
    }
}

/// What a lookup settles on is an answer of the version asked for, no answer in
/// front of it is one, and without such an answer there is none.
pub proof fn law_first_match(answers: Seq<IpAddr>, want: IpVersionArg)
    ensures
        match first_match(answers, want) {
            Some(addr) => exists|i: int|
                {
                    &&& 0 <= i < answers.len()
                    &&& #[trigger] answers[i] == addr
                    &&& version_matches(addr, want)
                    &&& forall|j: int| 0 <= j < i ==> !version_matches(#[trigger] answers[j], want)
                },
            None => forall|j: int|
                0 <= j < answers.len() ==> !version_matches(#[trigger] answers[j], want),
        },
    decreases answers.len(),
{
    if answers.len() > 0 && !version_matches(answers[0], want) {
        let rest = answers.skip(1);
        law_first_match(rest, want);
        assert(forall|j: int| 0 < j < answers.len() ==> #[trigger] answers[j] == rest[j - 1]);
        if let Some(addr) = first_match(rest, want) {
            let i = choose|i: int|
                {
                    &&& 0 <= i < rest.len()
                    &&& #[trigger] rest[i] == addr
                    &&& forall|j: int| 0 <= j < i ==> !version_matches(#[trigger] rest[j], want)
                };
            assert(answers[i + 1] == addr);
        }
    }
}

/// Every address will do where no version is asked for, and otherwise just those
/// of the version.
pub proof fn law_version_matches(addr: IpAddr)
    ensures
        version_matches(addr, IpVersionArg::Auto),
        version_matches(addr, IpVersionArg::V4) <==> addr is V4,
        version_matches(addr, IpVersionArg::V6) <==> addr is V6,
{
}

/// Without a version to look for, a lookup settles on its first answer. Answers
/// behind the one that is settled on do not count, and neither do answers of
/// another version in front of it.
pub proof fn law_first_match_alone(
    front: Seq<IpAddr>,
    addr: IpAddr,
    behind: Seq<IpAddr>,
    want: IpVersionArg,
)
    requires
        want is Auto || (want is V4 && addr is V4) || (want is V6 && addr is V6),
        want is Auto ==> front.len() == 0,
        forall|i: int|
            0 <= i < front.len() ==> (want is V4 && #[trigger] front[i] is V6) || (want is V6
                && front[i] is V4),
    ensures
        first_match(front + seq![addr] + behind, want) == Some(addr),
        first_match(front, want) is None,
    decreases front.len(),
{
    let all = front + seq![addr] + behind;
    if front.len() == 0 {
        assert(all[0] == addr);
    } else {
        assert(all[0] == front[0]);
        let rest = front.skip(1);
        assert(forall|i: int| 0 <= i < rest.len() ==> #[trigger] rest[i] == front[i + 1]);
        assert(all.skip(1) =~= rest + seq![addr] + behind);
        law_first_match_alone(rest, addr, behind, want);
    }
}

} // verus!
