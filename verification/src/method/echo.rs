//! The echo request that both versions of ICMP share.

use crate::method::ProbeId;
use crate::net::{high_byte, low_byte, word_sum};
use vstd::prelude::*;

verus! {

/// Length of the header of an echo request.
pub const ECHO_HEADER_LEN: usize = 8;

/// An echo request of the given type with `payload` zero bytes, whose checksum
/// and identifier are left at zero. The sequence number is the probe's
/// identifier.
pub open spec fn echo_request(kind: u8, id: ProbeId, payload: nat) -> Seq<u8> {
    seq![kind, 0, 0, 0, 0, 0, high_byte(id.0 as int), low_byte(id.0 as int)] + Seq::new(
        payload,
        |i: int| 0u8,
    )
}

/// The probe that the sequence number of a quoted echo message stands for. It
/// takes eight bytes to hold one.
pub open spec fn sequence_of(quoted: Seq<u8>) -> Option<ProbeId> {
    if quoted.len() < ECHO_HEADER_LEN {
        None
    } else {
        Some(ProbeId((0x100 * quoted[6] + quoted[7]) as u16))
    }
}

/// The sequence number, which sits at the same offset in an echo reply as in
/// the request a router quotes back.
pub fn sequence(quoted: &[u8]) -> (id: Option<ProbeId>)
    ensures
        id == sequence_of(quoted@),
{
    if quoted.len() < ECHO_HEADER_LEN {
        None
    } else {
        Some(ProbeId(0x100 * quoted[6] as u16 + quoted[7] as u16))
    }
}

/// Build an echo request.
pub fn build_echo_request(kind: u8, id: ProbeId, payload: usize) -> (packet: Vec<u8>)
    requires
        ECHO_HEADER_LEN + payload <= isize::MAX,
    ensures
        packet@ == echo_request(kind, id, payload as nat),
{
    let mut packet: Vec<u8> = vec![0u8; ECHO_HEADER_LEN + payload];
    packet.set(0, kind);
    packet.set(6, (id.0 / 0x100) as u8);
    packet.set(7, (id.0 % 0x100) as u8);
    assert(packet@ =~= echo_request(kind, id, payload as nat));
    packet
}

/// A probe is recovered from any message that has the bytes of its sequence
/// number, whatever else was rewritten or cut off behind the header on the way.
pub proof fn law_sequence_recovers_probe(kind: u8, id: ProbeId, payload: nat, quoted: Seq<u8>)
    requires
        quoted.len() >= ECHO_HEADER_LEN,
        quoted.subrange(6, 8) == echo_request(kind, id, payload).subrange(6, 8),
    ensures
        sequence_of(quoted) == Some(id),
{
    let sent = echo_request(kind, id, payload);
    assert(quoted[6] == quoted.subrange(6, 8)[0] == sent.subrange(6, 8)[0]);
    assert(quoted[7] == quoted.subrange(6, 8)[1] == sent.subrange(6, 8)[1]);
}

/// Zero bytes sum to zero.
proof fn lemma_zeros_sum(zeros: Seq<u8>)
    requires
        forall|i: int| 0 <= i < zeros.len() ==> zeros[i] == 0,
    ensures
        word_sum(zeros) == 0,
    decreases zeros.len(),
{
    if zeros.len() >= 2 {
        lemma_zeros_sum(zeros.skip(2));
    }
}

/// The words of an echo request sum to its type, in the high half of the first
/// word, and the probe's identifier.
pub proof fn lemma_request_sum(kind: u8, id: ProbeId, payload: nat)
    ensures
        word_sum(echo_request(kind, id, payload)) == 0x100 * kind + id.0,
{
    let request = echo_request(kind, id, payload);
    let after_type = request.skip(2);
    let after_checksum = after_type.skip(2);
    let after_identifier = after_checksum.skip(2);
    assert(request[6] == high_byte(id.0 as int) && request[7] == low_byte(id.0 as int));
    assert(forall|i: int| #![auto] 8 <= i < request.len() ==> request[i] == 0);
    lemma_zeros_sum(after_identifier.skip(2));
    assert(word_sum(after_identifier) == id.0);
    assert(word_sum(after_checksum) == id.0);
    assert(word_sum(after_type) == id.0);
}

/// An echo request has its type in front, its sequence number in the seventh and
/// eighth byte, and zeros everywhere else. Reading the sequence number gives the
/// probe back.
pub proof fn law_echo_request(kind: u8, id: ProbeId, payload: nat)
    ensures
        echo_request(kind, id, payload).len() == 8 + payload,
        echo_request(kind, id, payload)[0] == kind,
        0x100 * echo_request(kind, id, payload)[6] + echo_request(kind, id, payload)[7] == id.0,
        forall|i: int|
            1 <= i < 8 + payload && i != 6 && i != 7 ==> #[trigger] echo_request(
                kind,
                id,
                payload,
            )[i] == 0,
        sequence_of(echo_request(kind, id, payload)) == Some(id),
{
}

/// A sequence number is read from the seventh and eighth byte, in network order,
/// of anything that is as long as a header, and of nothing shorter.
pub proof fn law_sequence(quoted: Seq<u8>)
    ensures
        quoted.len() < 8 <==> sequence_of(quoted) is None,
        sequence_of(quoted) matches Some(id) ==> id.0 == 0x100 * quoted[6] + quoted[7],
{
}

} // verus!
