//! What a completed read left in its buffer.

use crate::bytes::{law_number_len, law_number_stored, stored_number, u32_at};
use vstd::endian::{endianness, Endian};
use vstd::prelude::*;

verus! {

/// Length of the header that the kernel puts in front of a message, which is
/// four 32-bit numbers.
pub const RECVMSG_HEADER_LEN: usize = 16;

/// Flag of a message whose control data did not fit.
pub const MSG_CTRUNC: u32 = 8;

/// The parts of a message that a multishot `recvmsg` received.
#[derive(Debug)]
pub struct Received {
    /// The address the message came from.
    pub name: Vec<u8>,
    /// The control messages that came with it.
    pub control: Vec<u8>,
    /// Whether control messages are missing for want of room.
    pub control_truncated: bool,
    pub payload: Vec<u8>,
}

/// The contents of a [`Received`].
pub struct ReceivedView {
    pub name: Seq<u8>,
    pub control: Seq<u8>,
    pub control_truncated: bool,
    pub payload: Seq<u8>,
}

impl View for Received {
    type V = ReceivedView;

    open spec fn view(&self) -> ReceivedView {
        ReceivedView {
            name: self.name@,
            control: self.control@,
            control_truncated: self.control_truncated,
            payload: self.payload@,
        }
    }
}

/// The smaller of two lengths.
pub open spec fn shorter(a: int, b: int) -> int {
    if a <= b {
        a
    } else {
        b
    }
}

/// A 32-bit number of the header, as a machine integer.
pub open spec fn header_word(order: Endian, buffer: Seq<u8>, at: int) -> u32 {
    u32_at(order, buffer, at) as u32
}

/// The parts of the message in a buffer that has room for `name_room` bytes of
/// name and `control_room` bytes of control data between the header and the
/// payload. The header gives the length of each part and the flags. A part ends
/// where its room ends even if the header says that it was longer.
pub open spec fn recvmsg_out(
    order: Endian,
    buffer: Seq<u8>,
    name_room: int,
    control_room: int,
) -> Option<ReceivedView> {
    let control_at = RECVMSG_HEADER_LEN + name_room;
    let payload_at = control_at + control_room;
    if buffer.len() < payload_at {
        None
    } else {
        let name_len = shorter(u32_at(order, buffer, 0), name_room);
        let control_len = shorter(u32_at(order, buffer, 4), control_room);
        let payload_len = shorter(u32_at(order, buffer, 8), buffer.len() - payload_at);
        Some(
            ReceivedView {
                name: buffer.subrange(
                    RECVMSG_HEADER_LEN as int,
                    RECVMSG_HEADER_LEN + name_len,
                ),
                control: buffer.subrange(control_at, control_at + control_len),
                control_truncated: header_word(order, buffer, 12) & MSG_CTRUNC != 0,
                payload: buffer.subrange(payload_at, payload_at + payload_len),
            },
        )
    }
}

/// `io_uring::types::RecvMsgOut::parse` and the methods that read what it
/// found: the message in a buffer, which is laid out as [`recvmsg_out`] says,
/// in the byte order of the machine. Of the `msghdr`, the parser looks at the
/// two lengths alone.
#[verifier::external_body]
pub(crate) fn parse_recvmsg(buffer: &[u8], name_room: u32, control_room: usize) -> (message: Option<
    Received,
>)
    ensures
        match message {
            Some(message) => recvmsg_out(
                endianness(),
                buffer@,
                name_room as int,
                control_room as int,
            ) == Some(message@),
            None => recvmsg_out(
                endianness(),
                buffer@,
                name_room as int,
                control_room as int,
            ) is None,
        },
{
    let null = core::ptr::null_mut();
    let header = libc::msghdr {
        msg_name: null, msg_namelen: name_room, msg_iov: core::ptr::null_mut(), msg_iovlen: 0,
        msg_control: null, msg_controllen: control_room, msg_flags: 0,
    };
    match io_uring::types::RecvMsgOut::parse(buffer, &header) {
        Ok(message) => Some(Received {
            name: message.name_data().to_vec(),
            control: message.control_data().to_vec(),
            control_truncated: message.is_control_data_truncated(),
            payload: message.payload_data().to_vec(),
        }),
        Err(()) => None,
    }
}

/// Whether completion flags say that the request posts more completions.
pub open spec fn has_more(flags: u32) -> bool {
    flags & 2 != 0
}

/// `io_uring::cqueue::more` tests the second flag of a completion.
#[verifier::external_body]
pub(crate) fn more(flags: u32) -> (more: bool)
    ensures
        more == has_more(flags),
{
    io_uring::cqueue::more(flags)
}

/// The buffer that completion flags say was filled: the first flag tells that
/// there is one, and the upper 16 bits which.
pub open spec fn selected_buffer(flags: u32) -> Option<u16> {
    if flags & 1 != 0 {
        Some((flags >> 16) as u16)
    } else {
        None
    }
}

/// `io_uring::cqueue::buffer_select` reads the buffer off the flags of a
/// completion.
#[verifier::external_body]
pub(crate) fn buffer_select(flags: u32) -> (buffer: Option<u16>)
    ensures
        buffer == selected_buffer(flags),
{
    io_uring::cqueue::buffer_select(flags)
}

/// A message is read back from a buffer as the kernel lays it out: four numbers,
/// which are the lengths of the name, of the control data and of the payload, and
/// the flags, and then the room for the name, the room for the control data and
/// the payload. Each part starts where its room starts, and has the length that
/// the header gives or, where that is more, all of its room. The fourth flag
/// tells that control data is missing.
pub proof fn law_message_laid_out(
    order: Endian,
    name_len: u32,
    control_len: u32,
    payload_len: u32,
    flags: u32,
    name: Seq<u8>,
    control: Seq<u8>,
    payload: Seq<u8>,
)
    ensures
        ({
            let buffer = stored_number(order, name_len) + stored_number(order, control_len)
                + stored_number(order, payload_len) + stored_number(order, flags) + name + control
                + payload;
            let message = recvmsg_out(order, buffer, name.len() as int, control.len() as int);
            &&& message is Some
            &&& name_len >= name.len() ==> message->0.name == name
            &&& name_len < name.len() ==> message->0.name == name.take(name_len as int)
            &&& control_len >= control.len() ==> message->0.control == control
            &&& control_len < control.len() ==> message->0.control == control.take(
                control_len as int,
            )
            &&& payload_len >= payload.len() ==> message->0.payload == payload
            &&& payload_len < payload.len() ==> message->0.payload == payload.take(
                payload_len as int,
            )
            &&& message->0.control_truncated <==> flags & 8 != 0
        }),
{
    let header = stored_number(order, name_len) + stored_number(order, control_len)
        + stored_number(order, payload_len) + stored_number(order, flags);
    let buffer = header + name + control + payload;
    assert(buffer =~= header + (name + control + payload));
    lemma_header_written(
        order,
        name_len,
        control_len,
        payload_len,
        flags,
        name + control + payload,
    );
    lemma_parts_laid_out(order, header, name, control, payload);
    assert(name.take(name.len() as int) =~= name);
    assert(control.take(control.len() as int) =~= control);
    assert(payload.take(payload.len() as int) =~= payload);
}

/// What a header says once it is written.
proof fn lemma_header_written(
    order: Endian,
    first: u32,
    second: u32,
    third: u32,
    fourth: u32,
    behind: Seq<u8>,
)
    ensures
        ({
            let header = stored_number(order, first) + stored_number(order, second)
                + stored_number(order, third) + stored_number(order, fourth);
            &&& header.len() == RECVMSG_HEADER_LEN
            &&& u32_at(order, header + behind, 0) == first
            &&& u32_at(order, header + behind, 4) == second
            &&& u32_at(order, header + behind, 8) == third
            &&& u32_at(order, header + behind, 12) == fourth
        }),
{
    law_number_len(order, first);
    law_number_len(order, second);
    law_number_len(order, third);
    law_number_len(order, fourth);
    let header = stored_number(order, first) + stored_number(order, second) + stored_number(
        order,
        third,
    ) + stored_number(order, fourth);
    let all = header + behind;
    assert(all.subrange(0, 4) =~= stored_number(order, first));
    law_number_stored(order, all, 0, first);
    assert(all.subrange(4, 8) =~= stored_number(order, second));
    law_number_stored(order, all, 4, second);
    assert(all.subrange(8, 12) =~= stored_number(order, third));
    law_number_stored(order, all, 8, third);
    assert(all.subrange(12, 16) =~= stored_number(order, fourth));
    law_number_stored(order, all, 12, fourth);
}

/// Where the parts of a message lie behind its header.
proof fn lemma_parts_laid_out(
    order: Endian,
    header: Seq<u8>,
    name: Seq<u8>,
    control: Seq<u8>,
    payload: Seq<u8>,
)
    requires
        header.len() == RECVMSG_HEADER_LEN,
        u32_at(order, header + name + control + payload, 0) >= 0,
        u32_at(order, header + name + control + payload, 4) >= 0,
        u32_at(order, header + name + control + payload, 8) >= 0,
    ensures
        ({
            let buffer = header + name + control + payload;
            let message = recvmsg_out(order, buffer, name.len() as int, control.len() as int);
            &&& message is Some
            &&& message->0.name == name.take(
                shorter(u32_at(order, buffer, 0), name.len() as int),
            )
            &&& message->0.control == control.take(
                shorter(u32_at(order, buffer, 4), control.len() as int),
            )
            &&& message->0.payload == payload.take(
                shorter(u32_at(order, buffer, 8), payload.len() as int),
            )
        }),
{
    let buffer = header + name + control + payload;
    let message = recvmsg_out(order, buffer, name.len() as int, control.len() as int)->0;
    assert(message.name =~= name.take(shorter(u32_at(order, buffer, 0), name.len() as int)));
    assert(message.control =~= control.take(
        shorter(u32_at(order, buffer, 4), control.len() as int),
    ));
    assert(message.payload =~= payload.take(
        shorter(u32_at(order, buffer, 8), payload.len() as int),
    ));
}

/// A buffer without room for the header, the name and the control data holds no
/// message.
pub proof fn law_message_needs_room(
    order: Endian,
    buffer: Seq<u8>,
    name_room: int,
    control_room: int,
)
    ensures
        buffer.len() < 16 + name_room + control_room <==> recvmsg_out(
            order,
            buffer,
            name_room,
            control_room,
        ) is None,
{
}

/// The flags of a completion: the lowest tells that a buffer was filled, whose
/// number stands in the upper half, and the next that more completions follow.
pub proof fn law_completion_flags(flags: u32)
    ensures
        has_more(flags) <==> flags / 2 % 2 == 1,
        selected_buffer(flags) is Some <==> flags % 2 == 1,
        selected_buffer(flags) matches Some(buffer) ==> buffer == flags / 0x1_0000,
{
    assert(flags & 2 != 0 <==> flags / 2 % 2 == 1) by (bit_vector);
    assert(flags & 1 != 0 <==> flags % 2 == 1) by (bit_vector);
    assert(flags >> 16 == flags / 0x1_0000) by (bit_vector);
}

} // verus!
