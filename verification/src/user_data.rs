//! The tag that a request carries into its completion.

use vstd::prelude::*;

verus! {

/// Possible states an io_uring event can represent.
#[derive(Debug, Clone, Copy, PartialEq, Eq, Structural)]
pub enum State {
    Write,
    Read,
    Timeout,
}

impl State {
    /// The number that stands for the state.
    pub open spec fn bits(self) -> u64 {
        match self {
            State::Write => 0,
            State::Read => 1,
            State::Timeout => 2,
        }
    }

    /// The number that stands for this state.
    pub fn into_bits(self) -> (bits: u64)
        ensures
            bits == self.bits(),
    {
        match self {
            State::Write => 0,
            State::Read => 1,
            State::Timeout => 2,
        }
    }

    /// The state that a number stands for.
    pub fn from_bits(value: u64) -> (state: Self)
        requires
            value <= 2,
        ensures
            state.bits() == value,
    {
        match value {
            0 => State::Write,
            1 => State::Read,
            _ => State::Timeout,
        }
    }
}

/// The tag of a request: a slot in the low 16 bits, and a state in the 48 bits
/// above them.
#[derive(Debug, Clone, Copy, PartialEq, Eq, Structural)]
pub struct UserData {
    bits: u64,
}

impl UserData {
    /// The tag as one number.
    pub closed spec fn raw(self) -> u64 {
        self.bits
    }

    /// The slab key of a write, or the index of a reader.
    pub open spec fn slot_of(self) -> u16 {
        (self.raw() % 0x1_0000) as u16
    }

    /// The number in the state's place.
    pub open spec fn state_bits(self) -> u64 {
        self.raw() / 0x1_0000
    }

    /// Whether there is a state with that number.
    pub open spec fn has_state(self) -> bool {
        self.state_bits() <= 2
    }

    /// The state, where there is one.
    pub open spec fn state_of(self) -> State {
        if self.state_bits() == 0 {
            State::Write
        } else if self.state_bits() == 1 {
            State::Read
        } else {
            State::Timeout
        }
    }

    /// The tag of slot zero and the first state.
    pub fn new() -> (tag: Self)
        ensures
            tag.raw() == 0,
    {
        UserData { bits: 0 }
    }

    /// The tag that a number is.
    pub fn from_bits(bits: u64) -> (tag: Self)
        ensures
            tag.raw() == bits,
    {
        UserData { bits }
    }

    /// The tag as one number.
    pub fn into_bits(self) -> (bits: u64)
        ensures
            bits == self.raw(),
    {
        self.bits
    }

    /// The tag with another slot.
    pub fn with_slot(self, slot: u16) -> (tag: Self)
        ensures
            tag.slot_of() == slot,
            tag.state_bits() == self.state_bits(),
    {
        let old: u64 = self.bits;
        let bits: u64 = (old & !0xffffu64) | slot as u64;
        assert(bits % 0x1_0000 == slot && bits / 0x1_0000 == old / 0x1_0000) by (bit_vector)
            requires
                bits == (old & !0xffffu64) | slot as u64,
        ;
        UserData { bits }
    }

    /// The tag with another state.
    pub fn with_state(self, state: State) -> (tag: Self)
        ensures
            tag.state_bits() == state.bits(),
            tag.state_of() == state,
            tag.slot_of() == self.slot_of(),
    {
        let old: u64 = self.bits;
        let value: u64 = state.into_bits();
        let bits: u64 = (old & 0xffff) | (value << 16);
        assert(bits % 0x1_0000 == old % 0x1_0000 && bits / 0x1_0000 == value) by (bit_vector)
            requires
                bits == (old & 0xffff) | (value << 16),
                value <= 2,
        ;
        UserData { bits }
    }

    /// The slab key of a write, or the index of a reader.
    pub fn slot(self) -> (slot: u16)
        ensures
            slot == self.slot_of(),
    {
        (self.bits % 0x1_0000) as u16
    }

    /// Whether the tag holds a state, as every tag that was built from one does.
    pub fn holds_state(self) -> (holds: bool)
        ensures
            holds == self.has_state(),
    {
        self.bits / 0x1_0000 <= 2
    }

    /// The state.
    pub fn state(self) -> (state: State)
        requires
            self.has_state(),
        ensures
            state == self.state_of(),
            state.bits() == self.state_bits(),
    {
        State::from_bits(self.bits / 0x1_0000)
    }
}

/// A tag is its slot and its state: two tags that agree on both are the same
/// number, so what a completion hands back names one request.
pub proof fn law_tag_is_slot_and_state(a: UserData, b: UserData)
    requires
        a.slot_of() == b.slot_of(),
        a.state_bits() == b.state_bits(),
    ensures
        a.raw() == b.raw(),
{
    assert(a.raw() % 0x1_0000 == b.raw() % 0x1_0000);
}

/// Different states have different numbers, and a state is what its number
/// stands for.
pub proof fn law_state_bits(a: State, b: State)
    ensures
        a.bits() <= 2,
        a.bits() == b.bits() ==> a == b,
{
}

/// The layout of a tag: the slot in the low 16 bits, and the number of the state
/// above them, which is zero for a write, one for a read, and two for the
/// timeout. No state has a larger number.
pub proof fn law_tag_layout(tag: UserData, state: State)
    ensures
        tag.raw() == tag.slot_of() + 0x1_0000 * tag.state_bits(),
        tag.has_state() <==> tag.raw() < 0x3_0000,
        tag.raw() < 0x1_0000 <==> tag.state_of() is Write,
        0x1_0000 <= tag.raw() < 0x2_0000 <==> tag.state_of() is Read,
        0x2_0000 <= tag.raw() <==> tag.state_of() is Timeout,
        state is Write <==> state.bits() == 0,
        state is Read <==> state.bits() == 1,
        state is Timeout <==> state.bits() == 2,
{
}

} // verus!
