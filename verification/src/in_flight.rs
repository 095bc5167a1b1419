//! The sends in flight, kept in a slab of the `slab` crate.
//!
//! A slab hands out a key for each value put into it. Here a value is the number
//! of the probe that a send carries, and the key is the slot that the send's
//! completion names.

use vstd::prelude::*;

verus! {

/// `slab::Slab`, whose entries only its own methods reach.
#[verifier::external_type_specification]
#[verifier::external_body]
#[verifier::reject_recursive_types(T)]
pub struct ExSlab<T>(slab::Slab<T>);

/// The values in a slab, by key.
pub uninterp spec fn slab_contents(sending: slab::Slab<u16>) -> Map<usize, u16>;

/// The number of slots that a slab has handed out: every key it has ever given
/// is below it. Removing a value vacates its slot and does not take it back.
pub uninterp spec fn slab_span(sending: slab::Slab<u16>) -> nat;

/// `slab::Slab::new` makes a slab that holds nothing and has given no key.
#[verifier::external_body]
pub(crate) fn slab_new() -> (made: slab::Slab<u16>)
    ensures
        slab_contents(made) == (Map::<usize, u16>::empty()),
        slab_span(made) == 0,
{
    slab::Slab::new()
}

/// `slab::Slab::insert` puts a value under a key that was free, and returns the
/// key. The key is that of a vacated slot, or the next slot that was never
/// handed out.
#[verifier::external_body]
pub(crate) fn slab_insert(sending: &mut slab::Slab<u16>, value: u16) -> (key: usize)
    requires
        slab_span(*old(sending)) <= 0xffff,
    ensures
        !slab_contents(*old(sending)).contains_key(key),
        slab_contents(*final(sending)) == slab_contents(*old(sending)).insert(key, value),
        key <= slab_span(*old(sending)),
        slab_span(*final(sending)) == (if key == slab_span(*old(sending)) {
            slab_span(*old(sending)) + 1
        } else {
            slab_span(*old(sending))
        }),
{
    sending.insert(value)
}

/// `slab::Slab::remove` takes out the value under a key, and returns it. It
/// panics where the key holds no value.
#[verifier::external_body]
pub(crate) fn slab_remove(sending: &mut slab::Slab<u16>, key: usize) -> (value: u16)
    requires
        slab_contents(*old(sending)).contains_key(key),
    ensures
        value == slab_contents(*old(sending))[key],
        slab_contents(*final(sending)) == slab_contents(*old(sending)).remove(key),
        slab_span(*final(sending)) == slab_span(*old(sending)),
{
    sending.remove(key)
}

/// `slab::Slab::contains` tells whether a key holds a value.
#[verifier::external_body]
pub(crate) fn slab_contains(sending: &slab::Slab<u16>, key: usize) -> (contains: bool)
    ensures
        contains == slab_contents(*sending).contains_key(key),
{
    sending.contains(key)
}

} // verus!
