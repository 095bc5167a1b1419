//! Integers stored in byte buffers, in the byte order of the machine or in
//! network order.

use vstd::arithmetic::div_mod::{lemma_div_denominator, lemma_fundamental_div_mod_converse};
use vstd::endian::{endianness, Endian};
use vstd::prelude::*;

verus! {

/// The order in which the bytes of an integer are stored.
#[derive(Debug, Clone, Copy, PartialEq, Eq, Structural)]
pub enum ByteOrder {
    /// Least significant byte first.
    Little,
    /// Most significant byte first.
    Big,
}

impl View for ByteOrder {
    type V = Endian;

    open spec fn view(&self) -> Endian {
        match self {
            ByteOrder::Little => Endian::Little,
            ByteOrder::Big => Endian::Big,
        }
    }
}

/// The two-digit number in base `base` whose digits are stored as `first` and
/// then `second`.
pub open spec fn join(order: Endian, base: int, first: int, second: int) -> int {
    match order {
        Endian::Little => first + base * second,
        Endian::Big => base * first + second,
    }
}

/// The 16-bit number stored in `bytes` at `at`.
pub open spec fn u16_at(order: Endian, bytes: Seq<u8>, at: int) -> int {
    join(order, 0x100, bytes[at] as int, bytes[at + 1] as int)
}

/// The 32-bit number stored in `bytes` at `at`.
pub open spec fn u32_at(order: Endian, bytes: Seq<u8>, at: int) -> int {
    join(order, 0x1_0000, u16_at(order, bytes, at), u16_at(order, bytes, at + 2))
}

/// The 64-bit number stored in `bytes` at `at`.
pub open spec fn u64_at(order: Endian, bytes: Seq<u8>, at: int) -> int {
    join(order, 0x1_0000_0000, u32_at(order, bytes, at), u32_at(order, bytes, at + 4))
}

/// The signed 32-bit number stored in `bytes` at `at`, in two's complement.
pub open spec fn i32_at(order: Endian, bytes: Seq<u8>, at: int) -> int {
    let n = u32_at(order, bytes, at);
    if n < 0x8000_0000 {
        n
    } else {
        n - 0x1_0000_0000
    }
}

/// The number of bytes in a machine word.
pub open spec fn word_len() -> int {
    usize::BITS as int / 8
}

/// The machine word stored in `bytes` at `at`.
pub open spec fn usize_at(order: Endian, bytes: Seq<u8>, at: int) -> int {
    if word_len() == 8 {
        u64_at(order, bytes, at)
    } else {
        u32_at(order, bytes, at)
    }
}

/// `u16::from_ne_bytes`: the number whose bytes in memory are `first` and then
/// `second`, which depends on the machine's byte order and on nothing else.
#[verifier::external_body]
fn u16_from_ne_bytes(first: u8, second: u8) -> (n: u16)
    ensures
        n == join(endianness(), 0x100, first as int, second as int),
{
    u16::from_ne_bytes([first, second])
}

/// The byte order of this machine.
pub fn native_order() -> (order: ByteOrder)
    ensures
        order@ == endianness(),
{
    if u16_from_ne_bytes(1, 0) == 1 {
        ByteOrder::Little
    } else {
        ByteOrder::Big
    }
}

/// The number of bytes in a machine word, four or eight.
pub fn native_word_len() -> (len: usize)
    ensures
        len == word_len(),
        len == 4 || len == 8,
{
    (usize::BITS / 8) as usize
}

/// Read a 16-bit number.
pub fn read_u16(order: ByteOrder, bytes: &[u8], at: usize) -> (n: u16)
    requires
        at + 2 <= bytes.len(),
    ensures
        n == u16_at(order@, bytes@, at as int),
{
    match order {
        ByteOrder::Little => bytes[at] as u16 + 0x100 * bytes[at + 1] as u16,
        ByteOrder::Big => 0x100 * bytes[at] as u16 + bytes[at + 1] as u16,
    }
}

/// Read a 32-bit number.
pub fn read_u32(order: ByteOrder, bytes: &[u8], at: usize) -> (n: u32)
    requires
        at + 4 <= bytes.len(),
    ensures
        n == u32_at(order@, bytes@, at as int),
{
    let first: u32 = read_u16(order, bytes, at) as u32;
    let second: u32 = read_u16(order, bytes, at + 2) as u32;
    match order {
        ByteOrder::Little => first + 0x1_0000 * second,
        ByteOrder::Big => 0x1_0000 * first + second,
    }
}

/// Read a 64-bit number.
pub fn read_u64(order: ByteOrder, bytes: &[u8], at: usize) -> (n: u64)
    requires
        at + 8 <= bytes.len(),
    ensures
        n == u64_at(order@, bytes@, at as int),
{
    let first: u64 = read_u32(order, bytes, at) as u64;
    let second: u64 = read_u32(order, bytes, at + 4) as u64;
    match order {
        ByteOrder::Little => first + 0x1_0000_0000 * second,
        ByteOrder::Big => 0x1_0000_0000 * first + second,
    }
}

/// Read a signed 32-bit number.
pub fn read_i32(order: ByteOrder, bytes: &[u8], at: usize) -> (n: i32)
    requires
        at + 4 <= bytes.len(),
    ensures
        n == i32_at(order@, bytes@, at as int),
{
    let n: i64 = read_u32(order, bytes, at) as i64;
    if n < 0x8000_0000 {
        n as i32
    } else {
        (n - 0x1_0000_0000) as i32
    }
}

/// Read a machine word.
pub fn read_usize(order: ByteOrder, bytes: &[u8], at: usize) -> (n: usize)
    requires
        at + word_len() <= bytes.len(),
    ensures
        n == usize_at(order@, bytes@, at as int),
{
    if native_word_len() == 8 {
        read_u64(order, bytes, at) as usize
    } else {
        read_u32(order, bytes, at) as usize
    }
}

/// The two bytes in which a machine of the given byte order stores a number.
#[verifier::opaque]
pub open spec fn stored_u16(order: Endian, n: int) -> Seq<u8> {
    let little = seq![(n % 0x100) as u8, (n / 0x100 % 0x100) as u8];
    match order {
        Endian::Little => little,
        Endian::Big => little.reverse(),
    }
}

/// The four bytes in which a machine of the given byte order stores a number.
#[verifier::opaque]
pub open spec fn stored_u32(order: Endian, n: int) -> Seq<u8> {
    let little = seq![
        (n % 0x100) as u8,
        (n / 0x100 % 0x100) as u8,
        (n / 0x1_0000 % 0x100) as u8,
        (n / 0x100_0000 % 0x100) as u8,
    ];
    match order {
        Endian::Little => little,
        Endian::Big => little.reverse(),
    }
}

/// The four bytes in which a machine of the given byte order stores a machine
/// integer.
pub open spec fn stored_number(order: Endian, n: u32) -> Seq<u8> {
    stored_u32(order, n as int)
}

/// The eight bytes in which a machine of the given byte order stores a number.
#[verifier::opaque]
pub open spec fn stored_u64(order: Endian, n: int) -> Seq<u8> {
    let little = seq![
        (n % 0x100) as u8,
        (n / 0x100 % 0x100) as u8,
        (n / 0x1_0000 % 0x100) as u8,
        (n / 0x100_0000 % 0x100) as u8,
        (n / 0x1_0000_0000 % 0x100) as u8,
        (n / 0x100_0000_0000 % 0x100) as u8,
        (n / 0x1_0000_0000_0000 % 0x100) as u8,
        (n / 0x100_0000_0000_0000 % 0x100) as u8,
    ];
    match order {
        Endian::Little => little,
        Endian::Big => little.reverse(),
    }
}

/// The bytes in which a machine of the given byte order stores a machine word.
pub open spec fn stored_usize(order: Endian, n: int) -> Seq<u8> {
    if usize::BITS == 64 {
        stored_u64(order, n)
    } else {
        stored_u32(order, n)
    }
}

/// The bytes in which a machine of the given byte order stores a signed number,
/// in two's complement.
pub open spec fn stored_i32(order: Endian, n: int) -> Seq<u8> {
    stored_u32(
        order,
        if n < 0 {
            n + 0x1_0000_0000
        } else {
            n
        },
    )
}

/// A number is stored in as many bytes as it has digits in base 256.
pub proof fn law_stored_len(order: Endian, n: int)
    ensures
        stored_u16(order, n).len() == 2,
        stored_u32(order, n).len() == 4,
        stored_u64(order, n).len() == 8,
        stored_i32(order, n).len() == 4,
        stored_usize(order, n).len() == usize::BITS / 8,
{
    reveal(stored_u16);
    reveal(stored_u32);
    reveal(stored_u64);
}

/// A machine integer is stored in four bytes.
pub proof fn law_number_len(order: Endian, n: u32)
    ensures
        stored_number(order, n).len() == 4,
{
    law_stored_len(order, n as int);
}

/// A machine word has four bytes or eight, one for each eight of its bits.
pub proof fn law_word_len()
    ensures
        8 * word_len() == usize::BITS,
        word_len() == 4 || word_len() == 8,
{
}

/// Reading a 16-bit number undoes storing it, wherever it lies and whatever lies
/// around it, and storing what was read gives the bytes back.
pub proof fn law_u16_stored(order: Endian, bytes: Seq<u8>, at: int, n: int)
    requires
        0 <= at,
        at + 2 <= bytes.len(),
    ensures
        0 <= u16_at(order, bytes, at) <= 0xffff,
        stored_u16(order, u16_at(order, bytes, at)) == bytes.subrange(at, at + 2),
        0 <= n <= 0xffff && bytes.subrange(at, at + 2) == stored_u16(order, n) ==> u16_at(
            order,
            bytes,
            at,
        ) == n,
{
    reveal(stored_u16);
    let part = bytes.subrange(at, at + 2);
    assert(part[0] == bytes[at] && part[1] == bytes[at + 1]);
    let read = u16_at(order, bytes, at);
    let written = stored_u16(order, read);
    assert(written[0] == part[0] && written[1] == part[1]);
    assert(written =~= part);
    let other = stored_u16(order, n);
    if part == other {
        assert(part[0] == other[0] && part[1] == other[1]);
    }
}

/// The digits of a number of four digits in base 256.
proof fn lemma_four_digits(n: int, a: int, b: int, c: int, d: int)
    requires
        n == a + 0x100 * b + 0x1_0000 * c + 0x100_0000 * d,
        0 <= a < 0x100,
        0 <= b < 0x100,
        0 <= c < 0x100,
        0 <= d < 0x100,
    ensures
        n % 0x100 == a,
        n / 0x100 % 0x100 == b,
        n / 0x1_0000 % 0x100 == c,
        n / 0x100_0000 % 0x100 == d,
{
    assert(n / 0x100 == b + 0x100 * c + 0x1_0000 * d);
    assert(n / 0x1_0000 == c + 0x100 * d);
    assert(n / 0x100_0000 == d);
}

/// A number of four digits in base 256 is the sum that its digits stand for.
proof fn lemma_four_digits_sum(n: int)
    requires
        0 <= n < 0x1_0000_0000,
    ensures
        n == n % 0x100 + 0x100 * (n / 0x100 % 0x100) + 0x1_0000 * (n / 0x1_0000 % 0x100)
            + 0x100_0000 * (n / 0x100_0000 % 0x100),
{
    assert(n / 0x100 == 0x100 * (n / 0x1_0000) + n / 0x100 % 0x100);
    assert(n / 0x1_0000 == 0x100 * (n / 0x100_0000) + n / 0x1_0000 % 0x100);
}

/// The digits of a number of eight digits in base 256.
proof fn lemma_eight_digits(n: int, a: int, b: int, c: int, d: int, e: int, f: int, g: int, h: int)
    requires
        n == a + 0x100 * b + 0x1_0000 * c + 0x100_0000 * d + 0x1_0000_0000 * e
            + 0x100_0000_0000 * f + 0x1_0000_0000_0000 * g + 0x100_0000_0000_0000 * h,
        0 <= a < 0x100,
        0 <= b < 0x100,
        0 <= c < 0x100,
        0 <= d < 0x100,
        0 <= e < 0x100,
        0 <= f < 0x100,
        0 <= g < 0x100,
        0 <= h < 0x100,
    ensures
        n % 0x100 == a,
        n / 0x100 % 0x100 == b,
        n / 0x1_0000 % 0x100 == c,
        n / 0x100_0000 % 0x100 == d,
        n / 0x1_0000_0000 % 0x100 == e,
        n / 0x100_0000_0000 % 0x100 == f,
        n / 0x1_0000_0000_0000 % 0x100 == g,
        n / 0x100_0000_0000_0000 % 0x100 == h,
{
    let q1 = b + 0x100 * c + 0x1_0000 * d + 0x100_0000 * e + 0x1_0000_0000 * f
        + 0x100_0000_0000 * g + 0x1_0000_0000_0000 * h;
    let q2 = c + 0x100 * d + 0x1_0000 * e + 0x100_0000 * f + 0x1_0000_0000 * g
        + 0x100_0000_0000 * h;
    let q3 = d + 0x100 * e + 0x1_0000 * f + 0x100_0000 * g + 0x1_0000_0000 * h;
    let q4 = e + 0x100 * f + 0x1_0000 * g + 0x100_0000 * h;
    let q5 = f + 0x100 * g + 0x1_0000 * h;
    let q6 = g + 0x100 * h;
    let q7 = h;
    lemma_fundamental_div_mod_converse(n, 0x100, q1, a);
    lemma_fundamental_div_mod_converse(q1, 0x100, q2, b);
    lemma_fundamental_div_mod_converse(q2, 0x100, q3, c);
    lemma_fundamental_div_mod_converse(q3, 0x100, q4, d);
    lemma_fundamental_div_mod_converse(q4, 0x100, q5, e);
    lemma_fundamental_div_mod_converse(q5, 0x100, q6, f);
    lemma_fundamental_div_mod_converse(q6, 0x100, q7, g);
    lemma_fundamental_div_mod_converse(h, 0x100, 0, h);
    lemma_div_denominator(n, 0x100, 0x100);
    lemma_div_denominator(n, 0x1_0000, 0x100);
    lemma_div_denominator(n, 0x100_0000, 0x100);
    lemma_div_denominator(n, 0x1_0000_0000, 0x100);
    lemma_div_denominator(n, 0x100_0000_0000, 0x100);
    lemma_div_denominator(n, 0x1_0000_0000_0000, 0x100);
}

/// A number that is divided by the base step by step is the sum that the
/// remainders stand for.
proof fn lemma_eight_steps(
    n: int,
    q1: int, q2: int, q3: int, q4: int, q5: int, q6: int, q7: int,
    a: int, b: int, c: int, d: int, e: int, f: int, g: int, h: int,
)
    requires
        n == 0x100 * q1 + a,
        q1 == 0x100 * q2 + b,
        q2 == 0x100 * q3 + c,
        q3 == 0x100 * q4 + d,
        q4 == 0x100 * q5 + e,
        q5 == 0x100 * q6 + f,
        q6 == 0x100 * q7 + g,
        q7 == h,
    ensures
        n == a + 0x100 * b + 0x1_0000 * c + 0x100_0000 * d + 0x1_0000_0000 * e
            + 0x100_0000_0000 * f + 0x1_0000_0000_0000 * g + 0x100_0000_0000_0000 * h,
{
}

/// A number of eight digits in base 256 is the sum that its digits stand for.
proof fn lemma_eight_digits_sum(n: int)
    requires
        0 <= n < 0x1_0000_0000_0000_0000,
    ensures
        n == n % 0x100 + 0x100 * (n / 0x100 % 0x100) + 0x1_0000 * (n / 0x1_0000 % 0x100)
            + 0x100_0000 * (n / 0x100_0000 % 0x100) + 0x1_0000_0000 * (n / 0x1_0000_0000 % 0x100)
            + 0x100_0000_0000 * (n / 0x100_0000_0000 % 0x100)
            + 0x1_0000_0000_0000 * (n / 0x1_0000_0000_0000 % 0x100)
            + 0x100_0000_0000_0000 * (n / 0x100_0000_0000_0000 % 0x100),
{
    lemma_div_denominator(n, 0x100, 0x100);
    lemma_div_denominator(n, 0x1_0000, 0x100);
    lemma_div_denominator(n, 0x100_0000, 0x100);
    lemma_div_denominator(n, 0x1_0000_0000, 0x100);
    lemma_div_denominator(n, 0x100_0000_0000, 0x100);
    lemma_div_denominator(n, 0x1_0000_0000_0000, 0x100);
    lemma_eight_steps(
        n,
        n / 0x100,
        n / 0x1_0000,
        n / 0x100_0000,
        n / 0x1_0000_0000,
        n / 0x100_0000_0000,
        n / 0x1_0000_0000_0000,
        n / 0x100_0000_0000_0000,
        n % 0x100,
        n / 0x100 % 0x100,
        n / 0x1_0000 % 0x100,
        n / 0x100_0000 % 0x100,
        n / 0x1_0000_0000 % 0x100,
        n / 0x100_0000_0000 % 0x100,
        n / 0x1_0000_0000_0000 % 0x100,
        n / 0x100_0000_0000_0000 % 0x100,
    );
}

/// Reading a 32-bit number undoes storing it, wherever it lies and whatever lies
/// around it, and storing what was read gives the bytes back.
pub proof fn law_u32_stored(order: Endian, bytes: Seq<u8>, at: int, n: int)
    requires
        0 <= at,
        at + 4 <= bytes.len(),
    ensures
        0 <= u32_at(order, bytes, at) <= 0xffff_ffff,
        stored_u32(order, u32_at(order, bytes, at)) == bytes.subrange(at, at + 4),
        0 <= n <= 0xffff_ffff && bytes.subrange(at, at + 4) == stored_u32(order, n)
            ==> u32_at(order, bytes, at) == n,
{
    reveal(stored_u32);
    let part = bytes.subrange(at, at + 4);
    assert(part[0] == bytes[at]);
    assert(part[1] == bytes[at + 1]);
    assert(part[2] == bytes[at + 2]);
    assert(part[3] == bytes[at + 3]);
    let read = u32_at(order, bytes, at);
    match order {
        Endian::Little => lemma_four_digits(
            read,
            part[0] as int,
            part[1] as int,
            part[2] as int,
            part[3] as int,
        ),
        Endian::Big => lemma_four_digits(
            read,
            part[3] as int,
            part[2] as int,
            part[1] as int,
            part[0] as int,
        ),
    }
    assert(stored_u32(order, read) =~= part);
    let other = stored_u32(order, n);
    if 0 <= n <= 0xffff_ffff && part == other {
        assert(part[0] == other[0]);
        assert(part[1] == other[1]);
        assert(part[2] == other[2]);
        assert(part[3] == other[3]);
        lemma_four_digits_sum(n);
    }
}

/// Reading a machine integer undoes storing it, wherever it lies.
pub proof fn law_number_stored(order: Endian, bytes: Seq<u8>, at: int, n: u32)
    requires
        0 <= at,
        at + 4 <= bytes.len(),
        bytes.subrange(at, at + 4) == stored_number(order, n),
    ensures
        u32_at(order, bytes, at) == n,
{
    law_u32_stored(order, bytes, at, n as int);
}

/// Reading a 64-bit number undoes storing it, wherever it lies and whatever lies
/// around it, and storing what was read gives the bytes back.
pub proof fn law_u64_stored(order: Endian, bytes: Seq<u8>, at: int, n: int)
    requires
        0 <= at,
        at + 8 <= bytes.len(),
    ensures
        0 <= u64_at(order, bytes, at) <= 0xffff_ffff_ffff_ffff,
        stored_u64(order, u64_at(order, bytes, at)) == bytes.subrange(at, at + 8),
        0 <= n <= 0xffff_ffff_ffff_ffff && bytes.subrange(at, at + 8) == stored_u64(order, n)
            ==> u64_at(order, bytes, at) == n,
{
    reveal(stored_u64);
    let part = bytes.subrange(at, at + 8);
    assert(part[0] == bytes[at]);
    assert(part[1] == bytes[at + 1]);
    assert(part[2] == bytes[at + 2]);
    assert(part[3] == bytes[at + 3]);
    assert(part[4] == bytes[at + 4]);
    assert(part[5] == bytes[at + 5]);
    assert(part[6] == bytes[at + 6]);
    assert(part[7] == bytes[at + 7]);
    let read = u64_at(order, bytes, at);
    match order {
        Endian::Little => lemma_eight_digits(
            read,
            part[0] as int,
            part[1] as int,
            part[2] as int,
            part[3] as int,
            part[4] as int,
            part[5] as int,
            part[6] as int,
            part[7] as int,
        ),
        Endian::Big => lemma_eight_digits(
            read,
            part[7] as int,
            part[6] as int,
            part[5] as int,
            part[4] as int,
            part[3] as int,
            part[2] as int,
            part[1] as int,
            part[0] as int,
        ),
    }
    assert(stored_u64(order, read) =~= part);
    let other = stored_u64(order, n);
    if 0 <= n <= 0xffff_ffff_ffff_ffff && part == other {
        assert(part[0] == other[0]);
        assert(part[1] == other[1]);
        assert(part[2] == other[2]);
        assert(part[3] == other[3]);
        assert(part[4] == other[4]);
        assert(part[5] == other[5]);
        assert(part[6] == other[6]);
        assert(part[7] == other[7]);
        lemma_eight_digits_sum(n);
    }
}

/// Reading a signed number undoes storing it in two's complement, wherever it
/// lies, and storing what was read gives the bytes back.
pub proof fn law_i32_stored(order: Endian, bytes: Seq<u8>, at: int, n: int)
    requires
        0 <= at,
        at + 4 <= bytes.len(),
    ensures
        i32::MIN <= i32_at(order, bytes, at) <= i32::MAX,
        stored_i32(order, i32_at(order, bytes, at)) == bytes.subrange(at, at + 4),
        i32::MIN <= n <= i32::MAX && bytes.subrange(at, at + 4) == stored_i32(order, n) ==> i32_at(
            order,
            bytes,
            at,
        ) == n,
{
    law_u32_stored(
        order,
        bytes,
        at,
        if n < 0 {
            n + 0x1_0000_0000
        } else {
            n
        },
    );
}

/// Reading a machine word undoes storing it, wherever it lies, and storing what
/// was read gives the bytes back.
pub proof fn law_usize_stored(order: Endian, bytes: Seq<u8>, at: int, n: int)
    requires
        0 <= at,
        at + usize::BITS / 8 <= bytes.len(),
    ensures
        0 <= usize_at(order, bytes, at) <= usize::MAX,
        stored_usize(order, usize_at(order, bytes, at)) == bytes.subrange(
            at,
            at + usize::BITS / 8,
        ),
        0 <= n <= usize::MAX && bytes.subrange(at, at + usize::BITS / 8) == stored_usize(order, n)
            ==> usize_at(order, bytes, at) == n,
{
    if usize::BITS == 64 {
        law_u64_stored(order, bytes, at, n);
    } else {
        law_u32_stored(order, bytes, at, n);
    }
}

} // verus!
