//! Numbers as text.

use vstd::prelude::*;

verus! {

/// The character for a digit.
pub open spec fn digit(n: int) -> char {
    ('0' as int + n) as char
}

/// A number in decimal, without leading zeros.
pub open spec fn decimal(n: int) -> Seq<char>
    decreases n,
{
    if n < 10 {
        seq![digit(n)]
    } else {
        decimal(n / 10).push(digit(n % 10))
    }
}

/// A number in decimal, filled up with spaces on the left to two characters.
pub open spec fn decimal_right_2(n: int) -> Seq<char> {
    if n < 10 {
        seq![' '] + decimal(n)
    } else {
        decimal(n)
    }
}

/// The text of a digit.
fn digit_text(n: u64) -> (text: &'static str)
    requires
        n < 10,
    ensures
        text@ =~= seq![digit(n as int)],
{
    proof {
        reveal_strlit("0");
        reveal_strlit("1");
        reveal_strlit("2");
        reveal_strlit("3");
        reveal_strlit("4");
        reveal_strlit("5");
        reveal_strlit("6");
        reveal_strlit("7");
        reveal_strlit("8");
        reveal_strlit("9");
    }
    match n {
        0 => "0",
        1 => "1",
        2 => "2",
        3 => "3",
        4 => "4",
        5 => "5",
        6 => "6",
        7 => "7",
        8 => "8",
        _ => "9",
    }
}

/// Write a number in decimal.
pub fn decimal_text(n: u64) -> (text: String)
    ensures
        text@ == decimal(n as int),
    decreases n,
{
    let mut text: String = String::new();
    if n >= 10 {
        text = decimal_text(n / 10);
    }
    text.append(digit_text(n % 10));
    assert(text@ =~= decimal(n as int));
    text
}

/// Write a number in decimal, right-aligned to two characters.
pub fn decimal_right_2_text(n: u64) -> (text: String)
    ensures
        text@ == decimal_right_2(n as int),
{
    let mut text: String = String::new();
    if n < 10 {
        proof {
            reveal_strlit(" ");
        }
        text.append(" ");
    }
    text.append(decimal_text(n).as_str());
    assert(text@ =~= decimal_right_2(n as int));
    text
}

/// The number that digits stand for when they are read as decimal.
pub open spec fn decimal_value(text: Seq<char>) -> int
    decreases text.len(),
{
    if text.len() == 0 {
        0
    } else {
        10 * decimal_value(text.drop_last()) + (text.last() as int - '0' as int)
    }
}

/// A number in decimal reads back as the number: it is made up of digits alone,
/// has at least one, and has a zero in front only where the number is zero.
pub proof fn law_decimal_reads_back(n: int)
    requires
        0 <= n,
    ensures
        decimal_value(decimal(n)) == n,
        decimal(n).len() > 0,
        forall|i: int| 0 <= i < decimal(n).len() ==> '0' <= #[trigger] decimal(n)[i] <= '9',
        decimal(n)[0] == '0' ==> n == 0,
        n < 10 <==> decimal(n).len() == 1,
    decreases n,
{
    reveal_with_fuel(decimal_value, 2);
    if n >= 10 {
        law_decimal_reads_back(n / 10);
        let front = decimal(n / 10);
        assert(decimal(n).drop_last() =~= front);
        assert(decimal(n)[0] == front[0]);
    } else {
        assert(decimal(n).drop_last() =~= Seq::<char>::empty());
    }
}

/// Right-aligning puts one space in front of a single digit, and leaves a longer
/// number as it is.
pub proof fn law_decimal_right_2(n: int)
    requires
        0 <= n,
    ensures
        n < 10 ==> decimal_right_2(n) == seq![' '] + decimal(n),
        n >= 10 ==> decimal_right_2(n) == decimal(n),
        decimal_right_2(n).len() >= 2,
{
    law_decimal_reads_back(n);
}

} // verus!
