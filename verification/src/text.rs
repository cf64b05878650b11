//! Texts.

use vstd::prelude::*;
use vstd::string::StringExecFns;

verus! {

/// Whether two texts are the same.
pub fn same_text(text: &String, other: &str) -> (same: bool)
    ensures
        same == (text@ == other@),
{
    *text == other.to_owned()
}

/// Whether a value is displayed as the given text.
pub open spec fn displays_as<T: core::fmt::Display>(value: &T, text: Seq<char>) -> bool {
    forall|shown: String| #[trigger]
        vstd::string::to_string_from_display_ensures::<T>(value, shown) ==> shown@ == text
}

/// A number in decimal digits, without leading zeros.
pub open spec fn decimal(number: nat) -> Seq<char>
    decreases number,
{
    if number < 10 {
        seq![digit(number)]
    } else {
        decimal(number / 10).push(digit(number % 10))
    }
}

/// The decimal digit for a number below ten.
pub open spec fn digit(number: nat) -> char {
    seq!['0', '1', '2', '3', '4', '5', '6', '7', '8', '9'][number as int]
}

/// The decimal digit for a number below ten.
fn digit_text(number: u16) -> (text: &'static str)
    requires
        number < 10,
    ensures
        text@ == seq![digit(number as nat)],
{
    proof {
        reveal_strlit("0");
        reveal_strlit("1");
        reveal_strlit("2");
        reveal_strlit("3");
        reveal_strlit("4");
        reveal_strlit("5");
        reveal_strlit("6");
        reveal_strlit("7");
        reveal_strlit("8");
        reveal_strlit("9");
    }
    match number {
        0 => "0",
        1 => "1",
        2 => "2",
        3 => "3",
        4 => "4",
        5 => "5",
        6 => "6",
        7 => "7",
        8 => "8",
        _ => "9",
    }
}

/// Writes a number in decimal digits.
pub fn decimal_text(number: u16) -> (text: String)
    ensures
        text@ == decimal(number as nat),
    decreases number,
{
    if number < 10 {
        digit_text(number).to_owned()
    } else {
        let text = decimal_text(number / 10).concat(digit_text(number % 10));
        assert(text@ =~= decimal(number as nat));
        text
    }
}

/// The number that a string of decimal digits stands for.
pub open spec fn decimal_value(digits: Seq<char>) -> int
    decreases digits.len(),
{
    if digits.len() == 0 {
        0
    } else {
        10 * decimal_value(digits.drop_last()) + (digits.last() as int - '0' as int)
    }
}

/// A number in decimal digits reads as that number, has nothing but digits, and has no leading
/// zero.
pub proof fn law_decimal_reads_back(number: nat)
    ensures
        decimal_value(decimal(number)) == number,
        forall|i: int| 0 <= i < decimal(number).len() ==> '0' <= #[trigger] decimal(number)[i] <= '9',
        decimal(number).len() > 0,
        decimal(number)[0] == '0' ==> number == 0 && decimal(number).len() == 1,
    decreases number,
{
    reveal_with_fuel(decimal_value, 2);
    let last = digit(number % 10);
    assert(last as int == '0' as int + number % 10);
    if number < 10 {
        assert(decimal(number).drop_last() =~= Seq::empty());
    } else {
        law_decimal_reads_back(number / 10);
        assert(decimal(number).drop_last() =~= decimal(number / 10));
    }
}

/// Comparing texts tells whether they have the same characters in the same order.
pub proof fn law_same_text(text: String, other: &str, same: bool)
    requires
        call_ensures(same_text, (&text, other), same),
    ensures
        same <==> text@.len() == other@.len() && forall|i: int|
            0 <= i < text@.len() ==> #[trigger] text@[i] == other@[i],
{
    if text@.len() == other@.len() && forall|i: int|
        0 <= i < text@.len() ==> #[trigger] text@[i] == other@[i] {
        assert(text@ =~= other@);
    }
}

/// What is written for a number reads as that number, so that different numbers are written
/// differently.
pub proof fn law_numbers_are_written_to_be_read(number: u16, text: String)
    requires
        call_ensures(decimal_text, (number,), text),
    ensures
        decimal_value(text@) == number,
        text@.len() > 0,
{
    law_decimal_reads_back(number as nat);
}

} // verus!
