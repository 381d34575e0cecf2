//! The boot loader version as text.

use vstd::prelude::*;
use vstd::string::StringExecFns;

verus! {

/// The character of a decimal digit.
pub open spec fn digit(value: u8) -> char {
    if value == 0 {
        '0'
    } else if value == 1 {
        '1'
    } else if value == 2 {
        '2'
    } else if value == 3 {
        '3'
    } else if value == 4 {
        '4'
    } else if value == 5 {
        '5'
    } else if value == 6 {
        '6'
    } else if value == 7 {
        '7'
    } else if value == 8 {
        '8'
    } else {
        '9'
    }
}

/// A byte in decimal, without leading zeros.
pub open spec fn decimal(value: u8) -> Seq<char> {
    if value < 10 {
        seq![digit(value)]
    } else if value < 100 {
        seq![digit(value / 10), digit(value % 10)]
    } else {
        seq![digit(value / 100), digit(value / 10 % 10), digit(value % 10)]
    }
}

/// The version text: the major number, a dot, then the minor and the patch
/// number with nothing between them.
pub open spec fn version_text(major: u8, minor: u8, patch: u8) -> Seq<char> {
    decimal(major) + seq!['.'] + decimal(minor) + decimal(patch)
}

fn digit_text(value: u8) -> (text: &'static str)
    requires
        value < 10,
    ensures
        text@ == seq![digit(value)],
{
    proof {
        reveal_strlit("0");
        reveal_strlit("1");
        reveal_strlit("2");
        reveal_strlit("3");
        reveal_strlit("4");
        reveal_strlit("5");
        reveal_strlit("6");
        reveal_strlit("7");
        reveal_strlit("8");
        reveal_strlit("9");
    }
    let text = match value {
        0 => "0",
        1 => "1",
        2 => "2",
        3 => "3",
        4 => "4",
        5 => "5",
        6 => "6",
        7 => "7",
        8 => "8",
        _ => "9",
    };
    assert(text@ =~= seq![digit(value)]);
    text
}

fn append_decimal(text: &mut String, value: u8)
    ensures
        final(text)@ == old(text)@ + decimal(value),
{
    if value >= 100 {
        text.append(digit_text(value / 100));
    }
    if value >= 10 {
        text.append(digit_text(value / 10 % 10));
    }
    text.append(digit_text(value % 10));
}

/// Writes a version out as text.
pub fn version_string(major: u8, minor: u8, patch: u8) -> (text: String)
    ensures
        text@ == version_text(major, minor, patch),
{
    let mut text = String::new();
    append_decimal(&mut text, major);
    proof {
        reveal_strlit(".");
    }
    text.append(".");
    assert(text@ == decimal(major) + seq!['.']);
    append_decimal(&mut text, minor);
    append_decimal(&mut text, patch);
    text
}

} // verus!
