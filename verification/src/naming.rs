//! The names that the philosophers go by: a common title and the number of
//! the seat, counted from one.

use vstd::prelude::*;

verus! {

/// The character for a single decimal digit.
pub open spec fn digit(d: nat) -> char {
    if d == 0 {
        '0'
    } else if d == 1 {
        '1'
    } else if d == 2 {
        '2'
    } else if d == 3 {
        '3'
    } else if d == 4 {
        '4'
    } else if d == 5 {
        '5'
    } else if d == 6 {
        '6'
    } else if d == 7 {
        '7'
    } else if d == 8 {
        '8'
    } else {
        '9'
    }
}

/// A number written in decimal digits, without sign or leading zeros.
pub open spec fn decimal(number: nat) -> Seq<char>
    decreases number,
{
    if number < 10 {
        seq![digit(number)]
    } else {
        decimal(number / 10).push(digit(number % 10))
    }
}

/// The name that goes with a number: the title, a space, the number.
pub open spec fn numbered_name(number: nat) -> Seq<char> {
    "Filósofo "@ + decimal(number)
}

/// `format!` with the title and one `{}` for a `usize`: std writes an
/// unsigned integer as its decimal digits, with no sign, padding or
/// separators, after the literal text.
#[verifier::external_body]
fn format_name(number: usize) -> (name: String)
    ensures
        name@ == numbered_name(number as nat),
{
    format!("Filósofo {}", number)
}

/// The name of the philosopher at the given seat. Seats count from zero,
/// names from one.
pub fn seat_name(seat: usize) -> (name: String)
    requires
        seat < usize::MAX,
    ensures
        name@ == numbered_name((seat + 1) as nat),
{
    format_name(seat + 1)
}

} // verus!
